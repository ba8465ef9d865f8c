//! Undo/redo history of editor commands.
//!
//! Commands are values of a type that implements [`EditorCommand`] over
//! some world type; the history keeps the executed ones (which can be
//! undone) and the undone ones (which can be redone), merges continuous
//! operations when a command allows it, and keeps at most
//! [`MAX_HISTORY_SIZE`] commands.

use std::collections::VecDeque;
use vstd::prelude::*;

verus! {

/// Largest number of commands kept in the undo stack.
pub const MAX_HISTORY_SIZE: usize = 100;

/// An undoable editor operation on a world of type `W`.
///
/// Performing or reversing a command may change the command's own state
/// (a command may remember what it overwrote), but not its description.
/// What a command does to the world is described by `executes` and
/// `undoes`, and what merging makes of it by `merged`.
pub trait EditorCommand<W>: Sized {
    /// The text `description` gives. A command type gives it; unless it
    /// does, nothing is known of it.
    open spec fn describe(&self) -> Seq<char> {
        vstd::pervasive::arbitrary()
    }

    /// Whether `other`, a command just performed, folds into this one
    /// (continuous operations such as dragging). A command type gives it;
    /// unless it does, nothing is known of it.
    open spec fn merges_with(&self, other: &Self) -> bool {
        vstd::pervasive::arbitrary()
    }

    /// The command this one becomes when `other` is folded into it. A
    /// command type gives it; unless it does, nothing is known of it.
    open spec fn merged(&self, other: Self) -> Self {
        vstd::pervasive::arbitrary()
    }

    /// Whether performing this command on the world `before` may give the
    /// world `after`. A command type gives it; unless it does, nothing is
    /// known of it.
    open spec fn executes(&self, before: W, after: W) -> bool {
        vstd::pervasive::arbitrary()
    }

    /// Whether reversing this command on the world `before` may give the
    /// world `after`. A command type gives it; unless it does, nothing is
    /// known of it.
    open spec fn undoes(&self, before: W, after: W) -> bool {
        vstd::pervasive::arbitrary()
    }

    /// Performs the operation.
    fn execute(&mut self, world: &mut W)
        ensures
            final(self).describe() == old(self).describe(),
            old(self).executes(*old(world), *final(world)),
    ;

    /// Reverses the operation.
    fn undo(&mut self, world: &mut W)
        ensures
            final(self).describe() == old(self).describe(),
            old(self).undoes(*old(world), *final(world)),
    ;

    /// Human-readable description for the history panel.
    fn description(&self) -> (r: String)
        ensures
            r@ == self.describe(),
    ;

    /// Whether `other`, a command just performed, can be folded into this
    /// one: what `merges_with` says. A command type whose commands never
    /// merge returns `false`.
    fn can_merge_with(&self, other: &Self) -> (r: bool)
        ensures
            r == self.merges_with(other),
    ;

    /// Folds `other` into this command: it becomes what `merged` says.
    fn merge(&mut self, other: Self)
        ensures
            *final(self) == old(self).merged(other),
    ;
}

/// A command in the history with whether it is currently applied.
struct CommandWrapper<C> {
    command: C,
    executed: bool,
}

/// Counts of the history, for display.
#[derive(Debug, Clone, Copy)]
pub struct HistoryStats {
    pub undo_count: usize,
    pub redo_count: usize,
    pub total_commands: usize,
}

/// Undo/redo history over commands of type `C`.
pub struct EditorHistory<C> {
    undo_stack: VecDeque<CommandWrapper<C>>,
    redo_stack: VecDeque<CommandWrapper<C>>,
    is_executing: bool,
    total_commands: usize,
}

/// The commands of a stack, bottom first.
spec fn commands_of<C>(s: Seq<CommandWrapper<C>>) -> Seq<C> {
    s.map_values(|w: CommandWrapper<C>| w.command)
}

/// `s` with its oldest command dropped when it holds more than the history
/// size.
pub open spec fn trimmed<C>(s: Seq<C>) -> Seq<C> {
    if s.len() > MAX_HISTORY_SIZE {
        s.drop_first()
    } else {
        s
    }
}

/// `new` is `old` with command `c` recorded on top (and the oldest dropped
/// if the history is full).
pub open spec fn records<C>(old: Seq<C>, new: Seq<C>, c: C) -> bool {
    new == trimmed(old.push(c))
}

/// `new` is `old` with `c` folded into its top command.
pub open spec fn merges_into_top<C, W>(old: Seq<C>, new: Seq<C>, c: C) -> bool
    where C: EditorCommand<W>
{
    &&& old.len() > 0
    &&& new.len() == old.len()
    &&& new.drop_last() == old.drop_last()
    &&& new.last() == old.last().merged(c)
}

/// `new` is `old` with its top command moved to the top of `new_other`,
/// whose other commands are those of `old_other`.
pub open spec fn moved_top<C>(old: Seq<C>, new: Seq<C>, old_other: Seq<C>, new_other: Seq<C>) -> bool {
    &&& old.len() > 0
    &&& new == old.drop_last()
    &&& new_other.len() == old_other.len() + 1
    &&& new_other.drop_last() == old_other
}

/// The descriptions of the commands of `s`, in order.
pub open spec fn descriptions<C, W>(s: Seq<C>) -> Seq<Seq<char>>
    where C: EditorCommand<W>
{
    s.map_values(|c: C| c.describe())
}

/// `moved_top`, and the command moved keeps its description.
pub open spec fn moved_top_described<C, W>(old: Seq<C>, new: Seq<C>, old_other: Seq<C>, new_other: Seq<C>) -> bool
    where C: EditorCommand<W>
{
    &&& moved_top(old, new, old_other, new_other)
    &&& new_other.last().describe() == old.last().describe()
}

/// What recording the performed command `c` does to the undo stack `old`
/// (giving `new`) and to the session count: when the top command accepts
/// `c`, `c` is folded into it and the count stays; otherwise `c` is pushed
/// and counted.
pub open spec fn merged_or_recorded<C, W>(old: Seq<C>, new: Seq<C>, old_total: nat, new_total: nat, c: C) -> bool
    where C: EditorCommand<W>
{
    if old.len() > 0 && old.last().merges_with(&c) {
        merges_into_top::<C, W>(old, new, c) && new_total == old_total
    } else {
        records(old, new, c) && new_total == old_total + 1
    }
}

impl<C> EditorHistory<C> {
    /// Commands that can be undone, oldest first.
    pub closed spec fn undo_commands(&self) -> Seq<C> {
        commands_of(self.undo_stack@)
    }

    /// Commands that can be redone; the last is redone first.
    pub closed spec fn redo_commands(&self) -> Seq<C> {
        commands_of(self.redo_stack@)
    }

    /// Number of commands recorded this session.
    pub closed spec fn total(&self) -> nat {
        self.total_commands as nat
    }

    /// The history is consistent: not in the middle of a command, undo and
    /// redo together within the history size, and the flags of the
    /// commands tell applied (undo side) from unapplied (redo side).
    pub closed spec fn wf(&self) -> bool {
        &&& !self.is_executing
        &&& self.undo_stack@.len() + self.redo_stack@.len() <= MAX_HISTORY_SIZE
        &&& forall|i: int| 0 <= i < self.undo_stack@.len() ==> (#[trigger] self.undo_stack@[i]).executed
        &&& forall|i: int| 0 <= i < self.redo_stack@.len() ==> !(#[trigger] self.redo_stack@[i]).executed
    }

    /// An empty history.
    pub fn new() -> (r: Self)
        ensures
            r.wf(),
            r.undo_commands() == Seq::<C>::empty(),
            r.redo_commands() == Seq::<C>::empty(),
            r.total() == 0,
    {
        let r = EditorHistory {
            undo_stack: VecDeque::new(),
            redo_stack: VecDeque::new(),
            is_executing: false,
            total_commands: 0,
        };
        assert(commands_of(r.undo_stack@) =~= Seq::<C>::empty());
        assert(commands_of(r.redo_stack@) =~= Seq::<C>::empty());
        r
    }

    /// Records an executed command on top of the undo stack, folding it
    /// into the top command instead when `mergeable` and the stack is not
    /// empty. The redo stack must be empty.
    fn record_or_merge<W>(&mut self, command: C, mergeable: bool)
        where C: EditorCommand<W>
        requires
            old(self).wf(),
            old(self).redo_commands().len() == 0,
            old(self).total() < usize::MAX || (mergeable && old(self).undo_commands().len() > 0),
        ensures
            final(self).wf(),
            final(self).redo_commands() == Seq::<C>::empty(),
            mergeable && old(self).undo_commands().len() > 0 ==> {
                &&& merges_into_top::<C, W>(old(self).undo_commands(), final(self).undo_commands(), command)
                &&& final(self).total() == old(self).total()
            },
            !(mergeable && old(self).undo_commands().len() > 0) ==> {
                &&& records(old(self).undo_commands(), final(self).undo_commands(), command)
                &&& final(self).total() == old(self).total() + 1
            },
    {
        let ghost old_undo = self.undo_stack@;
        let n = self.undo_stack.len();
        if mergeable && n > 0 {
            let mut last = self.undo_stack.pop_back().unwrap();
            last.command.merge(command);
            self.undo_stack.push_back(last);
            proof {
                assert(commands_of(self.undo_stack@).drop_last() =~= commands_of(old_undo).drop_last());
                assert forall|i: int| 0 <= i < self.undo_stack@.len() implies (#[trigger] self.undo_stack@[i]).executed by {
                    if i < n - 1 {
                        assert(self.undo_stack@[i] == old_undo[i]);
                    }
                }
            }
            return;
        }
        self.undo_stack.push_back(CommandWrapper { command, executed: true });
        let ghost pushed = self.undo_stack@;
        if self.undo_stack.len() > MAX_HISTORY_SIZE {
            self.undo_stack.pop_front();
        }
        self.total_commands = self.total_commands + 1;
        proof {
            assert(commands_of(pushed) =~= commands_of(old_undo).push(command));
            if pushed.len() > MAX_HISTORY_SIZE {
                assert(commands_of(self.undo_stack@) =~= commands_of(pushed).drop_first());
            }
            assert forall|i: int| 0 <= i < self.undo_stack@.len() implies (#[trigger] self.undo_stack@[i]).executed by {
                if pushed.len() > MAX_HISTORY_SIZE {
                    assert(self.undo_stack@[i] == pushed[i + 1]);
                }
                if i < old_undo.len() && pushed.len() <= MAX_HISTORY_SIZE {
                    assert(self.undo_stack@[i] == old_undo[i]);
                }
                if pushed.len() > MAX_HISTORY_SIZE && i + 1 < old_undo.len() {
                    assert(pushed[i + 1] == old_undo[i + 1]);
                }
            }
        }
    }

    /// Executes `command` on `world` and records it: the redo stack is
    /// cleared, then the command is folded into the top command when that
    /// one accepts it, or else pushed (dropping the oldest command when the
    /// history is full). What is recorded is the command as its own
    /// `execute` left it, with the same description. Whether the top
    /// command accepts that command is known only once it has run, so the
    /// session count needs room for one more command either way.
    pub fn execute<W>(&mut self, command: C, world: &mut W)
        where C: EditorCommand<W>
        requires
            old(self).wf(),
            old(self).total() < usize::MAX,
        ensures
            command.executes(*old(world), *final(world)),
            final(self).wf(),
            final(self).redo_commands() == Seq::<C>::empty(),
            exists|c: C|
                c.describe() == command.describe() && #[trigger] merged_or_recorded::<C, W>(
                    old(self).undo_commands(),
                    final(self).undo_commands(),
                    old(self).total(),
                    final(self).total(),
                    c,
                ),
    {
        if self.is_executing {
            return;
        }
        self.is_executing = true;
        let mut command = command;
        command.execute(world);
        self.redo_stack.clear();
        let n = self.undo_stack.len();
        let mergeable = if n > 0 {
            self.undo_stack[n - 1].command.can_merge_with(&command)
        } else {
            false
        };
        self.is_executing = false;
        let ghost command_done = command;
        self.record_or_merge::<W>(command, mergeable);
        assert(merged_or_recorded::<C, W>(
            old(self).undo_commands(),
            self.undo_commands(),
            old(self).total(),
            self.total(),
            command_done,
        ));
    }

    /// Records a command whose effect is already applied, without executing
    /// it: the redo stack is cleared, then the command is folded into the
    /// top command when that one accepts it, or else pushed (dropping the
    /// oldest command when the history is full) and counted, which needs
    /// room in the session count.
    pub fn add_executed<W>(&mut self, command: C)
        where C: EditorCommand<W>
        requires
            old(self).wf(),
            old(self).total() < usize::MAX || (old(self).undo_commands().len() > 0
                && old(self).undo_commands().last().merges_with(&command)),
        ensures
            final(self).wf(),
            final(self).redo_commands() == Seq::<C>::empty(),
            merged_or_recorded::<C, W>(
                old(self).undo_commands(),
                final(self).undo_commands(),
                old(self).total(),
                final(self).total(),
                command,
            ),
    {
        if self.is_executing {
            return;
        }
        self.redo_stack.clear();
        let n = self.undo_stack.len();
        let mergeable = if n > 0 {
            self.undo_stack[n - 1].command.can_merge_with(&command)
        } else {
            false
        };
        self.record_or_merge::<W>(command, mergeable);
    }

    /// Undoes the last executed command and moves it to the redo stack.
    /// Returns whether there was one.
    pub fn undo<W>(&mut self, world: &mut W) -> (r: bool)
        where C: EditorCommand<W>
        requires
            old(self).wf(),
        ensures
            final(self).wf(),
            r == (old(self).undo_commands().len() > 0),
            final(self).total() == old(self).total(),
            r ==> moved_top_described::<C, W>(
                old(self).undo_commands(),
                final(self).undo_commands(),
                old(self).redo_commands(),
                final(self).redo_commands(),
            ),
            !r ==> final(self).undo_commands() == old(self).undo_commands() && final(self).redo_commands()
                == old(self).redo_commands(),
            r ==> old(self).undo_commands().last().undoes(*old(world), *final(world)),
            !r ==> *final(world) == *old(world),
    {
        if self.is_executing {
            return false;
        }
        let ghost old_undo = self.undo_stack@;
        let ghost old_redo = self.redo_stack@;
        match self.undo_stack.pop_back() {
            Some(wrapper) => {
                let mut wrapper = wrapper;
                self.is_executing = true;
                wrapper.command.undo(world);
                wrapper.executed = false;
                self.redo_stack.push_back(wrapper);
                self.is_executing = false;
                proof {
                    assert(commands_of(self.undo_stack@) =~= commands_of(old_undo).drop_last());
                    assert(commands_of(self.redo_stack@).drop_last() =~= commands_of(old_redo));
                    assert forall|i: int| 0 <= i < self.undo_stack@.len() implies (#[trigger] self.undo_stack@[i]).executed by {
                        assert(self.undo_stack@[i] == old_undo[i]);
                    }
                    assert forall|i: int| 0 <= i < self.redo_stack@.len() implies !(#[trigger] self.redo_stack@[i]).executed by {
                        if i < old_redo.len() {
                            assert(self.redo_stack@[i] == old_redo[i]);
                        }
                    }
                }
                true
            },
            None => false,
        }
    }

    /// Redoes the last undone command and moves it back to the undo stack.
    /// Returns whether there was one.
    pub fn redo<W>(&mut self, world: &mut W) -> (r: bool)
        where C: EditorCommand<W>
        requires
            old(self).wf(),
        ensures
            final(self).wf(),
            r == (old(self).redo_commands().len() > 0),
            final(self).total() == old(self).total(),
            r ==> moved_top_described::<C, W>(
                old(self).redo_commands(),
                final(self).redo_commands(),
                old(self).undo_commands(),
                final(self).undo_commands(),
            ),
            !r ==> final(self).undo_commands() == old(self).undo_commands() && final(self).redo_commands()
                == old(self).redo_commands(),
            r ==> old(self).redo_commands().last().executes(*old(world), *final(world)),
            !r ==> *final(world) == *old(world),
    {
        if self.is_executing {
            return false;
        }
        let ghost old_undo = self.undo_stack@;
        let ghost old_redo = self.redo_stack@;
        match self.redo_stack.pop_back() {
            Some(wrapper) => {
                let mut wrapper = wrapper;
                self.is_executing = true;
                wrapper.command.execute(world);
                wrapper.executed = true;
                self.undo_stack.push_back(wrapper);
                self.is_executing = false;
                proof {
                    assert(commands_of(self.redo_stack@) =~= commands_of(old_redo).drop_last());
                    assert(commands_of(self.undo_stack@).drop_last() =~= commands_of(old_undo));
                    assert forall|i: int| 0 <= i < self.redo_stack@.len() implies !(#[trigger] self.redo_stack@[i]).executed by {
                        assert(self.redo_stack@[i] == old_redo[i]);
                    }
                    assert forall|i: int| 0 <= i < self.undo_stack@.len() implies (#[trigger] self.undo_stack@[i]).executed by {
                        if i < old_undo.len() {
                            assert(self.undo_stack@[i] == old_undo[i]);
                        }
                    }
                }
                true
            },
            None => false,
        }
    }

    /// Whether there is a command to undo.
    pub fn can_undo(&self) -> (r: bool)
        ensures
            r == (self.undo_commands().len() > 0),
    {
        self.undo_stack.len() > 0
    }

    /// Whether there is a command to redo.
    pub fn can_redo(&self) -> (r: bool)
        ensures
            r == (self.redo_commands().len() > 0),
    {
        self.redo_stack.len() > 0
    }

    /// Description of the command an undo would reverse, if any.
    pub fn undo_description<W>(&self) -> (r: Option<String>)
        where C: EditorCommand<W>
        ensures
            r is Some <==> self.undo_commands().len() > 0,
            r matches Some(d) ==> d@ == self.undo_commands().last().describe(),
    {
        let n = self.undo_stack.len();
        if n > 0 {
            Some(self.undo_stack[n - 1].command.description())
        } else {
            None
        }
    }

    /// Description of the command a redo would perform, if any.
    pub fn redo_description<W>(&self) -> (r: Option<String>)
        where C: EditorCommand<W>
        ensures
            r is Some <==> self.redo_commands().len() > 0,
            r matches Some(d) ==> d@ == self.redo_commands().last().describe(),
    {
        let n = self.redo_stack.len();
        if n > 0 {
            Some(self.redo_stack[n - 1].command.description())
        } else {
            None
        }
    }

    /// Descriptions of the undoable commands, oldest first.
    pub fn get_undo_history<W>(&self) -> (r: Vec<String>)
        where C: EditorCommand<W>
        ensures
            r@.map_values(|d: String| d@) == descriptions::<C, W>(self.undo_commands()),
    {
        let mut r: Vec<String> = Vec::new();
        let mut i: usize = 0;
        while i < self.undo_stack.len()
            invariant
                i <= self.undo_stack@.len(),
                r@.len() == i,
                forall|k: int| 0 <= k < i ==> (#[trigger] r@[k])@ == self.undo_stack@[k].command.describe(),
            decreases self.undo_stack@.len() - i,
        {
            r.push(self.undo_stack[i].command.description());
            i = i + 1;
        }
        assert(r@.map_values(|d: String| d@) =~= descriptions::<C, W>(self.undo_commands()));
        r
    }

    /// Descriptions of the redoable commands in the order they were undone:
    /// the one a redo performs first comes first.
    pub fn get_redo_history<W>(&self) -> (r: Vec<String>)
        where C: EditorCommand<W>
        ensures
            r@.map_values(|d: String| d@) == descriptions::<C, W>(self.redo_commands().reverse()),
    {
        let mut r: Vec<String> = Vec::new();
        let mut i: usize = self.redo_stack.len();
        while i > 0
            invariant
                i <= self.redo_stack@.len(),
                r@.len() == self.redo_stack@.len() - i,
                forall|k: int|
                    0 <= k < r@.len() ==> (#[trigger] r@[k])@ == self.redo_stack@[self.redo_stack@.len() - 1
                        - k].command.describe(),
            decreases i,
        {
            i = i - 1;
            r.push(self.redo_stack[i].command.description());
        }
        assert(r@.map_values(|d: String| d@) =~= descriptions::<C, W>(self.redo_commands().reverse()));
        r
    }

    /// Drops all commands of both stacks; the session count stays.
    pub fn clear(&mut self)
        requires
            old(self).wf(),
        ensures
            final(self).wf(),
            final(self).undo_commands() == Seq::<C>::empty(),
            final(self).redo_commands() == Seq::<C>::empty(),
            final(self).total() == old(self).total(),
    {
        self.undo_stack.clear();
        self.redo_stack.clear();
        assert(commands_of(self.undo_stack@) =~= Seq::<C>::empty());
        assert(commands_of(self.redo_stack@) =~= Seq::<C>::empty());
    }

    /// The sizes of both stacks and the number of commands recorded.
    pub fn stats(&self) -> (r: HistoryStats)
        ensures
            r.undo_count == self.undo_commands().len(),
            r.redo_count == self.redo_commands().len(),
            r.total_commands == self.total(),
    {
        HistoryStats {
            undo_count: self.undo_stack.len(),
            redo_count: self.redo_stack.len(),
            total_commands: self.total_commands,
        }
    }
}

/// What the history keys ask for.
#[derive(Debug, Clone, Copy, PartialEq, Eq, Structural)]
pub enum HistoryShortcut {
    Undo,
    Redo,
}

/// The history shortcut pressed this frame: with Ctrl held, Z undoes,
/// Shift+Z and Y redo.
pub open spec fn shortcut_of(ctrl: bool, shift: bool, z_pressed: bool, y_pressed: bool) -> Option<HistoryShortcut> {
    if !ctrl {
        None
    } else if z_pressed {
        if shift {
            Some(HistoryShortcut::Redo)
        } else {
            Some(HistoryShortcut::Undo)
        }
    } else if y_pressed {
        Some(HistoryShortcut::Redo)
    } else {
        None
    }
}

/// The history shortcut pressed this frame, from whether Ctrl and Shift
/// are held and whether Z and Y were just pressed.
pub fn history_shortcut(ctrl: bool, shift: bool, z_pressed: bool, y_pressed: bool) -> (r: Option<HistoryShortcut>)
    ensures
        r == shortcut_of(ctrl, shift, z_pressed, y_pressed),
{
    if !ctrl {
        None
    } else if z_pressed {
        if shift {
            Some(HistoryShortcut::Redo)
        } else {
            Some(HistoryShortcut::Undo)
        }
    } else if y_pressed {
        Some(HistoryShortcut::Redo)
    } else {
        None
    }
}

/// Undoes or redoes on the keyboard shortcut of this frame, if any.
pub fn handle_undo_redo_shortcuts<C, W>(
    history: &mut EditorHistory<C>,
    world: &mut W,
    ctrl: bool,
    shift: bool,
    z_pressed: bool,
    y_pressed: bool,
)
    where C: EditorCommand<W>
    requires
        old(history).wf(),
    ensures
        final(history).wf(),
        final(history).total() == old(history).total(),
        match shortcut_of(ctrl, shift, z_pressed, y_pressed) {
            Some(HistoryShortcut::Undo) => if old(history).undo_commands().len() > 0 {
                moved_top_described::<C, W>(
                    old(history).undo_commands(),
                    final(history).undo_commands(),
                    old(history).redo_commands(),
                    final(history).redo_commands(),
                )
            } else {
                final(history).undo_commands() == old(history).undo_commands() && final(history).redo_commands()
                    == old(history).redo_commands()
            },
            Some(HistoryShortcut::Redo) => if old(history).redo_commands().len() > 0 {
                moved_top_described::<C, W>(
                    old(history).redo_commands(),
                    final(history).redo_commands(),
                    old(history).undo_commands(),
                    final(history).undo_commands(),
                )
            } else {
                final(history).undo_commands() == old(history).undo_commands() && final(history).redo_commands()
                    == old(history).redo_commands()
            },
            None => *final(history) == *old(history),
        },
        match shortcut_of(ctrl, shift, z_pressed, y_pressed) {
            Some(HistoryShortcut::Undo) => if old(history).undo_commands().len() > 0 {
                old(history).undo_commands().last().undoes(*old(world), *final(world))
            } else {
                *final(world) == *old(world)
            },
            Some(HistoryShortcut::Redo) => if old(history).redo_commands().len() > 0 {
                old(history).redo_commands().last().executes(*old(world), *final(world))
            } else {
                *final(world) == *old(world)
            },
            None => *final(world) == *old(world),
        },
{
    match history_shortcut(ctrl, shift, z_pressed, y_pressed) {
        Some(HistoryShortcut::Undo) => {
            history.undo(world);
        },
        Some(HistoryShortcut::Redo) => {
            history.redo(world);
        },
        None => {},
    }
}

impl<C> Default for EditorHistory<C> {
    fn default() -> (r: Self)
        ensures
            r.wf(),
            r.undo_commands() == Seq::<C>::empty(),
            r.redo_commands() == Seq::<C>::empty(),
            r.total() == 0,
    {
        Self::new()
    }
}

/// The history never holds more than [`MAX_HISTORY_SIZE`] commands, undo
/// and redo stacks together.
pub proof fn lemma_history_bounded<C>(h: EditorHistory<C>)
    requires
        h.wf(),
    ensures
        h.undo_commands().len() + h.redo_commands().len() <= MAX_HISTORY_SIZE,
{
}

/// Recording a command puts it on top of the undo stack, keeps the stack
/// within the history size, and keeps every earlier command but possibly
/// the oldest.
pub proof fn lemma_record_keeps_newest<C>(old: Seq<C>, new: Seq<C>, c: C)
    requires
        records(old, new, c),
        old.len() <= MAX_HISTORY_SIZE,
    ensures
        new.len() > 0,
        new.last() == c,
        new.len() <= MAX_HISTORY_SIZE,
        old.len() < MAX_HISTORY_SIZE ==> new == old.push(c),
        old.len() == MAX_HISTORY_SIZE ==> new == old.drop_first().push(c),
{
    if old.len() == MAX_HISTORY_SIZE {
        assert(old.push(c).drop_first() =~= old.drop_first().push(c));
    }
}

/// Undoing and then redoing brings both stacks back to their former shape:
/// the redo stack is as before, and the undo stack has its former commands
/// (the top one as the command's own undo and redo left it) with the same
/// descriptions, so the undo history reads as before.
pub proof fn lemma_undo_then_redo<C, W>(u0: Seq<C>, r0: Seq<C>, u1: Seq<C>, r1: Seq<C>, u2: Seq<C>, r2: Seq<C>)
    where C: EditorCommand<W>
    requires
        moved_top_described::<C, W>(u0, u1, r0, r1),
        moved_top_described::<C, W>(r1, r2, u1, u2),
    ensures
        r2 == r0,
        u2.len() == u0.len(),
        u2.drop_last() == u0.drop_last(),
        descriptions::<C, W>(u2) == descriptions::<C, W>(u0),
{
    assert(u2 =~= u2.drop_last().push(u2.last()));
    assert(u0 =~= u0.drop_last().push(u0.last()));
    assert(descriptions::<C, W>(u2) =~= descriptions::<C, W>(u0));
}

/// Redoing and then undoing brings both stacks back to their former shape:
/// the undo stack is as before, and the redo stack has its former commands
/// with the same descriptions, so the redo history reads as before.
pub proof fn lemma_redo_then_undo<C, W>(u0: Seq<C>, r0: Seq<C>, u1: Seq<C>, r1: Seq<C>, u2: Seq<C>, r2: Seq<C>)
    where C: EditorCommand<W>
    requires
        moved_top_described::<C, W>(r0, r1, u0, u1),
        moved_top_described::<C, W>(u1, u2, r1, r2),
    ensures
        u2 == u0,
        r2.len() == r0.len(),
        r2.drop_last() == r0.drop_last(),
        descriptions::<C, W>(r2) == descriptions::<C, W>(r0),
{
    assert(r2 =~= r2.drop_last().push(r2.last()));
    assert(r0 =~= r0.drop_last().push(r0.last()));
    assert(descriptions::<C, W>(r2) =~= descriptions::<C, W>(r0));
}

proof fn lemma_undo_step<C, W>(u0: Seq<C>, ui: Seq<C>, un: Seq<C>, ri: Seq<C>, rn: Seq<C>, i: int)
    where C: EditorCommand<W>
    requires
        0 <= i < u0.len(),
        ui == u0.subrange(0, u0.len() - i),
        ri.len() == i,
        descriptions::<C, W>(ri.reverse()) == descriptions::<C, W>(u0.subrange(u0.len() - i, u0.len() as int)),
        moved_top_described::<C, W>(ui, un, ri, rn),
    ensures
        rn.len() == i + 1,
        un == u0.subrange(0, u0.len() - (i + 1)),
        descriptions::<C, W>(rn.reverse()) == descriptions::<C, W>(
            u0.subrange(u0.len() - (i + 1), u0.len() as int),
        ),
{
    let len = u0.len() as int;
    let n = i + 1;
    assert(un =~= u0.subrange(0, len - n));
    assert(rn =~= ri.push(rn.last()));
    assert(rn.reverse() =~= seq![rn.last()] + ri.reverse());
    assert(u0.subrange(len - n, len) =~= seq![u0[len - n]] + u0.subrange(len - i, len));
    assert(ui.last() == u0[len - n]);
    let dr = descriptions::<C, W>(rn.reverse());
    let du = descriptions::<C, W>(u0.subrange(len - n, len));
    let dri = descriptions::<C, W>(ri.reverse());
    let dui = descriptions::<C, W>(u0.subrange(len - i, len));
    assert forall|k: int| 0 <= k < n implies dr[k] == du[k] by {
        if k > 0 {
            assert(rn.reverse()[k] == ri.reverse()[k - 1]);
            assert(u0.subrange(len - n, len)[k] == u0.subrange(len - i, len)[k - 1]);
            assert(dri[k - 1] == dui[k - 1]);
        }
    }
    assert(dr =~= du);
}

proof fn lemma_undo_steps<C, W>(us: Seq<Seq<C>>, rs: Seq<Seq<C>>, n: int)
    where C: EditorCommand<W>
    requires
        0 <= n < us.len(),
        us.len() == rs.len(),
        rs[0].len() == 0,
        forall|i: int|
            0 <= i < us.len() - 1 ==> moved_top_described::<C, W>(#[trigger] us[i], us[i + 1], rs[i], rs[i + 1]),
    ensures
        us[0].len() >= n,
        rs[n].len() == n,
        us[n] == us[0].subrange(0, us[0].len() - n),
        descriptions::<C, W>(rs[n].reverse()) == descriptions::<C, W>(
            us[0].subrange(us[0].len() - n, us[0].len() as int),
        ),
    decreases n,
{
    let u0 = us[0];
    let len = u0.len() as int;
    if n == 0 {
        assert(us[0] =~= u0.subrange(0, len));
        assert(descriptions::<C, W>(rs[0].reverse()) =~= descriptions::<C, W>(u0.subrange(len, len)));
    } else {
        let i = n - 1;
        lemma_undo_steps::<C, W>(us, rs, i);
        assert(moved_top_described::<C, W>(us[i], us[i + 1], rs[i], rs[i + 1]));
        lemma_undo_step::<C, W>(u0, us[i], us[n], rs[i], rs[n], i);
    }
}

/// Undoing several commands in a row, starting with nothing to redo, lists
/// them in the redo history in the order they were executed: after the
/// undos that lead from undo stacks `us[0]` to `us[k]` and redo stacks
/// `rs[0]` (empty) to `rs[k]`, the redo history (the redo stack reversed)
/// reads as the descriptions of the last `k` commands of `us[0]`, and the
/// command a redo performs next is the first of them.
pub proof fn lemma_undos_fill_redo_history<C, W>(us: Seq<Seq<C>>, rs: Seq<Seq<C>>)
    where C: EditorCommand<W>
    requires
        us.len() > 0,
        us.len() == rs.len(),
        rs[0].len() == 0,
        forall|i: int|
            0 <= i < us.len() - 1 ==> moved_top_described::<C, W>(#[trigger] us[i], us[i + 1], rs[i], rs[i + 1]),
    ensures
        us[0].len() >= us.len() - 1,
        rs[us.len() - 1].len() == us.len() - 1,
        descriptions::<C, W>(rs[us.len() - 1].reverse()) == descriptions::<C, W>(
            us[0].subrange(us[0].len() - (us.len() - 1), us[0].len() as int),
        ),
        us.len() > 1 ==> descriptions::<C, W>(rs[us.len() - 1].reverse())[0] == rs[us.len()
            - 1].last().describe(),
{
    lemma_undo_steps::<C, W>(us, rs, us.len() - 1);
}

/// Executing a command and adding it as already executed record it alike:
/// for the same command as performed, both leave the same session count and
/// the same undo stack.
pub proof fn lemma_execute_matches_add_executed<C, W>(u0: Seq<C>, t0: nat, c: C, u1: Seq<C>, t1: nat, u2: Seq<C>, t2: nat)
    where C: EditorCommand<W>
    requires
        merged_or_recorded::<C, W>(u0, u1, t0, t1, c),
        merged_or_recorded::<C, W>(u0, u2, t0, t2, c),
    ensures
        t1 == t2,
        u1 == u2,
{
    if u0.len() > 0 && u0.last().merges_with(&c) {
        assert(u1 =~= u1.drop_last().push(u1.last()));
        assert(u2 =~= u2.drop_last().push(u2.last()));
    }
}

/// Performing a command that the top command does not accept and then
/// undoing it leaves the undo stack as it was (when the history was not
/// full) and puts on the redo stack just that command.
pub proof fn lemma_execute_then_undo<C, W>(u0: Seq<C>, u1: Seq<C>, t0: nat, t1: nat, c: C, u2: Seq<C>, r2: Seq<C>)
    where C: EditorCommand<W>
    requires
        u0.len() < MAX_HISTORY_SIZE,
        !(u0.len() > 0 && u0.last().merges_with(&c)),
        merged_or_recorded::<C, W>(u0, u1, t0, t1, c),
        moved_top_described::<C, W>(u1, u2, Seq::<C>::empty(), r2),
    ensures
        u2 == u0,
        r2.len() == 1,
        r2[0].describe() == c.describe(),
        t1 == t0 + 1,
{
    assert(u1 =~= u0.push(c));
}

/// The history keys: with Ctrl held, Z alone undoes, Shift+Z and Y redo;
/// without Ctrl nothing happens.
pub proof fn lemma_history_keys(shift: bool, z_pressed: bool, y_pressed: bool)
    ensures
        shortcut_of(true, false, true, y_pressed) == Some(HistoryShortcut::Undo),
        shortcut_of(true, true, true, y_pressed) == Some(HistoryShortcut::Redo),
        shortcut_of(true, shift, false, true) == Some(HistoryShortcut::Redo),
        shortcut_of(true, shift, false, false) is None,
        shortcut_of(false, shift, z_pressed, y_pressed) is None,
{
}

} // verus!
