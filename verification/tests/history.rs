use eryndor::editor_history::{
    handle_undo_redo_shortcuts, history_shortcut, EditorCommand, EditorHistory, HistoryShortcut, MAX_HISTORY_SIZE,
};

/// Appends a value to the world.
struct Push(i32);

impl EditorCommand<Vec<i32>> for Push {
    fn execute(&mut self, world: &mut Vec<i32>) {
        world.push(self.0);
    }

    fn undo(&mut self, world: &mut Vec<i32>) {
        world.pop();
    }

    fn description(&self) -> String {
        format!("Push {}", self.0)
    }

    fn can_merge_with(&self, _other: &Self) -> bool {
        false
    }

    fn merge(&mut self, _other: Self) {}
}

/// Moves the world's single value; consecutive moves merge.
struct Drag(i32);

impl EditorCommand<i32> for Drag {
    fn execute(&mut self, world: &mut i32) {
        *world += self.0;
    }

    fn undo(&mut self, world: &mut i32) {
        *world -= self.0;
    }

    fn description(&self) -> String {
        format!("Drag by {}", self.0)
    }

    fn can_merge_with(&self, _other: &Self) -> bool {
        true
    }

    fn merge(&mut self, other: Self) {
        self.0 += other.0;
    }
}

#[test]
fn execute_undo_redo_round_trip() {
    let mut history: EditorHistory<Push> = EditorHistory::new();
    let mut world = Vec::new();
    assert!(!history.can_undo());
    assert!(!history.can_redo());
    history.execute(Push(1), &mut world);
    history.execute(Push(2), &mut world);
    assert_eq!(world, vec![1, 2]);
    assert_eq!(history.undo_description::<Vec<i32>>(), Some("Push 2".to_string()));
    assert!(history.undo(&mut world));
    assert_eq!(world, vec![1]);
    assert!(history.can_redo());
    assert_eq!(history.redo_description::<Vec<i32>>(), Some("Push 2".to_string()));
    assert!(history.redo(&mut world));
    assert_eq!(world, vec![1, 2]);
    assert!(!history.can_redo());
}

#[test]
fn undo_then_redo_restores_both_stacks() {
    let mut history: EditorHistory<Push> = EditorHistory::default();
    let mut world = Vec::new();
    history.execute(Push(1), &mut world);
    history.execute(Push(2), &mut world);
    let before = (history.get_undo_history::<Vec<i32>>(), history.get_redo_history::<Vec<i32>>());
    history.undo(&mut world);
    history.redo(&mut world);
    let after = (history.get_undo_history::<Vec<i32>>(), history.get_redo_history::<Vec<i32>>());
    assert_eq!(before, after);
    assert_eq!(world, vec![1, 2]);
}

#[test]
fn redo_then_undo_restores_both_stacks() {
    let mut history: EditorHistory<Push> = EditorHistory::new();
    let mut world = Vec::new();
    history.execute(Push(1), &mut world);
    history.execute(Push(2), &mut world);
    history.undo(&mut world);
    let before = (history.get_undo_history::<Vec<i32>>(), history.get_redo_history::<Vec<i32>>());
    history.redo(&mut world);
    history.undo(&mut world);
    let after = (history.get_undo_history::<Vec<i32>>(), history.get_redo_history::<Vec<i32>>());
    assert_eq!(before, after);
    assert_eq!(world, vec![1]);
}

#[test]
fn undo_and_redo_on_empty_stacks_return_false() {
    let mut history: EditorHistory<Push> = EditorHistory::new();
    let mut world = vec![7];
    assert!(!history.undo(&mut world));
    assert!(!history.redo(&mut world));
    assert_eq!(world, vec![7]);
    assert_eq!(history.undo_description::<Vec<i32>>(), None);
    assert_eq!(history.redo_description::<Vec<i32>>(), None);
}

#[test]
fn new_command_clears_redo_stack() {
    let mut history: EditorHistory<Push> = EditorHistory::new();
    let mut world = Vec::new();
    history.execute(Push(1), &mut world);
    history.undo(&mut world);
    assert!(history.can_redo());
    history.execute(Push(3), &mut world);
    assert!(!history.can_redo());
    assert_eq!(world, vec![3]);
}

#[test]
fn history_lists_in_order() {
    let mut history: EditorHistory<Push> = EditorHistory::new();
    let mut world = Vec::new();
    for v in 1..=4 {
        history.execute(Push(v), &mut world);
    }
    history.undo(&mut world);
    history.undo(&mut world);
    assert_eq!(history.get_undo_history::<Vec<i32>>(), vec!["Push 1".to_string(), "Push 2".to_string()]);
    assert_eq!(history.get_redo_history::<Vec<i32>>(), vec!["Push 3".to_string(), "Push 4".to_string()]);
    let stats = history.stats();
    assert_eq!((stats.undo_count, stats.redo_count, stats.total_commands), (2, 2, 4));
}

#[test]
fn history_keeps_at_most_the_newest_commands() {
    let mut history: EditorHistory<Push> = EditorHistory::new();
    let mut world = Vec::new();
    let n = MAX_HISTORY_SIZE as i32 + 5;
    for v in 0..n {
        history.execute(Push(v), &mut world);
    }
    let stats = history.stats();
    assert_eq!(stats.undo_count, MAX_HISTORY_SIZE);
    assert_eq!(stats.total_commands, n as usize);
    assert_eq!(history.get_undo_history::<Vec<i32>>()[0], "Push 5");
    while history.undo(&mut world) {}
    assert_eq!(world, vec![0, 1, 2, 3, 4]);
}

#[test]
fn add_executed_records_without_running() {
    let mut history: EditorHistory<Push> = EditorHistory::new();
    let mut world = vec![8];
    history.add_executed::<Vec<i32>>(Push(8));
    assert_eq!(world, vec![8]);
    assert!(history.undo(&mut world));
    assert!(world.is_empty());
}

#[test]
fn mergeable_commands_fold_into_one() {
    let mut history: EditorHistory<Drag> = EditorHistory::new();
    let mut world = 0;
    history.execute(Drag(2), &mut world);
    history.execute(Drag(3), &mut world);
    assert_eq!(world, 5);
    let stats = history.stats();
    assert_eq!((stats.undo_count, stats.total_commands), (1, 1));
    assert_eq!(history.undo_description::<i32>(), Some("Drag by 5".to_string()));
    history.undo(&mut world);
    assert_eq!(world, 0);
}

#[test]
fn clear_empties_both_stacks() {
    let mut history: EditorHistory<Push> = EditorHistory::new();
    let mut world = Vec::new();
    history.execute(Push(1), &mut world);
    history.execute(Push(2), &mut world);
    history.undo(&mut world);
    history.clear();
    assert!(!history.can_undo());
    assert!(!history.can_redo());
    assert_eq!(history.stats().total_commands, 2);
}

#[test]
fn shortcut_keys() {
    assert_eq!(history_shortcut(true, false, true, false), Some(HistoryShortcut::Undo));
    assert_eq!(history_shortcut(true, true, true, false), Some(HistoryShortcut::Redo));
    assert_eq!(history_shortcut(true, false, false, true), Some(HistoryShortcut::Redo));
    assert_eq!(history_shortcut(false, false, true, false), None);
    assert_eq!(history_shortcut(true, false, false, false), None);
}

#[test]
fn shortcuts_undo_and_redo() {
    let mut history: EditorHistory<Push> = EditorHistory::new();
    let mut world = Vec::new();
    history.execute(Push(1), &mut world);
    handle_undo_redo_shortcuts(&mut history, &mut world, true, false, true, false);
    assert!(world.is_empty());
    handle_undo_redo_shortcuts(&mut history, &mut world, true, false, false, true);
    assert_eq!(world, vec![1]);
    handle_undo_redo_shortcuts(&mut history, &mut world, false, false, true, false);
    assert_eq!(world, vec![1]);
}

#[test]
fn add_executed_merges_like_execute() {
    let mut history: EditorHistory<Drag> = EditorHistory::new();
    let mut world = 0;
    history.execute(Drag(2), &mut world);
    history.add_executed::<i32>(Drag(3));
    assert_eq!(world, 2);
    let stats = history.stats();
    assert_eq!((stats.undo_count, stats.redo_count, stats.total_commands), (1, 0, 1));
    assert_eq!(history.undo_description::<i32>(), Some("Drag by 5".to_string()));
    let mut pushes: EditorHistory<Push> = EditorHistory::new();
    pushes.add_executed::<Vec<i32>>(Push(1));
    pushes.add_executed::<Vec<i32>>(Push(2));
    let stats = pushes.stats();
    assert_eq!((stats.undo_count, stats.total_commands), (2, 2));
    assert_eq!(pushes.get_undo_history::<Vec<i32>>(), vec!["Push 1".to_string(), "Push 2".to_string()]);
}

#[test]
fn execute_then_undo_leaves_undo_history_and_one_redo() {
    let mut history: EditorHistory<Push> = EditorHistory::new();
    let mut world = Vec::new();
    history.execute(Push(1), &mut world);
    let before = history.get_undo_history::<Vec<i32>>();
    let total = history.stats().total_commands;
    history.execute(Push(2), &mut world);
    assert_eq!(history.stats().total_commands, total + 1);
    assert!(history.undo(&mut world));
    assert_eq!(history.get_undo_history::<Vec<i32>>(), before);
    assert_eq!(history.get_redo_history::<Vec<i32>>(), vec!["Push 2".to_string()]);
    assert_eq!(world, vec![1]);
}
