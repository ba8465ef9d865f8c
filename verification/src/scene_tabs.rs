//! Several scenes open at once, one tab each, one of them active.
//!
//! The level data of a scene is held as a value of type `L`; the tab logic
//! never looks inside it.

use vstd::prelude::*;
use vstd::string::*;

verus! {

/// The name a fresh scene tab gets.
pub open spec fn untitled_name() -> Seq<char> {
    seq!['U', 'n', 't', 'i', 't', 'l', 'e', 'd']
}

/// `piece` is a non-empty run of consecutive characters of `path`.
pub open spec fn piece_of(path: Seq<char>, piece: Seq<char>) -> bool {
    &&& piece.len() > 0
    &&& exists|i: int| 0 <= i && i + piece.len() <= path.len() && #[trigger] path.subrange(i, i + piece.len()) == piece
}

/// A file name that is read as one and the same path component on every
/// platform: not empty, not `.` or `..`, and without `/`, `\` or `:`.
pub open spec fn plain_name(name: Seq<char>) -> bool {
    &&& name.len() > 0
    &&& name != seq!['.']
    &&& name != seq!['.', '.']
    &&& forall|i: int| 0 <= i < name.len() ==> name[i] != '/' && name[i] != '\\' && name[i] != ':'
}

/// `path` ends in the plain file name `name` on every platform: it is
/// `name`, or ends in `/` followed by `name`; it holds no `\` or `:` and
/// does not start with `//`.
pub open spec fn path_ends_in(path: Seq<char>, name: Seq<char>) -> bool {
    &&& plain_name(name)
    &&& forall|i: int| 0 <= i < path.len() ==> path[i] != '\\' && path[i] != ':'
    &&& !(path.len() >= 2 && path[0] == '/' && path[1] == '/')
    &&& path.len() >= name.len()
    &&& path.subrange(path.len() - name.len(), path.len() as int) == name
    &&& (path.len() == name.len() || path[path.len() - name.len() - 1] == '/')
}

/// `stem` is the stem of the file name `name`: the whole name when no `.`
/// follows its first character, otherwise the part before its last `.`.
pub open spec fn stem_of(name: Seq<char>, stem: Seq<char>) -> bool {
    ||| (forall|i: int| 0 < i < name.len() ==> name[i] != '.') && stem == name
    ||| exists|k: int|
        0 < k < name.len() && name[k] == '.' && (forall|i: int| k < i < name.len() ==> name[i] != '.') && stem
            == #[trigger] name.subrange(0, k)
}

/// One open scene.
#[derive(Clone)]
pub struct OpenScene<L> {
    pub name: String,
    pub file_path: Option<String>,
    pub level_data: L,
    pub is_modified: bool,
}

impl<L> OpenScene<L> {
    /// A scene that is not saved anywhere yet and has no changes.
    pub fn new(name: String, level_data: L) -> (r: Self)
        ensures
            r.name == name,
            r.file_path is None,
            r.level_data == level_data,
            !r.is_modified,
    {
        OpenScene { name, file_path: None, level_data, is_modified: false }
    }

    /// A scene loaded from the file at `path`, holding `level_data`: named
    /// after the file's stem ("Untitled" when it has none), saved there, and
    /// unchanged.
    pub fn from_file(path: &str, level_data: L) -> (r: Self)
        ensures
            r.name@ == untitled_name() || piece_of(path@, r.name@),
            forall|n: Seq<char>| #[trigger] path_ends_in(path@, n) ==> stem_of(n, r.name@),
            r.file_path matches Some(p) && p@ == path@,
            r.level_data == level_data,
            !r.is_modified,
    {
        let name = scene_name_from_stem(path_file_stem(path));
        OpenScene { name, file_path: Some(String::from_str(path)), level_data, is_modified: false }
    }

    /// Records a successful save to `path`: the scene is saved there, has
    /// no unsaved changes, and takes the file's stem as its name when the
    /// path has one (see `mark_saved_with_stem`).
    pub fn mark_saved_to(&mut self, path: &str)
        ensures
            final(self).name == old(self).name || piece_of(path@, final(self).name@),
            forall|n: Seq<char>| #[trigger] path_ends_in(path@, n) ==> stem_of(n, final(self).name@),
            final(self).file_path matches Some(p) && p@ == path@,
            !final(self).is_modified,
            final(self).level_data == old(self).level_data,
    {
        let stem = path_file_stem(path);
        self.mark_saved_with_stem(path, stem);
    }

    /// Records a successful save to `path`, whose file stem is `stem`: the
    /// scene is saved there, has no unsaved changes, and is renamed to the
    /// stem when there is one.
    pub fn mark_saved_with_stem(&mut self, path: &str, stem: Option<String>)
        ensures
            final(self).file_path matches Some(p) && p@ == path@,
            !final(self).is_modified,
            final(self).level_data == old(self).level_data,
            match stem {
                Some(s) => final(self).name@ == s@,
                None => final(self).name == old(self).name,
            },
    {
        self.file_path = Some(String::from_str(path));
        self.is_modified = false;
        if let Some(s) = stem {
            self.name = s;
        }
    }
}

/// Calls `Path::file_stem` on `path` and turns the stem into a `String`
/// (the stem of a `&str` path is valid Unicode). Which characters separate
/// path components depends on the platform, so only what holds on every
/// platform is stated: a stem is a non-empty part of the path's file name,
/// hence of the path; and when the path ends in a plain file name (see
/// `path_ends_in`), there is a stem and it is that name's stem as
/// `Path::file_stem` documents it (`stem_of`).
#[verifier::external_body]
fn path_file_stem(path: &str) -> (r: Option<String>)
    ensures
        r matches Some(s) ==> piece_of(path@, s@) && forall|n: Seq<char>|
            #[trigger] path_ends_in(path@, n) ==> stem_of(n, s@),
        r is None ==> forall|n: Seq<char>| !#[trigger] path_ends_in(path@, n),
{
    std::path::Path::new(path).file_stem().and_then(|stem| stem.to_str()).map(|stem| stem.to_string())
}

/// The name of a scene loaded from a file with stem `stem`: the stem, or
/// "Untitled" when the path has none.
pub fn scene_name_from_stem(stem: Option<String>) -> (r: String)
    ensures
        match stem {
            Some(s) => r@ == s@,
            None => r@ == untitled_name(),
        },
{
    match stem {
        Some(s) => s,
        None => untitled(),
    }
}

/// `new` is `old` after closing tab `index`: the last remaining tab is
/// reset to an untitled scene holding `untitled_level` instead; otherwise
/// the tab is removed and the active index keeps pointing at the same
/// scene when it can, or else at the last tab.
pub open spec fn scene_closed<L>(old: OpenScenes<L>, new: OpenScenes<L>, index: usize, untitled_level: L) -> bool {
    &&& old.scenes@.len() == 0 ==> new.scenes@ == old.scenes@ && new.active_index == 0
    &&& old.scenes@.len() == 1 ==> {
        &&& new.scenes@.len() == 1
        &&& new.scenes@[0].name@ == untitled_name()
        &&& new.scenes@[0].file_path is None
        &&& new.scenes@[0].level_data == untitled_level
        &&& !new.scenes@[0].is_modified
        &&& new.active_index == 0
    }
    &&& old.scenes@.len() > 1 ==> {
        &&& new.scenes@ == old.scenes@.remove(index as int)
        &&& new.active_index == (if old.active_index >= new.scenes@.len() {
            (new.scenes@.len() - 1) as usize
        } else if old.active_index > index {
            (old.active_index - 1) as usize
        } else {
            old.active_index
        })
    }
}

/// The active index after clicking tab `index`: that tab, when it exists.
pub open spec fn active_after_click<L>(tabs: OpenScenes<L>, index: usize) -> usize {
    if index < tabs.scenes@.len() {
        index
    } else {
        tabs.active_index
    }
}

/// The open scenes, in tab order, and the index of the active one.
pub struct OpenScenes<L> {
    pub scenes: Vec<OpenScene<L>>,
    pub active_index: usize,
}

impl<L> OpenScenes<L> {
    /// One untitled scene holding `level_data`, active.
    pub fn with_untitled(level_data: L) -> (r: Self)
        ensures
            r.scenes@.len() == 1,
            r.scenes@[0].name@ == untitled_name(),
            r.scenes@[0].file_path is None,
            r.scenes@[0].level_data == level_data,
            !r.scenes@[0].is_modified,
            r.active_index == 0,
    {
        let mut scenes: Vec<OpenScene<L>> = Vec::new();
        scenes.push(OpenScene::new(untitled(), level_data));
        OpenScenes { scenes, active_index: 0 }
    }

    /// The active scene, if the active index names one.
    pub fn active_scene(&self) -> (r: Option<&OpenScene<L>>)
        ensures
            r == (if self.active_index < self.scenes@.len() {
                Some(&self.scenes@[self.active_index as int])
            } else {
                None
            }),
    {
        if self.active_index < self.scenes.len() {
            Some(&self.scenes[self.active_index])
        } else {
            None
        }
    }

    /// Whether another scene may be opened: the active scene, if any, has
    /// no unsaved changes.
    pub fn can_open_scene(&self) -> (r: bool)
        ensures
            r == !(self.active_index < self.scenes@.len() && self.scenes@[self.active_index as int].is_modified),
    {
        match self.active_scene() {
            Some(scene) => !scene.is_modified,
            None => true,
        }
    }

    /// The active scene for editing, if the active index names one.
    pub fn active_scene_mut(&mut self) -> (r: Option<&mut OpenScene<L>>)
        ensures
            r is Some <==> old(self).active_index < old(self).scenes@.len(),
            r is None ==> *final(self) == *old(self),
            r matches Some(scene) ==> {
                &&& *scene == old(self).scenes@[old(self).active_index as int]
                &&& final(self).scenes@ == old(self).scenes@.update(old(self).active_index as int, *final(scene))
                &&& final(self).active_index == old(self).active_index
            },
    {
        if self.active_index < self.scenes.len() {
            Some(&mut self.scenes[self.active_index])
        } else {
            None
        }
    }

    /// Opens `scene` in a new last tab and makes it active.
    pub fn add_scene(&mut self, scene: OpenScene<L>)
        requires
            old(self).scenes@.len() < usize::MAX,
        ensures
            final(self).scenes@ == old(self).scenes@.push(scene),
            final(self).active_index == old(self).scenes@.len(),
    {
        self.scenes.push(scene);
        self.active_index = self.scenes.len() - 1;
    }

    /// Closes the tab at `index`. The last remaining tab is not closed but
    /// reset to an untitled scene holding `untitled_level`. The active index
    /// keeps pointing at the same scene when it can, and otherwise at the
    /// last tab.
    pub fn close_scene(&mut self, index: usize, untitled_level: L)
        requires
            old(self).scenes@.len() > 1 ==> index < old(self).scenes@.len(),
        ensures
            scene_closed(*old(self), *final(self), index, untitled_level),
            final(self).scenes@.len() > 0 ==> final(self).active_index < final(self).scenes@.len(),
    {
        if self.scenes.len() <= 1 {
            if self.scenes.len() == 1 {
                self.scenes.set(0, OpenScene::new(untitled(), untitled_level));
            }
            self.active_index = 0;
            return;
        }
        self.scenes.remove(index);
        if self.active_index >= self.scenes.len() {
            self.active_index = self.scenes.len() - 1;
        } else if self.active_index > index {
            self.active_index = self.active_index - 1;
        }
    }

    /// Makes the tab at `index` active, if there is one.
    pub fn set_active(&mut self, index: usize)
        ensures
            final(self).scenes == old(self).scenes,
            final(self).active_index == active_after_click(*old(self), index),
    {
        if index < self.scenes.len() {
            self.active_index = index;
        }
    }

    /// Whether any open scene has unsaved changes.
    pub fn has_unsaved_changes(&self) -> (r: bool)
        ensures
            r == exists|i: int| 0 <= i < self.scenes@.len() && (#[trigger] self.scenes@[i]).is_modified,
    {
        let mut i: usize = 0;
        while i < self.scenes.len()
            invariant
                i <= self.scenes@.len(),
                forall|j: int| 0 <= j < i ==> !(#[trigger] self.scenes@[j]).is_modified,
            decreases self.scenes@.len() - i,
        {
            if self.scenes[i].is_modified {
                return true;
            }
            i = i + 1;
        }
        false
    }
}

/// The name of a fresh scene tab.
fn untitled() -> (r: String)
    ensures
        r@ == untitled_name(),
{
    let name = "Untitled";
    proof {
        reveal_strlit("Untitled");
    }
    String::from_str(name)
}

/// Closing a tab other than the active one, with more than one tab open,
/// leaves the same scene active; a tab before the closed one keeps its
/// index, and the active index stays on a tab.
pub proof fn lemma_close_other_tab_keeps_active<L>(
    old: OpenScenes<L>,
    new: OpenScenes<L>,
    index: usize,
    untitled_level: L,
)
    requires
        scene_closed(old, new, index, untitled_level),
        old.scenes@.len() > 1,
        index < old.scenes@.len(),
        old.active_index < old.scenes@.len(),
        index != old.active_index,
    ensures
        new.scenes@.len() == old.scenes@.len() - 1,
        new.active_index < new.scenes@.len(),
        new.scenes@[new.active_index as int] == old.scenes@[old.active_index as int],
        old.active_index < index ==> new.active_index == old.active_index,
{
}

} // verus!
