//! The edited scene's selection and saved state, and what the scene tree
//! commands do to it. Entities are named by their 64-bit ids.

use vstd::prelude::*;

verus! {

/// The scene being edited.
pub struct EditorScene {
    /// Root entity that scene entities are parented to.
    pub root_entity: Option<u64>,
    /// Entity selected in the scene tree.
    pub selected_entity: Option<u64>,
    /// Whether the scene has unsaved changes.
    pub is_modified: bool,
}

impl EditorScene {
    /// A fresh scene rooted at `root_entity`, nothing selected, unmodified.
    pub fn new(root_entity: u64) -> (r: Self)
        ensures
            r.root_entity == Some(root_entity),
            r.selected_entity is None,
            !r.is_modified,
    {
        EditorScene { root_entity: Some(root_entity), selected_entity: None, is_modified: false }
    }

    /// Selects `entity`.
    pub fn select_entity(&mut self, entity: u64)
        ensures
            final(self).selected_entity == Some(entity),
            final(self).root_entity == old(self).root_entity,
            final(self).is_modified == old(self).is_modified,
    {
        self.selected_entity = Some(entity);
    }

    /// Clears the selection.
    pub fn clear_selection(&mut self)
        ensures
            final(self).selected_entity is None,
            final(self).root_entity == old(self).root_entity,
            final(self).is_modified == old(self).is_modified,
    {
        self.selected_entity = None;
    }

    /// Whether `entity` is the selected one.
    pub fn is_selected(&self, entity: u64) -> (r: bool)
        ensures
            r == (self.selected_entity == Some(entity)),
    {
        match self.selected_entity {
            Some(e) => e == entity,
            None => false,
        }
    }

    /// Marks the scene as having unsaved changes.
    pub fn mark_modified(&mut self)
        ensures
            final(self).is_modified,
            final(self).root_entity == old(self).root_entity,
            final(self).selected_entity == old(self).selected_entity,
    {
        self.is_modified = true;
    }

    /// Marks the scene as saved.
    pub fn mark_saved(&mut self)
        ensures
            !final(self).is_modified,
            final(self).root_entity == old(self).root_entity,
            final(self).selected_entity == old(self).selected_entity,
    {
        self.is_modified = false;
    }
}

impl Default for EditorScene {
    fn default() -> (r: Self)
        ensures
            r.root_entity is None,
            r.selected_entity is None,
            !r.is_modified,
    {
        EditorScene { root_entity: None, selected_entity: None, is_modified: false }
    }
}

/// Requests made from the scene tree panel.
pub enum SceneTreeCommand {
    AddEntity { parent: Option<u64> },
    DeleteEntity { entity: u64 },
    RenameEntity { entity: u64, new_name: String },
    ReparentEntity { entity: u64, new_parent: Option<u64> },
}

/// What the entity world has to do for a scene tree command.
pub enum SceneTreeAction {
    /// Parent the newly spawned entity to `parent`, if any.
    SetParentOfNew { parent: Option<u64> },
    /// Despawn `entity` and its descendants.
    DespawnRecursive { entity: u64 },
    /// Give `entity` the name `name`.
    Rename { entity: u64, name: String },
    /// Parent `entity` to `parent`, or detach it when there is none.
    Reparent { entity: u64, parent: Option<u64> },
}

impl EditorScene {
    /// Applies a scene tree command to the scene and says what the entity
    /// world must do. `spawned` is the entity created for an `AddEntity`
    /// command (it is given the root as parent when the command names no
    /// parent) and is selected. Deleting clears the selection. Every
    /// command marks the scene modified.
    pub fn apply_tree_command(&mut self, command: SceneTreeCommand, spawned: u64) -> (action: SceneTreeAction)
        ensures
            final(self).is_modified,
            final(self).root_entity == old(self).root_entity,
            match command {
                SceneTreeCommand::AddEntity { parent } => {
                    &&& final(self).selected_entity == Some(spawned)
                    &&& action == SceneTreeAction::SetParentOfNew {
                        parent: if parent is Some {
                            parent
                        } else {
                            old(self).root_entity
                        },
                    }
                },
                SceneTreeCommand::DeleteEntity { entity } => {
                    &&& final(self).selected_entity is None
                    &&& action == SceneTreeAction::DespawnRecursive { entity }
                },
                SceneTreeCommand::RenameEntity { entity, new_name } => {
                    &&& final(self).selected_entity == old(self).selected_entity
                    &&& action == SceneTreeAction::Rename { entity, name: new_name }
                },
                SceneTreeCommand::ReparentEntity { entity, new_parent } => {
                    &&& final(self).selected_entity == old(self).selected_entity
                    &&& action == SceneTreeAction::Reparent { entity, parent: new_parent }
                },
            },
    {
        let action = match command {
            SceneTreeCommand::AddEntity { parent } => {
                let parent = match parent {
                    Some(p) => Some(p),
                    None => self.root_entity,
                };
                self.select_entity(spawned);
                SceneTreeAction::SetParentOfNew { parent }
            },
            SceneTreeCommand::DeleteEntity { entity } => {
                self.clear_selection();
                SceneTreeAction::DespawnRecursive { entity }
            },
            SceneTreeCommand::RenameEntity { entity, new_name } => {
                SceneTreeAction::Rename { entity, name: new_name }
            },
            SceneTreeCommand::ReparentEntity { entity, new_parent } => {
                SceneTreeAction::Reparent { entity, parent: new_parent }
            },
        };
        self.mark_modified();
        action
    }
}

} // verus!
