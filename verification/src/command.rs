//! Actions and commands: what the palette ranks and shows.

use vstd::prelude::*;

verus! {

/// An invocable unit of editor functionality, as the palette sees it.
///
/// The palette never invokes an action itself. It carries `id`, by which the
/// host finds the action again when it is confirmed, and compares `type_id`,
/// which is equal for two actions exactly when they are of the same kind.
#[derive(Debug, PartialEq, Eq)]
pub struct Action {
    /// The host's handle for this action.
    pub id: u64,
    /// The identity of the action's type.
    pub type_id: u64,
    /// The raw, namespaced name, such as `editor::GoToDefinition`.
    pub name: String,
}

/// The mathematical model of an [`Action`].
pub struct ActionView {
    pub id: u64,
    pub type_id: u64,
    pub name: Seq<char>,
}

impl View for Action {
    type V = ActionView;

    open spec fn view(&self) -> ActionView {
        ActionView { id: self.id, type_id: self.type_id, name: self.name@ }
    }
}

impl DeepView for Action {
    type V = ActionView;

    open spec fn deep_view(&self) -> ActionView {
        self@
    }
}

impl Clone for Action {
    fn clone(&self) -> (copy: Self)
        ensures
            copy == *self,
    {
        Action { id: self.id, type_id: self.type_id, name: self.name.clone() }
    }
}

/// A display name paired with the action it stands for: the unit that is
/// ranked and rendered.
#[derive(Debug, PartialEq, Eq)]
pub struct Command {
    /// The text shown in the palette.
    pub name: String,
    /// The action that confirming this command invokes.
    pub action: Action,
}

/// The mathematical model of a [`Command`].
pub struct CommandView {
    pub name: Seq<char>,
    pub action: ActionView,
}

impl View for Command {
    type V = CommandView;

    open spec fn view(&self) -> CommandView {
        CommandView { name: self.name@, action: self.action@ }
    }
}

impl DeepView for Command {
    type V = CommandView;

    open spec fn deep_view(&self) -> CommandView {
        self@
    }
}

impl Clone for Command {
    fn clone(&self) -> (copy: Self)
        ensures
            copy == *self,
    {
        Command { name: self.name.clone(), action: self.action.clone() }
    }
}

} // verus!
