//! The values the library works on: desktops kept outside the base storage, and the actions
//! that a command asks for.
use vstd::prelude::*;

verus! {

/// A desktop that lives at a directory of its own choosing instead of under the base storage.
#[derive(Debug, PartialEq, Eq)]
pub struct SpecificDesktop {
    pub name: String,
    pub path: String,
}

impl View for SpecificDesktop {
    /// The name and the path.
    type V = (Seq<char>, Seq<char>);

    open spec fn view(&self) -> (Seq<char>, Seq<char>) {
        (self.name@, self.path@)
    }
}

impl SpecificDesktop {
    pub fn new(name: String, path: String) -> (res: Self)
        ensures
            res@ == (name@, path@),
    {
        Self { name, path }
    }
}

impl Clone for SpecificDesktop {
    fn clone(&self) -> (res: Self)
        ensures
            res@ == self@,
    {
        Self { name: self.name.clone(), path: self.path.clone() }
    }
}

/// What a command asks the handler to do.
#[derive(Debug, PartialEq, Eq)]
pub enum Action {
    ChangeDesk { desk_name: String },
    CreateDesk { desk_name: String },
    RemoveDesk { desk_name: String },
    CreateSpecificDesktop { desk_name: String, path: String },
    CreateBind { bind_name: String, desk_name: String },
    UseBind { bind_name: String },
    RemoveBind { bind_name: String },
    DeskList,
    CommandsList,
    BindsList,
    ClearCommandLine,
    OpenInExplorer { desk_name: String },
    /// Commands separated by ';' that run when the program starts with the system.
    AddToAutoStart { commands: String },
    RemoveFromAutoStart,
}

/// An `Action` with its texts as character sequences.
pub enum ActionModel {
    ChangeDesk { desk_name: Seq<char> },
    CreateDesk { desk_name: Seq<char> },
    RemoveDesk { desk_name: Seq<char> },
    CreateSpecificDesktop { desk_name: Seq<char>, path: Seq<char> },
    CreateBind { bind_name: Seq<char>, desk_name: Seq<char> },
    UseBind { bind_name: Seq<char> },
    RemoveBind { bind_name: Seq<char> },
    DeskList,
    CommandsList,
    BindsList,
    ClearCommandLine,
    OpenInExplorer { desk_name: Seq<char> },
    AddToAutoStart { commands: Seq<char> },
    RemoveFromAutoStart,
}

impl View for Action {
    type V = ActionModel;

    open spec fn view(&self) -> ActionModel {
        match self {
            Action::ChangeDesk { desk_name } => ActionModel::ChangeDesk { desk_name: desk_name@ },
            Action::CreateDesk { desk_name } => ActionModel::CreateDesk { desk_name: desk_name@ },
            Action::RemoveDesk { desk_name } => ActionModel::RemoveDesk { desk_name: desk_name@ },
            Action::CreateSpecificDesktop { desk_name, path } => ActionModel::CreateSpecificDesktop {
                desk_name: desk_name@,
                path: path@,
            },
            Action::CreateBind { bind_name, desk_name } => ActionModel::CreateBind {
                bind_name: bind_name@,
                desk_name: desk_name@,
            },
            Action::UseBind { bind_name } => ActionModel::UseBind { bind_name: bind_name@ },
            Action::RemoveBind { bind_name } => ActionModel::RemoveBind { bind_name: bind_name@ },
            Action::DeskList => ActionModel::DeskList,
            Action::CommandsList => ActionModel::CommandsList,
            Action::BindsList => ActionModel::BindsList,
            Action::ClearCommandLine => ActionModel::ClearCommandLine,
            Action::OpenInExplorer { desk_name } => ActionModel::OpenInExplorer {
                desk_name: desk_name@,
            },
            Action::AddToAutoStart { commands } => ActionModel::AddToAutoStart { commands: commands@ },
            Action::RemoveFromAutoStart => ActionModel::RemoveFromAutoStart,
        }
    }
}

} // verus!
