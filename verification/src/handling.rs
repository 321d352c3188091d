//! A command being carried out: what the handler waits for, what it asks the outside world to
//! do, and what the outside world answers.
use vstd::prelude::*;
use crate::text::views;

verus! {

/// Work that only the outside world can do: the file system, the registry, processes, the console.
#[derive(Debug, PartialEq, Eq)]
pub enum Effect {
    /// Make the directory `path` the desktop; fails with "No such desktop" if it is no directory.
    SetDesktop { path: String },
    /// Restart the shell so that the new desktop shows.
    RestartExplorer,
    /// Create the directory of a new common desktop under the base path.
    CreateCommonDesktop { desk_name: String },
    /// Write the file of specific desktops.
    SaveSpecificDesktops { contents: String },
    /// Write the binds file.
    SaveBinds { contents: String },
    /// Delete a desktop directory with everything in it.
    RemoveDesktop { path: String },
    /// Print the common desktops, the directories under the desktops path.
    ListCommonDesktops,
    /// Print a text.
    Print { text: String },
    /// Clear the console.
    ClearScreen,
    /// Open a directory in the file explorer.
    OpenInExplorer { path: String },
    /// Register the program to start with the system, running `commands`.
    AddToAutoStart { commands: String },
    /// Unregister the program from starting with the system.
    RemoveFromAutoStart,
}

pub enum EffectModel {
    SetDesktop { path: Seq<char> },
    RestartExplorer,
    CreateCommonDesktop { desk_name: Seq<char> },
    SaveSpecificDesktops { contents: Seq<char> },
    SaveBinds { contents: Seq<char> },
    RemoveDesktop { path: Seq<char> },
    ListCommonDesktops,
    Print { text: Seq<char> },
    ClearScreen,
    OpenInExplorer { path: Seq<char> },
    AddToAutoStart { commands: Seq<char> },
    RemoveFromAutoStart,
}

impl View for Effect {
    type V = EffectModel;

    open spec fn view(&self) -> EffectModel {
        match self {
            Effect::SetDesktop { path } => EffectModel::SetDesktop { path: path@ },
            Effect::RestartExplorer => EffectModel::RestartExplorer,
            Effect::CreateCommonDesktop { desk_name } => EffectModel::CreateCommonDesktop {
                desk_name: desk_name@,
            },
            Effect::SaveSpecificDesktops { contents } => EffectModel::SaveSpecificDesktops {
                contents: contents@,
            },
            Effect::SaveBinds { contents } => EffectModel::SaveBinds { contents: contents@ },
            Effect::RemoveDesktop { path } => EffectModel::RemoveDesktop { path: path@ },
            Effect::ListCommonDesktops => EffectModel::ListCommonDesktops,
            Effect::Print { text } => EffectModel::Print { text: text@ },
            Effect::ClearScreen => EffectModel::ClearScreen,
            Effect::OpenInExplorer { path } => EffectModel::OpenInExplorer { path: path@ },
            Effect::AddToAutoStart { commands } => EffectModel::AddToAutoStart { commands: commands@ },
            Effect::RemoveFromAutoStart => EffectModel::RemoveFromAutoStart,
        }
    }
}

impl Clone for Effect {
    fn clone(&self) -> (res: Self)
        ensures
            res@ == self@,
    {
        match self {
            Effect::SetDesktop { path } => Effect::SetDesktop { path: path.clone() },
            Effect::RestartExplorer => Effect::RestartExplorer,
            Effect::CreateCommonDesktop { desk_name } => Effect::CreateCommonDesktop {
                desk_name: desk_name.clone(),
            },
            Effect::SaveSpecificDesktops { contents } => Effect::SaveSpecificDesktops {
                contents: contents.clone(),
            },
            Effect::SaveBinds { contents } => Effect::SaveBinds { contents: contents.clone() },
            Effect::RemoveDesktop { path } => Effect::RemoveDesktop { path: path.clone() },
            Effect::ListCommonDesktops => Effect::ListCommonDesktops,
            Effect::Print { text } => Effect::Print { text: text.clone() },
            Effect::ClearScreen => Effect::ClearScreen,
            Effect::OpenInExplorer { path } => Effect::OpenInExplorer { path: path.clone() },
            Effect::AddToAutoStart { commands } => Effect::AddToAutoStart {
                commands: commands.clone(),
            },
            Effect::RemoveFromAutoStart => Effect::RemoveFromAutoStart,
        }
    }
}

/// What follows once a run of effects has completed.
#[derive(Debug, PartialEq, Eq)]
pub enum Then {
    /// The command is done.
    Finish,
    /// The current desktop has been moved away from `desk_name`; go on removing it.
    RemoveDesk { desk_name: String },
}

pub enum ThenModel {
    Finish,
    RemoveDesk { desk_name: Seq<char> },
}

impl View for Then {
    type V = ThenModel;

    open spec fn view(&self) -> ThenModel {
        match self {
            Then::Finish => ThenModel::Finish,
            Then::RemoveDesk { desk_name } => ThenModel::RemoveDesk { desk_name: desk_name@ },
        }
    }
}

/// A command in the middle of being carried out.
#[derive(Debug, PartialEq, Eq)]
pub enum Handling {
    /// Done, with this outcome.
    Finished { result: Result<(), String> },
    /// Changing to `desk_name`, which is no specific desktop: waiting for the common desktops.
    AwaitCommonForChange { desk_name: String, then: Then },
    /// Removing `desk_name`: waiting for the name of the current desktop.
    AwaitCurrentForRemove { desk_name: String },
    /// Removing `desk_name`, which is no specific desktop: waiting for the common desktops.
    AwaitCommonForRemove { desk_name: String },
    /// Creating a specific desktop: waiting to learn whether `path` is a directory.
    AwaitDirForSpecific { desk_name: String, path: String },
    /// Binding to `desk_name`, which is no specific desktop: waiting for the common desktops.
    AwaitCommonForBind { bind_name: String, desk_name: String },
    /// Opening `desk_name`: waiting for the common desktops.
    AwaitCommonForOpen { desk_name: String },
    /// Carrying out `effects` in order; `effects[next]` is under way.
    Running { effects: Vec<Effect>, next: usize, then: Then },
}

pub enum HandlingModel {
    Finished { result: Result<(), Seq<char>> },
    AwaitCommonForChange { desk_name: Seq<char>, then: ThenModel },
    AwaitCurrentForRemove { desk_name: Seq<char> },
    AwaitCommonForRemove { desk_name: Seq<char> },
    AwaitDirForSpecific { desk_name: Seq<char>, path: Seq<char> },
    AwaitCommonForBind { bind_name: Seq<char>, desk_name: Seq<char> },
    AwaitCommonForOpen { desk_name: Seq<char> },
    Running { effects: Seq<EffectModel>, next: int, then: ThenModel },
}

pub open spec fn effect_views(e: Seq<Effect>) -> Seq<EffectModel> {
    e.map_values(|x: Effect| x@)
}

pub open spec fn outcome_view(r: Result<(), String>) -> Result<(), Seq<char>> {
    match r {
        Ok(()) => Ok(()),
        Err(e) => Err(e@),
    }
}

impl View for Handling {
    type V = HandlingModel;

    open spec fn view(&self) -> HandlingModel {
        match self {
            Handling::Finished { result } => HandlingModel::Finished { result: outcome_view(*result) },
            Handling::AwaitCommonForChange { desk_name, then } => HandlingModel::AwaitCommonForChange {
                desk_name: desk_name@,
                then: then@,
            },
            Handling::AwaitCurrentForRemove { desk_name } => HandlingModel::AwaitCurrentForRemove {
                desk_name: desk_name@,
            },
            Handling::AwaitCommonForRemove { desk_name } => HandlingModel::AwaitCommonForRemove {
                desk_name: desk_name@,
            },
            Handling::AwaitDirForSpecific { desk_name, path } => HandlingModel::AwaitDirForSpecific {
                desk_name: desk_name@,
                path: path@,
            },
            Handling::AwaitCommonForBind { bind_name, desk_name } => HandlingModel::AwaitCommonForBind {
                bind_name: bind_name@,
                desk_name: desk_name@,
            },
            Handling::AwaitCommonForOpen { desk_name } => HandlingModel::AwaitCommonForOpen {
                desk_name: desk_name@,
            },
            Handling::Running { effects, next, then } => HandlingModel::Running {
                effects: effect_views(effects@),
                next: *next as int,
                then: then@,
            },
        }
    }
}

/// What the outside world answers to a request.
#[derive(Debug, PartialEq, Eq)]
pub enum Reply {
    /// The names of the entries in the desktops directory.
    CommonDesktops { names: Vec<String> },
    /// The name of the current desktop, or why it could not be read.
    CurrentDesktop { name: Result<String, String> },
    /// Whether the path asked about is a directory.
    IsDirectory { answer: bool },
    /// The outcome of the effect that was under way.
    Performed { result: Result<(), String> },
}

pub enum ReplyModel {
    CommonDesktops { names: Seq<Seq<char>> },
    CurrentDesktop { name: Result<Seq<char>, Seq<char>> },
    IsDirectory { answer: bool },
    Performed { result: Result<(), Seq<char>> },
}

impl View for Reply {
    type V = ReplyModel;

    open spec fn view(&self) -> ReplyModel {
        match self {
            Reply::CommonDesktops { names } => ReplyModel::CommonDesktops { names: views(names@) },
            Reply::CurrentDesktop { name } => ReplyModel::CurrentDesktop {
                name: match name {
                    Ok(n) => Ok(n@),
                    Err(e) => Err(e@),
                },
            },
            Reply::IsDirectory { answer } => ReplyModel::IsDirectory { answer: *answer },
            Reply::Performed { result } => ReplyModel::Performed { result: outcome_view(*result) },
        }
    }
}

/// What the handler asks of the outside world next.
#[derive(Debug, PartialEq, Eq)]
pub enum Request {
    /// List the entry names of the desktops directory.
    ListCommonDesktops,
    /// Read the name of the current desktop.
    CurrentDesktop,
    /// Tell whether `path` is a directory.
    IsDirectory { path: String },
    /// Carry out `effect` and report its outcome.
    Perform { effect: Effect },
    /// Nothing: the command is done with this outcome.
    Done { result: Result<(), String> },
}

/// Whether `reply` answers what `handling` waits for.
pub open spec fn accepts(handling: HandlingModel, reply: ReplyModel) -> bool {
    match handling {
        HandlingModel::Finished { .. } => false,
        HandlingModel::AwaitCurrentForRemove { .. } => reply is CurrentDesktop,
        HandlingModel::AwaitDirForSpecific { .. } => reply is IsDirectory,
        HandlingModel::Running { effects, next, .. } => reply is Performed && 0 <= next
            < effects.len(),
        _ => reply is CommonDesktops,
    }
}

/// The request that matches what `handling` waits for.
pub open spec fn request_of(handling: HandlingModel, request: Request) -> bool {
    match handling {
        HandlingModel::Finished { result } => request matches Request::Done { result: r } && outcome_view(r) == result,
        HandlingModel::AwaitCurrentForRemove { .. } => request is CurrentDesktop,
        HandlingModel::AwaitDirForSpecific { path, .. } => request matches Request::IsDirectory { path: p } && p@ == path,
        HandlingModel::Running { effects, next, .. } => request matches Request::Perform { effect } && effect@ == effects[next],
        _ => request is ListCommonDesktops,
    }
}

fn copy_outcome(r: &Result<(), String>) -> (res: Result<(), String>)
    ensures
        outcome_view(res) == outcome_view(*r),
{
    match r {
        Ok(()) => Ok(()),
        Err(e) => Err(e.clone()),
    }
}

impl Handling {
    /// Whether this is a handling that is waiting for something.
    pub open spec fn well_formed(&self) -> bool {
        match self@ {
            HandlingModel::Running { effects, next, .. } => 0 <= next < effects.len(),
            _ => true,
        }
    }

    /// What the handler asks for next.
    pub fn request(&self) -> (res: Request)
        requires
            self.well_formed(),
        ensures
            request_of(self@, res),
    {
        match self {
            Handling::Finished { result } => Request::Done { result: copy_outcome(result) },
            Handling::AwaitCurrentForRemove { .. } => Request::CurrentDesktop,
            Handling::AwaitDirForSpecific { path, .. } => Request::IsDirectory { path: path.clone() },
            Handling::Running { effects, next, .. } => {
                let effect = effects[*next].clone();
                assert(effect_views(effects@)[*next as int] == effects@[*next as int]@);
                Request::Perform { effect }
            },
            _ => Request::ListCommonDesktops,
        }
    }

    /// Whether `reply` answers what this handling waits for.
    pub fn accepts(&self, reply: &Reply) -> (b: bool)
        ensures
            b == accepts(self@, reply@),
    {
        match self {
            Handling::Finished { .. } => false,
            Handling::AwaitCurrentForRemove { .. } => matches!(reply, Reply::CurrentDesktop { .. }),
            Handling::AwaitDirForSpecific { .. } => matches!(reply, Reply::IsDirectory { .. }),
            Handling::Running { effects, next, .. } => matches!(reply, Reply::Performed { .. }) && *next
                < effects.len(),
            _ => matches!(reply, Reply::CommonDesktops { .. }),
        }
    }

    /// Whether the command is done.
    pub fn is_finished(&self) -> (b: bool)
        ensures
            b == (self@ is Finished),
    {
        matches!(self, Handling::Finished { .. })
    }
}

} // verus!
