//! The command language and the handler that carries commands out.
use vstd::prelude::*;
use crate::model::{Action, ActionModel, SpecificDesktop};
use crate::text::{chars_of, join_with, joined, split_words, views, words, Spacing};
use crate::data_manager::{
    bind_views, binds_file_contents, binds_text, desk_views, desktops_text,
    specific_desktops_file_contents,
};
use crate::handling::{
    accepts, effect_views, outcome_view, Effect, EffectModel, Handling, HandlingModel, Reply,
    ReplyModel, Then, ThenModel,
};
use crate::logic::{
    allocate_new_specific_desktop, change_common_desktop, change_specific_desktop,
    common_desktop_dir, desktops_dir, first_named, get_common_desktop, get_specific_desktop,
    lemma_first_named, lemma_first_named_at, remove_common_desktop,
};
use crate::platform::{join_path, path_joined, paths_equal, same_path};

verus! {

/// The single argument of a command that takes one, or the error a wrong count gives.
pub open spec fn one_argument(args: Seq<Seq<char>>, missing: Seq<char>) -> Result<Seq<char>, Seq<char>> {
    if args.len() == 0 {
        Err(missing)
    } else if args.len() > 1 {
        Err("Too many arguments"@)
    } else {
        Ok(args[0])
    }
}

/// The action that the words `w` of a command line ask for, or the reason they ask for none:
/// the first word names the command, the others are its arguments; a first word that names
/// no command names a bind.
pub open spec fn command_of_words(w: Seq<Seq<char>>) -> Result<ActionModel, Seq<char>>
    recommends
        w.len() > 0,
{
    let name = w[0];
    let args = w.drop_first();
    if name == "change_desk"@ || name == "cd"@ {
        match one_argument(args, "There should be one more argument"@) {
            Ok(d) => Ok(ActionModel::ChangeDesk { desk_name: d }),
            Err(e) => Err(e),
        }
    } else if name == "create_desk"@ {
        match one_argument(args, "Too few arguments"@) {
            Ok(d) => Ok(ActionModel::CreateDesk { desk_name: d }),
            Err(e) => Err(e),
        }
    } else if name == "create_specific_desk"@ {
        if args.len() == 0 {
            Err("Too few arguments"@)
        } else {
            Ok(
                ActionModel::CreateSpecificDesktop {
                    desk_name: args[0],
                    path: joined(args.drop_first(), " "@),
                },
            )
        }
    } else if name == "remove_desk"@ {
        match one_argument(args, "Too few arguments"@) {
            Ok(d) => Ok(ActionModel::RemoveDesk { desk_name: d }),
            Err(e) => Err(e),
        }
    } else if name == "bind"@ {
        if args.len() < 2 {
            Err("Too few arguments"@)
        } else if args.len() > 2 {
            Err("Too many arguments"@)
        } else {
            Ok(ActionModel::CreateBind { bind_name: args[0], desk_name: args[1] })
        }
    } else if name == "unbind"@ {
        match one_argument(args, "Too few arguments"@) {
            Ok(b) => Ok(ActionModel::RemoveBind { bind_name: b }),
            Err(e) => Err(e),
        }
    } else if name == "desk_list"@ || name == "dl"@ {
        Ok(ActionModel::DeskList)
    } else if name == "binds_list"@ || name == "bind_list"@ || name == "bl"@ {
        Ok(ActionModel::BindsList)
    } else if name == "clear"@ {
        Ok(ActionModel::ClearCommandLine)
    } else if name == "help"@ {
        Ok(ActionModel::CommandsList)
    } else if name == "open"@ {
        match one_argument(args, "Too few arguments"@) {
            Ok(d) => Ok(ActionModel::OpenInExplorer { desk_name: d }),
            Err(e) => Err(e),
        }
    } else if name == "add_to_autostart"@ {
        Ok(ActionModel::AddToAutoStart { commands: joined(args, " "@) })
    } else if name == "remove_from_autostart"@ {
        Ok(ActionModel::RemoveFromAutoStart)
    } else {
        Ok(ActionModel::UseBind { bind_name: name })
    }
}

/// The action that a command line asks for, or the reason it asks for none.
/// Words are separated by ASCII whitespace.
pub open spec fn parsed_action(command: Seq<char>) -> Result<ActionModel, Seq<char>> {
    let w = words(command, Spacing::Ascii);
    if command.len() == 0 {
        Err("No command"@)
    } else if w.len() == 0 {
        Err("There should be at least one word"@)
    } else {
        command_of_words(w)
    }
}

/// Whether `w` is the text `lit`.
fn is_word(w: &String, lit: &str) -> (b: bool)
    ensures
        b == (w@ == lit@),
{
    *w == lit.to_owned()
}

/// The one argument in `args[1..]`, or the error for a missing or a surplus argument.
fn single_argument(args: &Vec<String>, missing: &str) -> (res: Result<String, String>)
    requires
        args@.len() >= 1,
    ensures
        match res {
            Ok(a) => one_argument(views(args@).drop_first(), missing@) == Ok::<Seq<char>, Seq<char>>(a@),
            Err(e) => one_argument(views(args@).drop_first(), missing@) == Err::<Seq<char>, Seq<char>>(e@),
        },
{
    if args.len() < 2 {
        Err(missing.to_owned())
    } else if args.len() > 2 {
        Err("Too many arguments".to_owned())
    } else {
        Ok(args[1].clone())
    }
}

/// `args[from..]` joined with single spaces.
fn joined_from(args: &Vec<String>, from: usize) -> (res: String)
    requires
        from <= args@.len(),
    ensures
        res@ == joined(views(args@).subrange(from as int, args@.len() as int), " "@),
{
    let mut rest: Vec<String> = Vec::new();
    let mut i: usize = from;
    while i < args.len()
        invariant
            from <= i <= args@.len(),
            views(rest@) == views(args@).subrange(from as int, i as int),
        decreases args@.len() - i,
    {
        let ghost prev = views(rest@);
        rest.push(args[i].clone());
        assert(views(rest@) =~= prev.push(args@[i as int]@));
        assert(views(args@).subrange(from as int, i + 1) =~= views(args@).subrange(
            from as int,
            i as int,
        ).push(args@[i as int]@));
        i = i + 1;
    }
    join_with(rest.as_slice(), " ")
}

/// The action that `command` asks for; see `parsed_action`.
pub fn parse_action(command: &str) -> (res: Result<Action, String>)
    ensures
        match res {
            Ok(a) => parsed_action(command@) == Ok::<ActionModel, Seq<char>>(a@),
            Err(e) => parsed_action(command@) == Err::<ActionModel, Seq<char>>(e@),
        },
{
    let n = chars_of(command).len();
    if n == 0 {
        return Err("No command".to_owned());
    }
    let w = split_words(command, Spacing::Ascii);
    if w.len() == 0 {
        return Err("There should be at least one word".to_owned());
    }
    let ghost args = views(w@).drop_first();
    assert(views(w@)[0] == w@[0]@);
    let name = &w[0];
    if is_word(name, "change_desk") || is_word(name, "cd") {
        match single_argument(&w, "There should be one more argument") {
            Ok(d) => Ok(Action::ChangeDesk { desk_name: d }),
            Err(e) => Err(e),
        }
    } else if is_word(name, "create_desk") {
        match single_argument(&w, "Too few arguments") {
            Ok(d) => Ok(Action::CreateDesk { desk_name: d }),
            Err(e) => Err(e),
        }
    } else if is_word(name, "create_specific_desk") {
        if w.len() < 2 {
            Err("Too few arguments".to_owned())
        } else {
            let desk_name = w[1].clone();
            assert(args[0] == w@[1]@);
            assert(views(w@).subrange(2, w@.len() as int) =~= args.drop_first());
            let path = joined_from(&w, 2);
            Ok(Action::CreateSpecificDesktop { desk_name, path })
        }
    } else if is_word(name, "remove_desk") {
        match single_argument(&w, "Too few arguments") {
            Ok(d) => Ok(Action::RemoveDesk { desk_name: d }),
            Err(e) => Err(e),
        }
    } else if is_word(name, "bind") {
        if w.len() < 3 {
            Err("Too few arguments".to_owned())
        } else if w.len() > 3 {
            Err("Too many arguments".to_owned())
        } else {
            assert(args[0] == w@[1]@ && args[1] == w@[2]@);
            Ok(Action::CreateBind { bind_name: w[1].clone(), desk_name: w[2].clone() })
        }
    } else if is_word(name, "unbind") {
        match single_argument(&w, "Too few arguments") {
            Ok(b) => Ok(Action::RemoveBind { bind_name: b }),
            Err(e) => Err(e),
        }
    } else if is_word(name, "desk_list") || is_word(name, "dl") {
        Ok(Action::DeskList)
    } else if is_word(name, "binds_list") || is_word(name, "bind_list") || is_word(name, "bl") {
        Ok(Action::BindsList)
    } else if is_word(name, "clear") {
        Ok(Action::ClearCommandLine)
    } else if is_word(name, "help") {
        Ok(Action::CommandsList)
    } else if is_word(name, "open") {
        match single_argument(&w, "Too few arguments") {
            Ok(d) => Ok(Action::OpenInExplorer { desk_name: d }),
            Err(e) => Err(e),
        }
    } else if is_word(name, "add_to_autostart") {
        assert(views(w@).subrange(1, w@.len() as int) =~= args);
        Ok(Action::AddToAutoStart { commands: joined_from(&w, 1) })
    } else if is_word(name, "remove_from_autostart") {
        Ok(Action::RemoveFromAutoStart)
    } else {
        Ok(Action::UseBind { bind_name: name.clone() })
    }
}

/// The handler's state: specific desktops and binds as (name, path) and (bind, desktop)
/// texts, the base path and the desktops path.
pub struct HandlerView {
    pub specifics: Seq<(Seq<char>, Seq<char>)>,
    pub base: Seq<char>,
    pub desktops: Seq<char>,
    pub binds: Seq<(Seq<char>, Seq<char>)>,
}

/// Carries out commands on the desktops under a base path, the specific desktops and the binds.
/// `binds` holds pairs (bind name, desktop name).
pub struct CommandHandler {
    pub specific_desktops: Vec<SpecificDesktop>,
    pub base_path: String,
    pub desktops_path: String,
    pub binds: Vec<(String, String)>,
}

impl View for CommandHandler {
    type V = HandlerView;

    open spec fn view(&self) -> HandlerView {
        HandlerView {
            specifics: desk_views(self.specific_desktops@),
            base: self.base_path@,
            desktops: self.desktops_path@,
            binds: bind_views(self.binds@),
        }
    }
}

/// `s` with its entry at `i` replaced by its last entry, and shortened by one, as `Vec::swap_remove` leaves it.
pub open spec fn swap_removed<A>(s: Seq<A>, i: int) -> Seq<A> {
    s.update(i, s.last()).drop_last()
}

pub open spec fn finished(result: Result<(), Seq<char>>) -> HandlingModel {
    HandlingModel::Finished { result }
}

pub open spec fn running(effects: Seq<EffectModel>, then: ThenModel) -> HandlingModel {
    HandlingModel::Running { effects, next: 0, then }
}

/// Switch to the desktop directory `path` and restart the shell.
pub open spec fn switch_to(path: Seq<char>) -> Seq<EffectModel> {
    seq![EffectModel::SetDesktop { path }, EffectModel::RestartExplorer]
}

/// The lines `\t<first> - <second>` of a listing, one per pair.
pub open spec fn listing_lines(pairs: Seq<(Seq<char>, Seq<char>)>) -> Seq<char>
    decreases pairs.len(),
{
    if pairs.len() == 0 {
        seq![]
    } else {
        listing_lines(pairs.drop_last()) + "\t"@ + pairs.last().0 + " - "@ + pairs.last().1 + "\n"@
    }
}

/// What the desktop listing prints after the common desktops.
pub open spec fn specific_listing(specifics: Seq<(Seq<char>, Seq<char>)>) -> Seq<char> {
    "Specific desktops:\n"@ + listing_lines(specifics)
}

/// What the bind listing prints.
pub open spec fn binds_listing(binds: Seq<(Seq<char>, Seq<char>)>) -> Seq<char> {
    if binds.len() == 0 {
        "No binds\n"@
    } else {
        "Binds:\n"@ + listing_lines(binds)
    }
}

/// The help text, listing the commands and the hotkeys.
pub open spec fn help_text() -> Seq<char> {
    "Commands:\n\tcreate_desk (or cd) <desk_name> - create common desk in base with <desk_name>\n\tcreate_specific_desk <desk_name> <path> - create specific desktop with <desk_name> and <path>\n\tremove_desk <desk_name> - removes desk and files if it is a common desk and removes specific desk name from system\n\tbind <bind_name> <desk_name> - creates <bind_name> for desk with <desk_name>\n\tunbind <bind_name> - deletes bind from system\n\tdesk_list (or dl) - prints all desktops\n\tbinds_list (or bl) - prints all binds\n\thelp - prints all commands\n\tclear - clearing command line\n\topen <desk_name> - opens desktop directory in explorer\n\tadd_to_autostart <command>;<command>;...; - adds SevDesk to autostart as well as add commands to be executed with windows start\n\t\tExample:\n\t\t\t 'add_to_start cd blank;clear' - with this command on windows start console will change desk to blank and clear console\n\tremove_from_autostart - removes SevDesk from autostart\n\t<bind_name> \ttry to switch to desk with bind <bind_name>\nIf command doesn't match any command above, it will try to use it as a bind\nFor now, it is possible to bind with name as command\nHotkeys\nHotkeys are used to change desktops without entering a command.\nTo use it press: \n\tLCTRL+ALT+LSHIFT+<NUMBER>\nProgram will try to change desktop to the bind with <NUMBER>\nExample:\n\tLCTRL+ALT+LSHIFT+2 \n\twill be the same as execute following command in console:\n\t\t'2' (it will use bind)\n"@
}

fn commands_help() -> (res: String)
    ensures
        res@ == help_text(),
{
    "Commands:\n\tcreate_desk (or cd) <desk_name> - create common desk in base with <desk_name>\n\tcreate_specific_desk <desk_name> <path> - create specific desktop with <desk_name> and <path>\n\tremove_desk <desk_name> - removes desk and files if it is a common desk and removes specific desk name from system\n\tbind <bind_name> <desk_name> - creates <bind_name> for desk with <desk_name>\n\tunbind <bind_name> - deletes bind from system\n\tdesk_list (or dl) - prints all desktops\n\tbinds_list (or bl) - prints all binds\n\thelp - prints all commands\n\tclear - clearing command line\n\topen <desk_name> - opens desktop directory in explorer\n\tadd_to_autostart <command>;<command>;...; - adds SevDesk to autostart as well as add commands to be executed with windows start\n\t\tExample:\n\t\t\t 'add_to_start cd blank;clear' - with this command on windows start console will change desk to blank and clear console\n\tremove_from_autostart - removes SevDesk from autostart\n\t<bind_name> \ttry to switch to desk with bind <bind_name>\nIf command doesn't match any command above, it will try to use it as a bind\nFor now, it is possible to bind with name as command\nHotkeys\nHotkeys are used to change desktops without entering a command.\nTo use it press: \n\tLCTRL+ALT+LSHIFT+<NUMBER>\nProgram will try to change desktop to the bind with <NUMBER>\nExample:\n\tLCTRL+ALT+LSHIFT+2 \n\twill be the same as execute following command in console:\n\t\t'2' (it will use bind)\n".to_owned()
}

/// Changing to `desk` goes to the first specific desktop of that name; failing one, it waits
/// for the common desktops.
pub open spec fn change_desk_spec(h: HandlerView, desk: Seq<char>, then: ThenModel) -> HandlingModel {
    match first_named(h.specifics, desk) {
        Some(i) => running(switch_to(h.specifics[i].1), then),
        None => HandlingModel::AwaitCommonForChange { desk_name: desk, then },
    }
}

/// Adding the bind `bind` for the existing desktop `desk`: refused if a bind of that name
/// exists, else appended and saved.
pub open spec fn add_bind_spec(h: HandlerView, bind: Seq<char>, desk: Seq<char>) -> (HandlerView, HandlingModel) {
    if first_named(h.binds, bind) is Some {
        (h, finished(Err("Bind with this name exists"@)))
    } else {
        let binds = h.binds.push((bind, desk));
        (
            HandlerView { binds, ..h },
            running(seq![EffectModel::SaveBinds { contents: binds_text(binds) }], ThenModel::Finish),
        )
    }
}

/// Removing `desk` once it is not the current desktop: a specific desktop of that name is
/// removed from the system, that is from the list and from its saved file (its directory
/// stays); failing one, the handler waits for the common desktops.
pub open spec fn remove_specific_spec(h: HandlerView, desk: Seq<char>) -> (HandlerView, HandlingModel) {
    match first_named(h.specifics, desk) {
        Some(i) => {
            let specifics = swap_removed(h.specifics, i);
            (
                HandlerView { specifics, ..h },
                running(
                    seq![EffectModel::SaveSpecificDesktops { contents: desktops_text(specifics) }],
                    ThenModel::Finish,
                ),
            )
        },
        None => (h, HandlingModel::AwaitCommonForRemove { desk_name: desk }),
    }
}

/// The state and the handling right after the handler takes up `a`.
pub open spec fn start_spec(h: HandlerView, a: ActionModel) -> (HandlerView, HandlingModel) {
    match a {
        ActionModel::ChangeDesk { desk_name } => (h, change_desk_spec(h, desk_name, ThenModel::Finish)),
        ActionModel::CreateDesk { desk_name } => (
            h,
            running(seq![EffectModel::CreateCommonDesktop { desk_name }], ThenModel::Finish),
        ),
        ActionModel::RemoveDesk { desk_name } => (h, HandlingModel::AwaitCurrentForRemove { desk_name }),
        ActionModel::CreateSpecificDesktop { desk_name, path } => (
            h,
            HandlingModel::AwaitDirForSpecific { desk_name, path },
        ),
        ActionModel::CreateBind { bind_name, desk_name } => {
            if first_named(h.specifics, desk_name) is Some {
                add_bind_spec(h, bind_name, desk_name)
            } else {
                (h, HandlingModel::AwaitCommonForBind { bind_name, desk_name })
            }
        },
        ActionModel::UseBind { bind_name } => match first_named(h.binds, bind_name) {
            Some(i) => (h, change_desk_spec(h, h.binds[i].1, ThenModel::Finish)),
            None => (h, finished(Err("Bind with this name does not exist"@))),
        },
        ActionModel::RemoveBind { bind_name } => match first_named(h.binds, bind_name) {
            Some(i) => {
                let binds = swap_removed(h.binds, i);
                (
                    HandlerView { binds, ..h },
                    running(
                        seq![EffectModel::SaveBinds { contents: binds_text(binds) }],
                        ThenModel::Finish,
                    ),
                )
            },
            None => (h, finished(Err("Bind with this name does not exist"@))),
        },
        ActionModel::DeskList => (
            h,
            running(
                seq![
                    EffectModel::ListCommonDesktops,
                    EffectModel::Print { text: specific_listing(h.specifics) },
                ],
                ThenModel::Finish,
            ),
        ),
        ActionModel::CommandsList => (
            h,
            running(seq![EffectModel::Print { text: help_text() }], ThenModel::Finish),
        ),
        ActionModel::BindsList => (
            h,
            running(seq![EffectModel::Print { text: binds_listing(h.binds) }], ThenModel::Finish),
        ),
        ActionModel::ClearCommandLine => (h, running(seq![EffectModel::ClearScreen], ThenModel::Finish)),
        ActionModel::OpenInExplorer { desk_name } => (h, HandlingModel::AwaitCommonForOpen { desk_name }),
        ActionModel::AddToAutoStart { commands } => (
            h,
            running(seq![EffectModel::AddToAutoStart { commands }], ThenModel::Finish),
        ),
        ActionModel::RemoveFromAutoStart => (
            h,
            running(seq![EffectModel::RemoveFromAutoStart], ThenModel::Finish),
        ),
    }
}

/// What follows a completed run of effects.
pub open spec fn after_effects(h: HandlerView, then: ThenModel) -> (HandlerView, HandlingModel) {
    match then {
        ThenModel::Finish => (h, finished(Ok(()))),
        ThenModel::RemoveDesk { desk_name } => remove_specific_spec(h, desk_name),
    }
}

/// The state and the handling after `reply` answers what `s` waits for.
pub open spec fn resume_spec(h: HandlerView, s: HandlingModel, reply: ReplyModel) -> (HandlerView, HandlingModel) {
    match (s, reply) {
        (HandlingModel::Running { effects, next, then }, ReplyModel::Performed { result }) => match result {
            Err(e) => (h, finished(Err(e))),
            Ok(()) => if next + 1 < effects.len() {
                (h, HandlingModel::Running { effects, next: next + 1, then })
            } else {
                after_effects(h, then)
            },
        },
        (HandlingModel::AwaitCommonForChange { desk_name, then }, ReplyModel::CommonDesktops { names }) => {
            if names.contains(desk_name) {
                (h, running(switch_to(common_desktop_dir(h.base, desk_name)), then))
            } else if desk_name == "blank"@ {
                (
                    h,
                    running(
                        seq![EffectModel::CreateCommonDesktop { desk_name }] + switch_to(
                            common_desktop_dir(h.base, desk_name),
                        ),
                        then,
                    ),
                )
            } else {
                (h, finished(Err("There is no such desktop"@)))
            }
        },
        (HandlingModel::AwaitCurrentForRemove { desk_name }, ReplyModel::CurrentDesktop { name }) => match name {
            Err(e) => (h, finished(Err(e))),
            Ok(n) => if n == desk_name {
                (h, change_desk_spec(h, "blank"@, ThenModel::RemoveDesk { desk_name }))
            } else {
                remove_specific_spec(h, desk_name)
            },
        },
        (HandlingModel::AwaitCommonForRemove { desk_name }, ReplyModel::CommonDesktops { names }) => {
            if names.contains(desk_name) {
                (
                    h,
                    running(
                        seq![EffectModel::RemoveDesktop { path: common_desktop_dir(h.base, desk_name) }],
                        ThenModel::Finish,
                    ),
                )
            } else {
                (h, finished(Err("There is no such desktop"@)))
            }
        },
        (HandlingModel::AwaitDirForSpecific { desk_name, path }, ReplyModel::IsDirectory { answer }) => {
            if !answer {
                (h, finished(Err("No such directory"@)))
            } else if first_named(h.specifics, desk_name) is Some {
                (h, finished(Err("Desktop with this name exists"@)))
            } else {
                let specifics = h.specifics.push((desk_name, path));
                (
                    HandlerView { specifics, ..h },
                    running(
                        seq![EffectModel::SaveSpecificDesktops { contents: desktops_text(specifics) }],
                        ThenModel::Finish,
                    ),
                )
            }
        },
        (HandlingModel::AwaitCommonForBind { bind_name, desk_name }, ReplyModel::CommonDesktops { names }) => {
            if first_named(h.specifics, desk_name) is Some || names.contains(desk_name) {
                add_bind_spec(h, bind_name, desk_name)
            } else {
                (h, finished(Err("Desktop with this name does not exist"@)))
            }
        },
        (HandlingModel::AwaitCommonForOpen { desk_name }, ReplyModel::CommonDesktops { names }) => {
            if names.contains(desk_name) {
                (
                    h,
                    running(
                        seq![EffectModel::OpenInExplorer { path: path_joined(h.desktops, desk_name) }],
                        ThenModel::Finish,
                    ),
                )
            } else {
                match first_named(h.specifics, desk_name) {
                    Some(i) => (
                        h,
                        running(
                            seq![EffectModel::OpenInExplorer { path: h.specifics[i].1 }],
                            ThenModel::Finish,
                        ),
                    ),
                    None => (h, finished(Err("No such desktop"@))),
                }
            }
        },
        _ => (h, s),
    }
}

/// The index of the first bind named `name`.
fn bind_index(binds: &Vec<(String, String)>, name: &String) -> (res: Option<usize>)
    ensures
        match res {
            Some(i) => first_named(bind_views(binds@), name@) == Some(i as int),
            None => first_named(bind_views(binds@), name@) is None,
        },
{
    let ghost s = bind_views(binds@);
    let mut i: usize = 0;
    while i < binds.len()
        invariant
            s == bind_views(binds@),
            i <= binds@.len(),
            forall|j: int| 0 <= j < i ==> #[trigger] s[j].0 != name@,
        decreases binds@.len() - i,
    {
        if binds[i].0 == *name {
            proof {
                lemma_first_named_at(s, name@, i as int);
            }
            return Some(i);
        }
        i = i + 1;
    }
    proof {
        lemma_first_named(s, name@);
    }
    None
}

/// The lines `\t<name> - <path>` for the given pairs.
fn pair_listing(pairs: &Vec<(String, String)>) -> (res: String)
    ensures
        res@ == listing_lines(bind_views(pairs@)),
{
    let mut res = String::new();
    let mut i: usize = 0;
    while i < pairs.len()
        invariant
            i <= pairs@.len(),
            res@ == listing_lines(bind_views(pairs@).take(i as int)),
        decreases pairs@.len() - i,
    {
        res.append("\t");
        res.append(pairs[i].0.as_str());
        res.append(" - ");
        res.append(pairs[i].1.as_str());
        res.append("\n");
        assert(bind_views(pairs@).take(i + 1).drop_last() =~= bind_views(pairs@).take(i as int));
        assert(res@ =~= listing_lines(bind_views(pairs@).take(i + 1)));
        i = i + 1;
    }
    assert(bind_views(pairs@).take(pairs@.len() as int) =~= bind_views(pairs@));
    res
}

fn single_effect(effect: Effect) -> (res: Handling)
    ensures
        res@ == running(seq![effect@], ThenModel::Finish),
        res.well_formed(),
{
    let mut effects: Vec<Effect> = Vec::new();
    effects.push(effect);
    assert(effect_views(effects@) =~= seq![effect@]);
    Handling::Running { effects, next: 0, then: Then::Finish }
}

fn switching(path: String, then: Then) -> (res: Handling)
    ensures
        res@ == running(switch_to(path@), then@),
        res.well_formed(),
{
    let mut effects: Vec<Effect> = Vec::new();
    effects.push(Effect::SetDesktop { path });
    effects.push(Effect::RestartExplorer);
    assert(effect_views(effects@) =~= switch_to(path@));
    Handling::Running { effects, next: 0, then }
}

fn fail(message: &str) -> (res: Handling)
    ensures
        res@ == finished(Err(message@)),
        res.well_formed(),
{
    Handling::Finished { result: Err(message.to_owned()) }
}

impl CommandHandler {
    /// A handler for the base path `base_path`, whose common desktops live in its `desktops` directory.
    pub fn new(base_path: String, binds: Vec<(String, String)>, specific_desktops: Vec<SpecificDesktop>) -> (res: Self)
        ensures
            res@ == (HandlerView {
                specifics: desk_views(specific_desktops@),
                base: base_path@,
                desktops: desktops_dir(base_path@),
                binds: bind_views(binds@),
            }),
    {
        let desktops_path = join_path(base_path.as_str(), "desktops");
        Self { specific_desktops, base_path, desktops_path, binds }
    }

    /// Whether a desktop named `desk_name` exists: a specific one, or a common one among
    /// `common_desktops`, the entry names of the desktops directory.
    pub fn existence_of_desktop_with_name_of(&self, desk_name: &String, common_desktops: &Vec<String>) -> (b: bool)
        ensures
            b == (first_named(self@.specifics, desk_name@) is Some || views(common_desktops@).contains(
                desk_name@,
            )),
    {
        if get_specific_desktop(&self.specific_desktops, desk_name.clone()).is_some() {
            return true;
        } else if get_common_desktop(common_desktops, &self.desktops_path, desk_name.clone()).is_some() {
            return true;
        }
        false
    }

    /// Whether some specific desktop has a path equal, as paths, to `desk_path`.
    pub fn existence_of_specific_desktop_with_path(&self, desk_path: &String) -> (b: bool)
        ensures
            b == exists|i: int|
                0 <= i < self@.specifics.len() && same_path(#[trigger] self@.specifics[i].1, desk_path@),
    {
        let mut i: usize = 0;
        while i < self.specific_desktops.len()
            invariant
                i <= self.specific_desktops@.len(),
                forall|j: int| 0 <= j < i ==> !same_path(#[trigger] self@.specifics[j].1, desk_path@),
            decreases self.specific_desktops@.len() - i,
        {
            assert(self@.specifics[i as int] == self.specific_desktops@[i as int]@);
            if paths_equal(self.specific_desktops[i].path.as_str(), desk_path.as_str()) {
                assert(same_path(self@.specifics[i as int].1, desk_path@));
                return true;
            }
            i = i + 1;
        }
        false
    }

    /// Whether a bind named `bind_name` exists.
    fn existence_of_bind_with_name_of(&self, bind_name: &String) -> (b: bool)
        ensures
            b == (first_named(self@.binds, bind_name@) is Some),
    {
        bind_index(&self.binds, bind_name).is_some()
    }

    /// The action that the command line `command` asks for; see `parsed_action`.
    pub fn parse_command(&self, command: String) -> (res: Result<Action, String>)
        ensures
            match res {
                Ok(a) => parsed_action(command@) == Ok::<ActionModel, Seq<char>>(a@),
                Err(e) => parsed_action(command@) == Err::<ActionModel, Seq<char>>(e@),
            },
    {
        parse_action(command.as_str())
    }

    /// Takes up `command`: decides what it needs and returns the handling that says so.
    pub fn handle(&mut self, command: Action) -> (res: Handling)
        ensures
            (final(self)@, res@) == start_spec(old(self)@, command@),
            res.well_formed(),
    {
        match command {
            Action::ChangeDesk { desk_name } => self.change_desk(desk_name, Then::Finish),
            Action::CreateDesk { desk_name } => single_effect(Effect::CreateCommonDesktop { desk_name }),
            Action::RemoveDesk { desk_name } => Handling::AwaitCurrentForRemove { desk_name },
            Action::CreateSpecificDesktop { desk_name, path } => Handling::AwaitDirForSpecific {
                desk_name,
                path,
            },
            Action::CreateBind { bind_name, desk_name } => {
                if get_specific_desktop(&self.specific_desktops, desk_name.clone()).is_some() {
                    self.add_bind(bind_name, desk_name)
                } else {
                    Handling::AwaitCommonForBind { bind_name, desk_name }
                }
            },
            Action::UseBind { bind_name } => match bind_index(&self.binds, &bind_name) {
                Some(i) => {
                    proof {
                        lemma_first_named(self@.binds, bind_name@);
                        assert(self@.binds[i as int] == (self.binds@[i as int].0@, self.binds@[i as int].1@));
                    }
                    let desk = self.binds[i].1.clone();
                    self.change_desk(desk, Then::Finish)
                },
                None => fail("Bind with this name does not exist"),
            },
            Action::RemoveBind { bind_name } => match bind_index(&self.binds, &bind_name) {
                Some(i) => {
                    proof {
                        lemma_first_named(self@.binds, bind_name@);
                    }
                    let ghost prev = bind_views(self.binds@);
                    self.binds.swap_remove(i);
                    assert(bind_views(self.binds@) =~= swap_removed(prev, i as int));
                    let contents = binds_file_contents(&self.binds);
                    single_effect(Effect::SaveBinds { contents })
                },
                None => fail("Bind with this name does not exist"),
            },
            Action::DeskList => {
                let mut text = "Specific desktops:\n".to_owned();
                let mut i: usize = 0;
                let ghost s = desk_views(self.specific_desktops@);
                while i < self.specific_desktops.len()
                    invariant
                        s == desk_views(self.specific_desktops@),
                        i <= s.len(),
                        text@ == "Specific desktops:\n"@ + listing_lines(s.take(i as int)),
                    decreases s.len() - i,
                {
                    text.append("\t");
                    text.append(self.specific_desktops[i].name.as_str());
                    text.append(" - ");
                    text.append(self.specific_desktops[i].path.as_str());
                    text.append("\n");
                    assert(s.take(i + 1).drop_last() =~= s.take(i as int));
                    assert(text@ =~= "Specific desktops:\n"@ + listing_lines(s.take(i + 1)));
                    i = i + 1;
                }
                assert(s.take(s.len() as int) =~= s);
                let mut effects: Vec<Effect> = Vec::new();
                effects.push(Effect::ListCommonDesktops);
                effects.push(Effect::Print { text });
                assert(effect_views(effects@) =~= seq![
                    EffectModel::ListCommonDesktops,
                    EffectModel::Print { text: specific_listing(s) },
                ]);
                Handling::Running { effects, next: 0, then: Then::Finish }
            },
            Action::CommandsList => single_effect(Effect::Print { text: commands_help() }),
            Action::BindsList => {
                let text = if self.binds.len() == 0 {
                    "No binds\n".to_owned()
                } else {
                    let mut t = "Binds:\n".to_owned();
                    t.append(pair_listing(&self.binds).as_str());
                    t
                };
                single_effect(Effect::Print { text })
            },
            Action::ClearCommandLine => single_effect(Effect::ClearScreen),
            Action::OpenInExplorer { desk_name } => Handling::AwaitCommonForOpen { desk_name },
            Action::AddToAutoStart { commands } => single_effect(Effect::AddToAutoStart { commands }),
            Action::RemoveFromAutoStart => single_effect(Effect::RemoveFromAutoStart),
        }
    }

    /// Takes up changing to `desk_name`, with `then` to follow.
    fn change_desk(&self, desk_name: String, then: Then) -> (res: Handling)
        ensures
            res@ == change_desk_spec(self@, desk_name@, then@),
            res.well_formed(),
    {
        proof {
            lemma_first_named(self@.specifics, desk_name@);
            if let Some(i) = first_named(self@.specifics, desk_name@) {
                assert(self@.specifics[i] == self.specific_desktops@[i]@);
            }
        }
        match get_specific_desktop(&self.specific_desktops, desk_name.clone()) {
            Some(desktop) => switching(change_specific_desktop(&desktop), then),
            None => Handling::AwaitCommonForChange { desk_name, then },
        }
    }

    /// Adds the bind `bind_name` for the existing desktop `desk_name`.
    fn add_bind(&mut self, bind_name: String, desk_name: String) -> (res: Handling)
        ensures
            (final(self)@, res@) == add_bind_spec(old(self)@, bind_name@, desk_name@),
            res.well_formed(),
    {
        if self.existence_of_bind_with_name_of(&bind_name) {
            return fail("Bind with this name exists");
        }
        let ghost prev = bind_views(self.binds@);
        self.binds.push((bind_name, desk_name));
        assert(bind_views(self.binds@) =~= prev.push((bind_name@, desk_name@)));
        let contents = binds_file_contents(&self.binds);
        single_effect(Effect::SaveBinds { contents })
    }

    /// Goes on removing `desk_name` once it is not the current desktop.
    fn remove_specific(&mut self, desk_name: String) -> (res: Handling)
        ensures
            (final(self)@, res@) == remove_specific_spec(old(self)@, desk_name@),
            res.well_formed(),
    {
        let ghost s = desk_views(self.specific_desktops@);
        let mut i: usize = 0;
        while i < self.specific_desktops.len()
            invariant
                s == desk_views(self.specific_desktops@),
                self@ == old(self)@,
                i <= s.len(),
                forall|j: int| 0 <= j < i ==> #[trigger] s[j].0 != desk_name@,
            decreases s.len() - i,
        {
            assert(s[i as int] == self.specific_desktops@[i as int]@);
            if self.specific_desktops[i].name == desk_name {
                proof {
                    lemma_first_named_at(s, desk_name@, i as int);
                }
                self.specific_desktops.swap_remove(i);
                assert(desk_views(self.specific_desktops@) =~= swap_removed(s, i as int));
                let contents = specific_desktops_file_contents(&self.specific_desktops);
                return single_effect(Effect::SaveSpecificDesktops { contents });
            }
            i = i + 1;
        }
        proof {
            lemma_first_named(s, desk_name@);
        }
        Handling::AwaitCommonForRemove { desk_name }
    }

    /// Goes on with `handling` now that `reply` answers what it waits for.
    pub fn resume(&mut self, handling: Handling, reply: Reply) -> (res: Handling)
        requires
            accepts(handling@, reply@),
        ensures
            (final(self)@, res@) == resume_spec(old(self)@, handling@, reply@),
            res.well_formed(),
    {
        match (handling, reply) {
            (Handling::Running { effects, next, then }, Reply::Performed { result }) => {
                self.effect_done(effects, next, then, result)
            },
            (Handling::AwaitCommonForChange { desk_name, then }, Reply::CommonDesktops { names }) => {
                self.change_to_common(desk_name, then, names)
            },
            (Handling::AwaitCurrentForRemove { desk_name }, Reply::CurrentDesktop { name }) => {
                self.remove_after_current(desk_name, name)
            },
            (Handling::AwaitCommonForRemove { desk_name }, Reply::CommonDesktops { names }) => {
                self.remove_common(desk_name, names)
            },
            (Handling::AwaitDirForSpecific { desk_name, path }, Reply::IsDirectory { answer }) => {
                self.add_specific(desk_name, path, answer)
            },
            (Handling::AwaitCommonForBind { bind_name, desk_name }, Reply::CommonDesktops { names }) => {
                if !self.existence_of_desktop_with_name_of(&desk_name, &names) {
                    return fail("Desktop with this name does not exist");
                }
                self.add_bind(bind_name, desk_name)
            },
            (Handling::AwaitCommonForOpen { desk_name }, Reply::CommonDesktops { names }) => {
                self.open(desk_name, names)
            },
            (other, _) => other,
        }
    }

    fn effect_done(&mut self, effects: Vec<Effect>, next: usize, then: Then, result: Result<(), String>) -> (res: Handling)
        requires
            next < effects@.len(),
        ensures
            (final(self)@, res@) == resume_spec(
                old(self)@,
                HandlingModel::Running { effects: effect_views(effects@), next: next as int, then: then@ },
                ReplyModel::Performed { result: outcome_view(result) },
            ),
            res.well_formed(),
    {
        match result {
            Err(e) => Handling::Finished { result: Err(e) },
            Ok(()) => {
                if next < effects.len() - 1 {
                    Handling::Running { effects, next: next + 1, then }
                } else {
                    match then {
                        Then::Finish => Handling::Finished { result: Ok(()) },
                        Then::RemoveDesk { desk_name } => self.remove_specific(desk_name),
                    }
                }
            },
        }
    }

    fn change_to_common(&self, desk_name: String, then: Then, names: Vec<String>) -> (res: Handling)
        ensures
            (self@, res@) == resume_spec(
                self@,
                HandlingModel::AwaitCommonForChange { desk_name: desk_name@, then: then@ },
                ReplyModel::CommonDesktops { names: views(names@) },
            ),
            res.well_formed(),
    {
        if get_common_desktop(&names, &self.desktops_path, desk_name.clone()).is_some() {
            switching(change_common_desktop(&desk_name, &self.base_path), then)
        } else if desk_name == "blank".to_owned() {
            let path = change_common_desktop(&desk_name, &self.base_path);
            let mut effects: Vec<Effect> = Vec::new();
            effects.push(Effect::CreateCommonDesktop { desk_name });
            effects.push(Effect::SetDesktop { path });
            effects.push(Effect::RestartExplorer);
            assert(effect_views(effects@) =~= seq![EffectModel::CreateCommonDesktop { desk_name: "blank"@ }] + switch_to(path@));
            Handling::Running { effects, next: 0, then }
        } else {
            fail("There is no such desktop")
        }
    }

    fn remove_after_current(&mut self, desk_name: String, name: Result<String, String>) -> (res: Handling)
        ensures
            (final(self)@, res@) == resume_spec(
                old(self)@,
                HandlingModel::AwaitCurrentForRemove { desk_name: desk_name@ },
                ReplyModel::CurrentDesktop {
                    name: match name {
                        Ok(n) => Ok(n@),
                        Err(e) => Err(e@),
                    },
                },
            ),
            res.well_formed(),
    {
        match name {
            Err(e) => Handling::Finished { result: Err(e) },
            Ok(n) => {
                if n == desk_name {
                    self.change_desk("blank".to_owned(), Then::RemoveDesk { desk_name })
                } else {
                    self.remove_specific(desk_name)
                }
            },
        }
    }

    fn remove_common(&self, desk_name: String, names: Vec<String>) -> (res: Handling)
        ensures
            (self@, res@) == resume_spec(
                self@,
                HandlingModel::AwaitCommonForRemove { desk_name: desk_name@ },
                ReplyModel::CommonDesktops { names: views(names@) },
            ),
            res.well_formed(),
    {
        if get_common_desktop(&names, &self.desktops_path, desk_name.clone()).is_some() {
            single_effect(Effect::RemoveDesktop { path: remove_common_desktop(&desk_name, &self.base_path) })
        } else {
            fail("There is no such desktop")
        }
    }

    fn add_specific(&mut self, desk_name: String, path: String, answer: bool) -> (res: Handling)
        ensures
            (final(self)@, res@) == resume_spec(
                old(self)@,
                HandlingModel::AwaitDirForSpecific { desk_name: desk_name@, path: path@ },
                ReplyModel::IsDirectory { answer },
            ),
            res.well_formed(),
    {
        if !answer {
            return fail("No such directory");
        }
        match allocate_new_specific_desktop(&desk_name, &path, &self.specific_desktops) {
            Err(e) => Handling::Finished { result: Err(e) },
            Ok(desktop) => {
                let ghost prev = desk_views(self.specific_desktops@);
                self.specific_desktops.push(desktop);
                assert(desk_views(self.specific_desktops@) =~= prev.push((desk_name@, path@)));
                let contents = specific_desktops_file_contents(&self.specific_desktops);
                single_effect(Effect::SaveSpecificDesktops { contents })
            },
        }
    }

    fn open(&self, desk_name: String, names: Vec<String>) -> (res: Handling)
        ensures
            (self@, res@) == resume_spec(
                self@,
                HandlingModel::AwaitCommonForOpen { desk_name: desk_name@ },
                ReplyModel::CommonDesktops { names: views(names@) },
            ),
            res.well_formed(),
    {
        proof {
            lemma_first_named(self@.specifics, desk_name@);
            if let Some(i) = first_named(self@.specifics, desk_name@) {
                assert(self@.specifics[i] == self.specific_desktops@[i]@);
            }
        }
        if get_common_desktop(&names, &self.desktops_path, desk_name.clone()).is_some() {
            single_effect(
                Effect::OpenInExplorer { path: join_path(self.desktops_path.as_str(), desk_name.as_str()) },
            )
        } else {
            match get_specific_desktop(&self.specific_desktops, desk_name.clone()) {
                Some(desktop) => single_effect(Effect::OpenInExplorer { path: desktop.path }),
                None => fail("No such desktop"),
            }
        }
    }
}

} // verus!
