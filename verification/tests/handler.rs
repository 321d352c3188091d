use sevdesk::command_handler::CommandHandler;
use sevdesk::handling::{Effect, Handling, Reply, Request, Then};
use sevdesk::model::{Action, SpecificDesktop};
use std::path::Path;

fn joined(a: &str, b: &str) -> String {
    Path::new(a).join(b).to_string_lossy().into_owned()
}

fn common_dir(base: &str, desk: &str) -> String {
    joined(&joined(base, "desktops"), desk)
}

fn handler() -> CommandHandler {
    CommandHandler::new(
        "base".to_string(),
        vec![("1".to_string(), "work".to_string()), ("2".to_string(), "docs".to_string())],
        vec![SpecificDesktop::new("docs".to_string(), "C:\\Docs".to_string())],
    )
}

fn names(list: &[&str]) -> Reply {
    Reply::CommonDesktops { names: list.iter().map(|s| s.to_string()).collect() }
}

fn ok() -> Reply {
    Reply::Performed { result: Ok(()) }
}

#[test]
fn new_handler_keeps_common_desktops_under_base() {
    let h = handler();
    assert_eq!(h.desktops_path, joined("base", "desktops"));
    assert_eq!(h.base_path, "base");
    assert_eq!(h.binds.len(), 2);
}

#[test]
fn change_to_specific_desktop_switches_and_restarts() {
    let mut h = handler();
    let mut s = h.handle(Action::ChangeDesk { desk_name: "docs".to_string() });
    assert_eq!(s.request(), Request::Perform { effect: Effect::SetDesktop { path: "C:\\Docs".to_string() } });
    s = h.resume(s, ok());
    assert_eq!(s.request(), Request::Perform { effect: Effect::RestartExplorer });
    s = h.resume(s, ok());
    assert_eq!(s, Handling::Finished { result: Ok(()) });
}

#[test]
fn change_to_common_desktop_asks_for_the_listing() {
    let mut h = handler();
    let s = h.handle(Action::ChangeDesk { desk_name: "work".to_string() });
    assert_eq!(s.request(), Request::ListCommonDesktops);
    let s = h.resume(s, names(&["games", "work"]));
    assert_eq!(
        s.request(),
        Request::Perform { effect: Effect::SetDesktop { path: common_dir("base", "work") } }
    );
}

#[test]
fn change_to_missing_desktop_fails() {
    let mut h = handler();
    let s = h.handle(Action::ChangeDesk { desk_name: "nowhere".to_string() });
    let s = h.resume(s, names(&["work"]));
    assert_eq!(s, Handling::Finished { result: Err("There is no such desktop".to_string()) });
}

#[test]
fn change_to_blank_creates_it_first() {
    let mut h = handler();
    let s = h.handle(Action::ChangeDesk { desk_name: "blank".to_string() });
    let s = h.resume(s, names(&[]));
    assert_eq!(
        s.request(),
        Request::Perform { effect: Effect::CreateCommonDesktop { desk_name: "blank".to_string() } }
    );
    let s = h.resume(s, ok());
    assert_eq!(
        s.request(),
        Request::Perform { effect: Effect::SetDesktop { path: common_dir("base", "blank") } }
    );
}

#[test]
fn a_failed_effect_ends_the_command() {
    let mut h = handler();
    let s = h.handle(Action::ChangeDesk { desk_name: "docs".to_string() });
    let s = h.resume(s, Reply::Performed { result: Err("No such desktop".to_string()) });
    assert_eq!(s, Handling::Finished { result: Err("No such desktop".to_string()) });
}

#[test]
fn create_desk_runs_the_creation() {
    let mut h = handler();
    let s = h.handle(Action::CreateDesk { desk_name: "games".to_string() });
    assert_eq!(
        s.request(),
        Request::Perform { effect: Effect::CreateCommonDesktop { desk_name: "games".to_string() } }
    );
    let s = h.resume(s, Reply::Performed { result: Err("Desktop with this name exists".to_string()) });
    assert_eq!(s, Handling::Finished { result: Err("Desktop with this name exists".to_string()) });
}

#[test]
fn create_specific_desktop_checks_the_directory() {
    let mut h = handler();
    let s = h.handle(Action::CreateSpecificDesktop { desk_name: "pics".to_string(), path: "P:\\".to_string() });
    assert_eq!(s.request(), Request::IsDirectory { path: "P:\\".to_string() });
    let s = h.resume(s, Reply::IsDirectory { answer: false });
    assert_eq!(s, Handling::Finished { result: Err("No such directory".to_string()) });
    assert_eq!(h.specific_desktops.len(), 1);
}

#[test]
fn create_specific_desktop_saves_the_list() {
    let mut h = handler();
    let s = h.handle(Action::CreateSpecificDesktop { desk_name: "pics".to_string(), path: "P:\\".to_string() });
    let s = h.resume(s, Reply::IsDirectory { answer: true });
    assert_eq!(
        s.request(),
        Request::Perform {
            effect: Effect::SaveSpecificDesktops { contents: "docs>>C:\\Docs\npics>>P:\\\n".to_string() }
        }
    );
    assert_eq!(h.specific_desktops[1], SpecificDesktop::new("pics".to_string(), "P:\\".to_string()));
}

#[test]
fn create_specific_desktop_refuses_a_taken_name() {
    let mut h = handler();
    let s = h.handle(Action::CreateSpecificDesktop { desk_name: "docs".to_string(), path: "P:\\".to_string() });
    let s = h.resume(s, Reply::IsDirectory { answer: true });
    assert_eq!(s, Handling::Finished { result: Err("Desktop with this name exists".to_string()) });
}

#[test]
fn create_bind_for_specific_desktop_saves_binds() {
    let mut h = handler();
    let s = h.handle(Action::CreateBind { bind_name: "3".to_string(), desk_name: "docs".to_string() });
    assert_eq!(
        s.request(),
        Request::Perform { effect: Effect::SaveBinds { contents: "1 work\n2 docs\n3 docs\n".to_string() } }
    );
    assert_eq!(h.binds.len(), 3);
}

#[test]
fn create_bind_for_common_desktop_needs_the_listing() {
    let mut h = handler();
    let s = h.handle(Action::CreateBind { bind_name: "3".to_string(), desk_name: "games".to_string() });
    assert_eq!(s.request(), Request::ListCommonDesktops);
    let s = h.resume(s, names(&["work"]));
    assert_eq!(s, Handling::Finished { result: Err("Desktop with this name does not exist".to_string()) });
    let s = h.handle(Action::CreateBind { bind_name: "3".to_string(), desk_name: "games".to_string() });
    let s = h.resume(s, names(&["games"]));
    assert!(matches!(s, Handling::Running { .. }));
    assert_eq!(h.binds[2], ("3".to_string(), "games".to_string()));
}

#[test]
fn create_bind_refuses_a_taken_name() {
    let mut h = handler();
    let s = h.handle(Action::CreateBind { bind_name: "1".to_string(), desk_name: "docs".to_string() });
    assert_eq!(s, Handling::Finished { result: Err("Bind with this name exists".to_string()) });
}

#[test]
fn use_bind_changes_desk() {
    let mut h = handler();
    let s = h.handle(Action::UseBind { bind_name: "2".to_string() });
    assert_eq!(s.request(), Request::Perform { effect: Effect::SetDesktop { path: "C:\\Docs".to_string() } });
    let s = h.handle(Action::UseBind { bind_name: "9".to_string() });
    assert_eq!(s, Handling::Finished { result: Err("Bind with this name does not exist".to_string()) });
}

#[test]
fn remove_bind_swaps_in_the_last() {
    let mut h = CommandHandler::new(
        "base".to_string(),
        vec![
            ("1".to_string(), "a".to_string()),
            ("2".to_string(), "b".to_string()),
            ("3".to_string(), "c".to_string()),
        ],
        vec![],
    );
    let s = h.handle(Action::RemoveBind { bind_name: "1".to_string() });
    assert_eq!(
        s.request(),
        Request::Perform { effect: Effect::SaveBinds { contents: "3 c\n2 b\n".to_string() } }
    );
    let s = h.handle(Action::RemoveBind { bind_name: "1".to_string() });
    assert_eq!(s, Handling::Finished { result: Err("Bind with this name does not exist".to_string()) });
}

#[test]
fn remove_current_desktop_moves_to_blank_first() {
    let mut h = handler();
    let s = h.handle(Action::RemoveDesk { desk_name: "docs".to_string() });
    assert_eq!(s.request(), Request::CurrentDesktop);
    let s = h.resume(s, Reply::CurrentDesktop { name: Ok("docs".to_string()) });
    assert_eq!(
        s,
        Handling::AwaitCommonForChange {
            desk_name: "blank".to_string(),
            then: Then::RemoveDesk { desk_name: "docs".to_string() }
        }
    );
    let s = h.resume(s, names(&["blank"]));
    let s = h.resume(s, ok());
    let s = h.resume(s, ok());
    assert_eq!(
        s.request(),
        Request::Perform { effect: Effect::SaveSpecificDesktops { contents: "".to_string() } }
    );
    let s = h.resume(s, ok());
    assert_eq!(s, Handling::Finished { result: Ok(()) });
    assert!(h.specific_desktops.is_empty());
}

#[test]
fn removed_specific_desktop_is_saved() {
    let mut h = CommandHandler::new(
        "base".to_string(),
        vec![],
        vec![
            SpecificDesktop::new("a".to_string(), "PA".to_string()),
            SpecificDesktop::new("b".to_string(), "PB".to_string()),
            SpecificDesktop::new("c".to_string(), "PC".to_string()),
        ],
    );
    let s = h.handle(Action::RemoveDesk { desk_name: "a".to_string() });
    let s = h.resume(s, Reply::CurrentDesktop { name: Ok("work".to_string()) });
    match s.request() {
        Request::Perform { effect: Effect::SaveSpecificDesktops { contents } } => {
            assert_eq!(contents, "c>>PC\nb>>PB\n");
            let read = sevdesk::data_manager::get_specific_desktops(contents.as_bytes());
            assert_eq!(read, h.specific_desktops);
            assert!(read.iter().all(|d| d.name != "a"));
        }
        other => panic!("unexpected request {:?}", other),
    }
    let s = h.resume(s, ok());
    assert_eq!(s, Handling::Finished { result: Ok(()) });
}

#[test]
fn remove_common_desktop_deletes_its_directory() {
    let mut h = handler();
    let s = h.handle(Action::RemoveDesk { desk_name: "games".to_string() });
    let s = h.resume(s, Reply::CurrentDesktop { name: Ok("work".to_string()) });
    assert_eq!(s.request(), Request::ListCommonDesktops);
    let s = h.resume(s, names(&["games"]));
    assert_eq!(
        s.request(),
        Request::Perform { effect: Effect::RemoveDesktop { path: common_dir("base", "games") } }
    );
}

#[test]
fn remove_reports_unreadable_current_desktop() {
    let mut h = handler();
    let s = h.handle(Action::RemoveDesk { desk_name: "games".to_string() });
    let s = h.resume(s, Reply::CurrentDesktop { name: Err("Cannot reach regedit variable".to_string()) });
    assert_eq!(s, Handling::Finished { result: Err("Cannot reach regedit variable".to_string()) });
}

#[test]
fn remove_missing_desktop_fails() {
    let mut h = handler();
    let s = h.handle(Action::RemoveDesk { desk_name: "games".to_string() });
    let s = h.resume(s, Reply::CurrentDesktop { name: Ok("work".to_string()) });
    let s = h.resume(s, names(&["work"]));
    assert_eq!(s, Handling::Finished { result: Err("There is no such desktop".to_string()) });
}

#[test]
fn listings_print_their_text() {
    let mut h = handler();
    let s = h.handle(Action::BindsList);
    assert_eq!(
        s.request(),
        Request::Perform { effect: Effect::Print { text: "Binds:\n\t1 - work\n\t2 - docs\n".to_string() } }
    );
    let mut empty = CommandHandler::new("b".to_string(), vec![], vec![]);
    let s = empty.handle(Action::BindsList);
    assert_eq!(s.request(), Request::Perform { effect: Effect::Print { text: "No binds\n".to_string() } });
    let s = h.handle(Action::DeskList);
    assert_eq!(s.request(), Request::Perform { effect: Effect::ListCommonDesktops });
    let s = h.resume(s, ok());
    assert_eq!(
        s.request(),
        Request::Perform {
            effect: Effect::Print { text: "Specific desktops:\n\tdocs - C:\\Docs\n".to_string() }
        }
    );
}

#[test]
fn help_names_every_command() {
    let mut h = handler();
    let s = h.handle(Action::CommandsList);
    match s.request() {
        Request::Perform { effect: Effect::Print { text } } => {
            for word in ["create_desk", "remove_desk", "bind", "unbind", "open", "LCTRL+ALT+LSHIFT"] {
                assert!(text.contains(word));
            }
        }
        other => panic!("unexpected request {:?}", other),
    }
}

#[test]
fn open_prefers_common_desktop() {
    let mut h = handler();
    let s = h.handle(Action::OpenInExplorer { desk_name: "docs".to_string() });
    let s = h.resume(s, names(&["docs"]));
    assert_eq!(
        s.request(),
        Request::Perform { effect: Effect::OpenInExplorer { path: joined(&joined("base", "desktops"), "docs") } }
    );
    let s = h.handle(Action::OpenInExplorer { desk_name: "docs".to_string() });
    let s = h.resume(s, names(&[]));
    assert_eq!(
        s.request(),
        Request::Perform { effect: Effect::OpenInExplorer { path: "C:\\Docs".to_string() } }
    );
    let s = h.handle(Action::OpenInExplorer { desk_name: "x".to_string() });
    let s = h.resume(s, names(&[]));
    assert_eq!(s, Handling::Finished { result: Err("No such desktop".to_string()) });
}

#[test]
fn simple_effects() {
    let mut h = handler();
    let s = h.handle(Action::ClearCommandLine);
    assert_eq!(s.request(), Request::Perform { effect: Effect::ClearScreen });
    let s = h.handle(Action::AddToAutoStart { commands: "cd a".to_string() });
    assert_eq!(s.request(), Request::Perform { effect: Effect::AddToAutoStart { commands: "cd a".to_string() } });
    let s = h.handle(Action::RemoveFromAutoStart);
    assert_eq!(s.request(), Request::Perform { effect: Effect::RemoveFromAutoStart });
}

#[test]
fn replies_are_checked_against_the_handling() {
    let mut h = handler();
    let s = h.handle(Action::ChangeDesk { desk_name: "work".to_string() });
    assert!(s.accepts(&names(&[])));
    assert!(!s.accepts(&ok()));
    assert!(!s.is_finished());
}

#[test]
fn existence_queries() {
    let h = handler();
    assert!(h.existence_of_desktop_with_name_of(&"docs".to_string(), &vec![]));
    assert!(h.existence_of_desktop_with_name_of(&"w".to_string(), &vec!["w".to_string()]));
    assert!(!h.existence_of_desktop_with_name_of(&"w".to_string(), &vec![]));
    assert!(h.existence_of_specific_desktop_with_path(&"C:\\Docs".to_string()));
    assert!(!h.existence_of_specific_desktop_with_path(&"C:\\Other".to_string()));
}

#[test]
fn removing_a_new_bind_restores_the_binds() {
    let mut h = handler();
    let before = h.binds.clone();
    let _ = h.handle(Action::CreateBind { bind_name: "7".to_string(), desk_name: "docs".to_string() });
    assert_eq!(h.binds.len(), 3);
    let _ = h.handle(Action::RemoveBind { bind_name: "7".to_string() });
    assert_eq!(h.binds, before);
}

#[test]
fn added_bind_leads_to_its_desktop() {
    let mut h = handler();
    let _ = h.handle(Action::CreateBind { bind_name: "7".to_string(), desk_name: "docs".to_string() });
    let via_bind = h.handle(Action::UseBind { bind_name: "7".to_string() });
    let direct = h.handle(Action::ChangeDesk { desk_name: "docs".to_string() });
    assert_eq!(via_bind, direct);
}

#[test]
fn saved_binds_read_back_as_the_handler_binds() {
    let mut h = handler();
    let s = h.handle(Action::CreateBind { bind_name: "7".to_string(), desk_name: "docs".to_string() });
    match s.request() {
        Request::Perform { effect: Effect::SaveBinds { contents } } => {
            assert_eq!(sevdesk::data_manager::get_binds(contents.as_bytes()), h.binds);
        }
        other => panic!("unexpected request {:?}", other),
    }
}

#[test]
fn saved_desktops_read_back_as_the_handler_desktops() {
    let mut h = handler();
    let s = h.handle(Action::CreateSpecificDesktop { desk_name: "pics".to_string(), path: "P:\\x".to_string() });
    let s = h.resume(s, Reply::IsDirectory { answer: true });
    match s.request() {
        Request::Perform { effect: Effect::SaveSpecificDesktops { contents } } => {
            assert_eq!(sevdesk::data_manager::get_specific_desktops(contents.as_bytes()), h.specific_desktops);
        }
        other => panic!("unexpected request {:?}", other),
    }
}

#[test]
fn names_stay_unique() {
    let mut h = handler();
    let _ = h.handle(Action::CreateBind { bind_name: "2".to_string(), desk_name: "docs".to_string() });
    assert_eq!(h.binds.iter().filter(|b| b.0 == "2").count(), 1);
    let s = h.handle(Action::CreateSpecificDesktop { desk_name: "docs".to_string(), path: "Q".to_string() });
    let _ = h.resume(s, Reply::IsDirectory { answer: true });
    assert_eq!(h.specific_desktops.iter().filter(|d| d.name == "docs").count(), 1);
    assert_eq!(h.base_path, "base");
}

#[test]
fn every_command_finishes_within_seven_replies() {
    let actions = vec![
        Action::ChangeDesk { desk_name: "blank".to_string() },
        Action::RemoveDesk { desk_name: "blank".to_string() },
        Action::RemoveDesk { desk_name: "docs".to_string() },
        Action::CreateBind { bind_name: "5".to_string(), desk_name: "games".to_string() },
        Action::CreateSpecificDesktop { desk_name: "p".to_string(), path: "P".to_string() },
        Action::OpenInExplorer { desk_name: "games".to_string() },
        Action::DeskList,
        Action::UseBind { bind_name: "1".to_string() },
    ];
    for action in actions {
        let mut h = handler();
        let mut s = h.handle(action);
        let mut replies = 0;
        while !s.is_finished() {
            let reply = match s.request() {
                Request::ListCommonDesktops => names(&["games", "work"]),
                Request::CurrentDesktop => Reply::CurrentDesktop { name: Ok("blank".to_string()) },
                Request::IsDirectory { .. } => Reply::IsDirectory { answer: true },
                Request::Perform { .. } => ok(),
                Request::Done { .. } => unreachable!(),
            };
            s = h.resume(s, reply);
            replies += 1;
            assert!(replies <= 7);
        }
    }
}
