use sevdesk::fs_lib::{copy_step, copy_target, is_blacklisted, CopyStep, EntryKind};
use sevdesk::logic::{
    allocate_new_specific_desktop, change_common_desktop, change_specific_desktop, files_of,
    get_common_desktop, get_specific_desktop, removal_step, remove_common_desktop, RemovalStep,
};
use sevdesk::model::SpecificDesktop;
use sevdesk::regchange::autostart_command;
use sevdesk::shortcuts::{AppManager, Key, KeyBoardState, KeyEvent};
use sevdesk::text::{join_with, split_pieces, split_words, text_lines, trim_text, Spacing};
use sevdesk::tools::{find, find_with_index};
use std::path::Path;

fn joined(a: &str, b: &str) -> String {
    Path::new(a).join(b).to_string_lossy().into_owned()
}

fn desks() -> Vec<SpecificDesktop> {
    vec![
        SpecificDesktop::new("a".to_string(), "P1".to_string()),
        SpecificDesktop::new("b".to_string(), "P2".to_string()),
        SpecificDesktop::new("a".to_string(), "P3".to_string()),
    ]
}

#[test]
fn find_gives_the_first_match() {
    let d = desks();
    let found = find_with_index(&d, "a".to_string(), |x: SpecificDesktop| x.name);
    assert_eq!(found, Some((SpecificDesktop::new("a".to_string(), "P1".to_string()), 0)));
    let found = find_with_index(&d, "b".to_string(), |x: SpecificDesktop| x.name);
    assert_eq!(found.map(|(_, i)| i), Some(1));
    assert_eq!(find_with_index(&d, "z".to_string(), |x: SpecificDesktop| x.name), None);
    assert_eq!(find(&d, "a".to_string(), |x: SpecificDesktop| x.path), None);
    assert_ne!(find(&d, "a".to_string(), |x: SpecificDesktop| x.name), None);
    assert_eq!(
        find(&d, "P3".to_string(), |x: SpecificDesktop| x.path),
        Some(SpecificDesktop::new("a".to_string(), "P3".to_string()))
    );
}

#[test]
fn find_is_find_with_index_without_the_index() {
    let d = desks();
    for key in ["a", "b", "z", "P1", "P3"] {
        for by_path in [false, true] {
            let with_index = find_with_index(&d, key.to_string(), |x: SpecificDesktop| {
                if by_path { x.path } else { x.name }
            });
            let plain = find(&d, key.to_string(), |x: SpecificDesktop| {
                if by_path { x.path } else { x.name }
            });
            assert_eq!(with_index.map(|(item, _)| item), plain);
        }
    }
}

#[test]
fn specific_desktop_lookup_and_allocation() {
    let d = desks();
    assert_eq!(get_specific_desktop(&d, "a".to_string()).map(|x| x.path), Some("P1".to_string()));
    assert_eq!(get_specific_desktop(&d, "q".to_string()), None);
    assert_eq!(
        allocate_new_specific_desktop(&"b".to_string(), &"X".to_string(), &d),
        Err("Desktop with this name exists".to_string())
    );
    assert_eq!(
        allocate_new_specific_desktop(&"c".to_string(), &"X".to_string(), &d),
        Ok(SpecificDesktop::new("c".to_string(), "X".to_string()))
    );
}

#[test]
fn common_desktop_paths() {
    let names = vec!["x".to_string(), "y".to_string()];
    assert_eq!(get_common_desktop(&names, &"D".to_string(), "y".to_string()), Some(joined("D", "y")));
    assert_eq!(get_common_desktop(&names, &"D".to_string(), "z".to_string()), None);
    assert_eq!(files_of(&"D".to_string(), &names), vec![joined("D", "x"), joined("D", "y")]);
    let expected = joined(&joined("B", "desktops"), "w");
    assert_eq!(change_common_desktop(&"w".to_string(), &"B".to_string()), expected);
    assert_eq!(remove_common_desktop(&"w".to_string(), &"B".to_string()), expected);
    assert_eq!(change_specific_desktop(&desks()[1]), "P2");
}

#[test]
fn words_pieces_and_joins() {
    assert_eq!(split_words(" a  b\tc\n", Spacing::Ascii), vec!["a", "b", "c"]);
    assert_eq!(split_words("a\u{A0}b", Spacing::Ascii), vec!["a\u{A0}b"]);
    assert_eq!(split_words("a\u{A0}b\u{3000}c", Spacing::Unicode), vec!["a", "b", "c"]);
    assert_eq!(split_words("", Spacing::Unicode), Vec::<String>::new());
    assert_eq!(split_pieces("cd a;;clear;", ";"), vec!["cd a", "", "clear", ""]);
    assert_eq!(split_pieces("a>>>b", ">>"), vec!["a", ">b"]);
    assert_eq!(split_pieces("", ";"), vec![""]);
    let parts = split_pieces("x;y;;z", ";");
    assert_eq!(join_with(&parts, ";"), "x;y;;z");
}

#[test]
fn lines_of_bytes() {
    assert_eq!(
        text_lines(b"a\r\nb\n\xff\nc\r"),
        vec![Some("a".to_string()), Some("b".to_string()), None, Some("c\r".to_string())]
    );
    assert_eq!(text_lines(b"\n"), vec![Some("".to_string())]);
    assert_eq!(text_lines(b""), Vec::<Option<String>>::new());
}

#[test]
fn parameters_split_at_semicolons() {
    let mut app = AppManager::new();
    assert_eq!(app.process_parameters(None), Vec::<String>::new());
    assert_eq!(
        app.process_parameters(Some("cd blank;clear".to_string())),
        vec!["cd blank".to_string(), "clear".to_string()]
    );
}

#[test]
fn hotkey_needs_all_three_modifiers() {
    let mut k = KeyBoardState::new();
    assert_eq!(AppManager::callback(&mut k, KeyEvent::KeyPress(Key::Num2)), None);
    AppManager::callback(&mut k, KeyEvent::KeyPress(Key::ControlLeft));
    AppManager::callback(&mut k, KeyEvent::KeyPress(Key::Alt));
    assert_eq!(AppManager::callback(&mut k, KeyEvent::KeyPress(Key::Num2)), None);
    AppManager::callback(&mut k, KeyEvent::KeyPress(Key::ShiftLeft));
    assert_eq!(AppManager::callback(&mut k, KeyEvent::KeyPress(Key::Num2)), Some("2".to_string()));
    assert_eq!(AppManager::callback(&mut k, KeyEvent::KeyPress(Key::Other)), None);
    assert_eq!(AppManager::callback(&mut k, KeyEvent::KeyRelease(Key::Num2)), None);
    AppManager::callback(&mut k, KeyEvent::KeyRelease(Key::Alt));
    assert_eq!(AppManager::callback(&mut k, KeyEvent::KeyPress(Key::Num7)), None);
}

#[test]
fn digit_keys_name_their_digit() {
    let keys = [
        (Key::Num0, "0"),
        (Key::Num1, "1"),
        (Key::Num5, "5"),
        (Key::Num9, "9"),
        (Key::ControlLeft, ""),
        (Key::Other, ""),
    ];
    for (key, text) in keys {
        assert_eq!(AppManager::key_to_string(key), text);
    }
}

#[test]
fn autostart_command_quotes_the_program() {
    assert_eq!(
        autostart_command(&"C:\\bin\\sev desk.exe".to_string(), &"cd blank;clear".to_string()),
        "\"C:\\bin\\sev desk.exe\" cd blank;clear"
    );
}

#[test]
fn blacklist_compares_paths() {
    let list = vec!["a/b".to_string(), "c".to_string()];
    assert!(is_blacklisted(&list, &"c".to_string()));
    assert!(!is_blacklisted(&list, &"a/b/c".to_string()));
    assert!(is_blacklisted(&list, &"a//b".to_string()));
    assert!(!is_blacklisted(&list, &"d".to_string()));
}

#[test]
fn joined_words_split_back() {
    let ws: Vec<String> = vec!["bind".to_string(), "x\u{A0}y".to_string(), "w".to_string()];
    let line = join_with(&ws, " ");
    assert_eq!(split_words(&line, Spacing::Ascii), ws);
    let plain: Vec<String> = vec!["a".to_string(), "bc".to_string()];
    assert_eq!(split_words(&join_with(&plain, " "), Spacing::Unicode), plain);
}

#[test]
fn current_desktop_name_is_the_last_component() {
    let p = Path::new("base").join("desktops").join("work").to_string_lossy().into_owned();
    assert_eq!(sevdesk::logic::current_desktop_name(&p), Some("work".to_string()));
    assert_eq!(sevdesk::logic::current_desktop_name(&"/".to_string()), None);
    assert_eq!(sevdesk::logic::current_desktop_name(&"..".to_string()), None);
}

#[test]
fn trim_drops_surrounding_whitespace_only() {
    assert_eq!(trim_text("  a b \t\n"), "a b");
    assert_eq!(trim_text("\u{3000}x\u{a0}"), "x");
    assert_eq!(trim_text("   "), "");
    assert_eq!(trim_text("ab"), "ab");
}

#[test]
fn copy_target_is_under_the_destination_unless_black_listed() {
    let black = vec![joined("to", "skip")];
    assert_eq!(copy_target(&black, &"to".to_string(), &"dir".to_string()), (joined("to", "dir"), true));
    assert_eq!(copy_target(&black, &"to".to_string(), &"skip".to_string()), (joined("to", "skip"), false));
}

#[test]
fn copy_step_for_each_kind_of_entry() {
    let black = vec![joined("from", "secret")];
    let from = "from".to_string();
    let new_dir = "to".to_string();
    assert_eq!(
        copy_step(&black, &from, &new_dir, &" a.txt ".to_string(), EntryKind::File),
        CopyStep::CopyFile { from: joined("from", "a.txt"), to: joined("to", "a.txt") }
    );
    assert_eq!(
        copy_step(&black, &from, &new_dir, &"sub".to_string(), EntryKind::Dir),
        CopyStep::CopyDir { from: joined("from", "sub"), name: "sub".to_string() }
    );
    assert_eq!(copy_step(&black, &from, &new_dir, &"link".to_string(), EntryKind::Other), CopyStep::Neither);
    assert_eq!(copy_step(&black, &from, &new_dir, &"secret".to_string(), EntryKind::File), CopyStep::Skip);
    assert_eq!(copy_step(&black, &from, &new_dir, &"secret ".to_string(), EntryKind::Dir), CopyStep::Skip);
}

#[test]
fn removal_deletes_entries_then_the_desktop_and_stops_at_a_failure() {
    let files = vec!["d/a".to_string(), "d/b".to_string()];
    let desk = "d".to_string();
    assert_eq!(removal_step(&files, &desk, 0, false), RemovalStep::Remove { path: "d/a".to_string() });
    assert_eq!(removal_step(&files, &desk, 1, false), RemovalStep::Remove { path: "d/b".to_string() });
    assert_eq!(removal_step(&files, &desk, 2, false), RemovalStep::Remove { path: "d".to_string() });
    assert_eq!(removal_step(&files, &desk, 3, false), RemovalStep::Done);
    assert_eq!(
        removal_step(&files, &desk, 1, true),
        RemovalStep::Fail { message: "Cannot delete file d/b".to_string() }
    );
    assert_eq!(
        removal_step(&files, &desk, 2, true),
        RemovalStep::Fail { message: "Cannot delete desktop d".to_string() }
    );
    assert_eq!(removal_step(&vec![], &desk, 0, false), RemovalStep::Remove { path: "d".to_string() });
}
