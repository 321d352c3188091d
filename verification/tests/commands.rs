use sevdesk::command_handler::CommandHandler;
use sevdesk::model::Action;
use sevdesk::shortcuts::{AppManager, Key};

fn handler() -> CommandHandler {
    CommandHandler::new("base".to_string(), vec![], vec![])
}

fn parse(command: &str) -> Result<Action, String> {
    handler().parse_command(command.to_string())
}

#[test]
fn empty_command_is_refused() {
    assert_eq!(parse(""), Err("No command".to_string()));
}

#[test]
fn blank_command_has_no_word() {
    assert_eq!(parse("  \t \n"), Err("There should be at least one word".to_string()));
}

#[test]
fn change_desk_and_its_short_form() {
    assert_eq!(parse("change_desk work"), Ok(Action::ChangeDesk { desk_name: "work".to_string() }));
    assert_eq!(parse("  cd   home\n"), Ok(Action::ChangeDesk { desk_name: "home".to_string() }));
    assert_eq!(parse("cd"), Err("There should be one more argument".to_string()));
    assert_eq!(parse("cd a b"), Err("Too many arguments".to_string()));
}

#[test]
fn create_and_remove_desk() {
    assert_eq!(parse("create_desk games"), Ok(Action::CreateDesk { desk_name: "games".to_string() }));
    assert_eq!(parse("create_desk"), Err("Too few arguments".to_string()));
    assert_eq!(parse("create_desk a b"), Err("Too many arguments".to_string()));
    assert_eq!(parse("remove_desk games"), Ok(Action::RemoveDesk { desk_name: "games".to_string() }));
    assert_eq!(parse("remove_desk"), Err("Too few arguments".to_string()));
}

#[test]
fn specific_desk_path_keeps_its_words() {
    assert_eq!(
        parse("create_specific_desk docs C:\\My   Documents\\x"),
        Ok(Action::CreateSpecificDesktop {
            desk_name: "docs".to_string(),
            path: "C:\\My Documents\\x".to_string()
        })
    );
    assert_eq!(
        parse("create_specific_desk docs"),
        Ok(Action::CreateSpecificDesktop { desk_name: "docs".to_string(), path: "".to_string() })
    );
    assert_eq!(parse("create_specific_desk"), Err("Too few arguments".to_string()));
}

#[test]
fn bind_and_unbind() {
    assert_eq!(
        parse("bind 1 work"),
        Ok(Action::CreateBind { bind_name: "1".to_string(), desk_name: "work".to_string() })
    );
    assert_eq!(parse("bind 1"), Err("Too few arguments".to_string()));
    assert_eq!(parse("bind"), Err("Too few arguments".to_string()));
    assert_eq!(parse("bind 1 work more"), Err("Too many arguments".to_string()));
    assert_eq!(parse("unbind 1"), Ok(Action::RemoveBind { bind_name: "1".to_string() }));
    assert_eq!(parse("unbind"), Err("Too few arguments".to_string()));
    assert_eq!(parse("unbind 1 2"), Err("Too many arguments".to_string()));
}

#[test]
fn listings_help_and_clear() {
    assert_eq!(parse("desk_list"), Ok(Action::DeskList));
    assert_eq!(parse("dl extra"), Ok(Action::DeskList));
    assert_eq!(parse("binds_list"), Ok(Action::BindsList));
    assert_eq!(parse("bind_list"), Ok(Action::BindsList));
    assert_eq!(parse("bl"), Ok(Action::BindsList));
    assert_eq!(parse("help"), Ok(Action::CommandsList));
    assert_eq!(parse("clear"), Ok(Action::ClearCommandLine));
}

#[test]
fn open_and_autostart() {
    assert_eq!(parse("open work"), Ok(Action::OpenInExplorer { desk_name: "work".to_string() }));
    assert_eq!(parse("open"), Err("Too few arguments".to_string()));
    assert_eq!(parse("open a b"), Err("Too many arguments".to_string()));
    assert_eq!(
        parse("add_to_autostart cd blank;clear"),
        Ok(Action::AddToAutoStart { commands: "cd blank;clear".to_string() })
    );
    assert_eq!(parse("add_to_autostart"), Ok(Action::AddToAutoStart { commands: "".to_string() }));
    assert_eq!(parse("remove_from_autostart"), Ok(Action::RemoveFromAutoStart));
}

#[test]
fn unknown_word_names_a_bind() {
    assert_eq!(parse("2"), Ok(Action::UseBind { bind_name: "2".to_string() }));
    assert_eq!(parse("work extra words"), Ok(Action::UseBind { bind_name: "work".to_string() }));
}

#[test]
fn unicode_space_does_not_split_a_command() {
    assert_eq!(
        parse("cd a\u{A0}b"),
        Ok(Action::ChangeDesk { desk_name: "a\u{A0}b".to_string() })
    );
}

#[test]
fn hotkey_digit_parses_as_bind() {
    for key in [Key::Num0, Key::Num3, Key::Num9] {
        let digit = AppManager::key_to_string(key);
        assert_eq!(parse(&digit), Ok(Action::UseBind { bind_name: digit.clone() }));
    }
}

#[test]
fn autostart_example_runs_change_then_clear() {
    let mut app = AppManager::new();
    let commands = app.process_parameters(Some("cd blank;clear".to_string()));
    let actions: Vec<_> = commands.into_iter().map(|c| parse(&c)).collect();
    assert_eq!(
        actions,
        vec![Ok(Action::ChangeDesk { desk_name: "blank".to_string() }), Ok(Action::ClearCommandLine)]
    );
}
