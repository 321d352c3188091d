use sevdesk::data_manager::{
    base_data_file_path, binds_file_contents, binds_file_path, get_binds, get_specific_desktops,
    load_info, specific_desktops_file_contents, specific_desktops_file_path,
};
use std::path::Path;
use sevdesk::model::SpecificDesktop;

fn pair(a: &str, b: &str) -> (String, String) {
    (a.to_string(), b.to_string())
}

#[test]
fn binds_are_read_line_by_line() {
    assert_eq!(get_binds(b"1 work\n2 home\n"), vec![pair("1", "work"), pair("2", "home")]);
    assert_eq!(get_binds(b"1 work"), vec![pair("1", "work")]);
    assert_eq!(get_binds(b""), vec![]);
}

#[test]
fn bind_desktop_is_the_other_words_put_together() {
    assert_eq!(get_binds(b"a b c\n"), vec![pair("a", "bc")]);
    assert_eq!(get_binds(b"solo\n"), vec![pair("solo", "")]);
    assert_eq!(get_binds(b"  x \t y  \n"), vec![pair("x", "y")]);
}

#[test]
fn binds_stop_at_an_empty_line() {
    assert_eq!(get_binds(b"1 a\n\n2 b\n"), vec![pair("1", "a")]);
    assert_eq!(get_binds(b"1 a\n   \n2 b\n"), vec![pair("1", "a")]);
}

#[test]
fn binds_skip_a_line_that_is_not_text() {
    assert_eq!(get_binds(b"1 a\n\xff\xfe\n2 b\n"), vec![pair("1", "a"), pair("2", "b")]);
}

#[test]
fn carriage_return_before_line_feed_is_dropped() {
    assert_eq!(get_binds(b"1 a\r\n2 b\r\n"), vec![pair("1", "a"), pair("2", "b")]);
}

#[test]
fn binds_file_round_trip() {
    let binds = vec![pair("1", "work"), pair("2", "home"), pair("x", "")];
    let text = binds_file_contents(&binds);
    assert_eq!(text, "1 work\n2 home\nx \n");
    assert_eq!(get_binds(text.as_bytes()), binds);
}

#[test]
fn specific_desktops_are_read_line_by_line() {
    let read = get_specific_desktops(b"docs>>C:\\Docs\nwork>>D:\\Work Stuff\n");
    assert_eq!(
        read,
        vec![
            SpecificDesktop::new("docs".to_string(), "C:\\Docs".to_string()),
            SpecificDesktop::new("work".to_string(), "D:\\Work Stuff".to_string()),
        ]
    );
}

#[test]
fn further_separators_turn_into_spaces() {
    let read = get_specific_desktops(b"n>>a>>b\nempty\n\n");
    assert_eq!(
        read,
        vec![
            SpecificDesktop::new("n".to_string(), "a b".to_string()),
            SpecificDesktop::new("empty".to_string(), "".to_string()),
            SpecificDesktop::new("".to_string(), "".to_string()),
        ]
    );
}

#[test]
fn specific_desktops_file_round_trip() {
    let desktops = vec![
        SpecificDesktop::new("docs".to_string(), "C:\\Docs".to_string()),
        SpecificDesktop::new("p".to_string(), "/home/u/p q".to_string()),
    ];
    let text = specific_desktops_file_contents(&desktops);
    assert_eq!(text, "docs>>C:\\Docs\np>>/home/u/p q\n");
    assert_eq!(get_specific_desktops(text.as_bytes()), desktops);
}

#[test]
fn load_info_reports_the_file_that_could_not_be_opened() {
    assert_eq!(
        load_info(None, Some(vec![])).err(),
        Some("Cannot open file to read binds".to_string())
    );
    assert_eq!(load_info(Some(vec![]), None).err(), Some("Cannot open a file".to_string()));
    let (binds, desktops) = load_info(Some(b"1 a\n".to_vec()), Some(b"d>>p\n".to_vec())).unwrap();
    assert_eq!(binds, vec![pair("1", "a")]);
    assert_eq!(desktops, vec![SpecificDesktop::new("d".to_string(), "p".to_string())]);
}

#[test]
fn binds_file_settles_after_one_rewrite() {
    let messy: &[u8] = b"  a   b  c \r\n\xff\nsolo\r\nx\xc2\xa0y z\n\nlater 1\n";
    let first = get_binds(messy);
    assert_eq!(first, vec![pair("a", "bc"), pair("solo", ""), pair("x", "yz")]);
    let rewritten = binds_file_contents(&first);
    assert_eq!(get_binds(rewritten.as_bytes()), first);
}

#[test]
fn desktop_names_with_a_single_gt_read_back() {
    let desks = vec![
        SpecificDesktop::new("a>b".to_string(), "C:\\x".to_string()),
        SpecificDesktop::new(">c".to_string(), ">d>".to_string()),
        SpecificDesktop::new("e".to_string(), "f\rg".to_string()),
    ];
    let text = specific_desktops_file_contents(&desks);
    assert_eq!(text, "a>b>>C:\\x\n>c>>>d>\ne>>f\rg\n");
    assert_eq!(get_specific_desktops(text.as_bytes()), desks);
}

#[test]
fn data_files_lie_under_the_base_path() {
    let joined = |a: &str, b: &str| Path::new(a).join(b).to_string_lossy().into_owned();
    assert_eq!(base_data_file_path(), "base_data_file.txt");
    assert_eq!(
        specific_desktops_file_path(&"base".to_string()),
        joined("base", "specific_desktops_data_file.txt")
    );
    assert_eq!(binds_file_path(&"base".to_string()), joined("base", "binds.txt"));
    assert_ne!(binds_file_path(&"base".to_string()), "base");
}
