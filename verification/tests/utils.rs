use indexmap::IndexSet;
use libmussh::error::{MusshErr, MusshErrKind};
use libmussh::ordered::is_wanted;
use libmussh::table::Table;
use libmussh::utils::{
    as_set, convert_duration, format_elapsed, unwanted_host, CmdType, HostType,
};
use std::time::Duration;

fn names(items: &[&str]) -> Vec<String> {
    items.iter().map(|v| v.to_string()).collect()
}

#[test]
fn strings_as_set() {
    let expected: IndexSet<String> =
        vec!["one", "two", "three"].into_iter().map(|v| v.to_string()).collect();
    let actual = names(&["one", "three", "three", "two", "one", "two", "two"]);
    assert_eq!(as_set(actual), expected);
}

#[test]
fn sets_keep_the_first_occurrence() {
    let set = as_set(names(&["one", "three", "three", "two", "one", "two", "two"]));
    assert_eq!(set.into_iter().collect::<Vec<String>>(), names(&["one", "three", "two"]));
    assert!(as_set(vec![]).is_empty());
}

#[test]
fn wanted_is_not_unwanted() {
    let unwanted = as_set(names(&["m4", "m2"]));
    assert!(!is_wanted(&unwanted, &"m4".to_string()));
    assert!(!is_wanted(&unwanted, &"m2".to_string()));
    assert!(is_wanted(&unwanted, &"m1".to_string()));
    assert!(is_wanted(&as_set(vec![]), &"m1".to_string()));
}

#[test]
fn unwanted_host_strips_the_mark() {
    assert_eq!(unwanted_host("!m4"), Some("m4".to_string()));
    assert_eq!(unwanted_host("m4"), None);
    assert_eq!(unwanted_host("m!4"), None);
    assert_eq!(unwanted_host(""), None);
    assert_eq!(unwanted_host("!"), Some("".to_string()));
    assert_eq!(unwanted_host("!!m4"), Some("!m4".to_string()));
    assert_eq!(unwanted_host("!h\u{f4}te"), Some("h\u{f4}te".to_string()));
}

#[test]
fn durations_as_text() {
    assert_eq!(convert_duration(&Duration::from_millis(0)), "00:00:00.000");
    assert_eq!(convert_duration(&Duration::from_millis(7)), "00:00:00.007");
    assert_eq!(convert_duration(&Duration::from_millis(999)), "00:00:00.999");
    assert_eq!(convert_duration(&Duration::from_millis(1_000)), "00:00:01.000");
    assert_eq!(convert_duration(&Duration::from_millis(59_999)), "00:00:59.999");
    assert_eq!(convert_duration(&Duration::from_millis(60_000)), "00:01:00.000");
    assert_eq!(convert_duration(&Duration::from_millis(61_050)), "00:01:01.050");
    assert_eq!(convert_duration(&Duration::from_millis(3_599_999)), "00:59:59.999");
    assert_eq!(convert_duration(&Duration::from_millis(3_600_000)), "1:00:00.000");
    assert_eq!(convert_duration(&Duration::from_millis(45_296_789)), "12:34:56.789");
    assert_eq!(convert_duration(&Duration::from_millis(86_399_999)), "23:59:59.999");
    assert_eq!(convert_duration(&Duration::from_secs(86_400)), "86400s");
    assert_eq!(convert_duration(&Duration::new(1_000_000, 999_999_999)), "1000000s");
    assert_eq!(convert_duration(&Duration::new(5, 123_456_789)), "00:00:05.123");
}

#[test]
fn elapsed_from_numbers() {
    assert_eq!(format_elapsed(0, 5), "00:00:00.005");
    assert_eq!(format_elapsed(75, 40), "00:01:15.040");
    assert_eq!(format_elapsed(7_322, 0), "2:02:02.000");
    assert_eq!(format_elapsed(u64::MAX, 0), "18446744073709551615s");
    assert_eq!(format_elapsed(1, 1_234), "00:00:01.1234");
}

#[test]
fn phases_have_labels() {
    assert_eq!(CmdType::Cmd.label(), "cmd");
    assert_eq!(CmdType::SyncCmd.label(), "sync_cmd");
    assert_ne!(HostType::Host, HostType::SyncHost);
}

#[test]
fn errors_say_where_they_come_from() {
    let from_kind = MusshErr::from(MusshErrKind::Io("broken pipe".to_string()));
    assert_eq!(from_kind.kind(), &MusshErrKind::Io("broken pipe".to_string()));
    assert_eq!(from_kind.message(), "libmussh error\nbroken pipe");
    let from_text = MusshErr::from("Unable to get stdout");
    assert_eq!(from_text.kind(), &MusshErrKind::Str("Unable to get stdout".to_string()));
    assert_eq!(from_text.message(), "libmussh error\n");
    assert_eq!(from_text.clone(), from_text);
    let shown = |kind: MusshErrKind| kind.detail();
    assert_eq!(shown(MusshErrKind::Clap("bad flag".to_string())), "bad flag");
    assert_eq!(shown(MusshErrKind::Ssh2("no route".to_string())), "no route");
    assert_eq!(shown(MusshErrKind::TomlDe("line 3".to_string())), "line 3");
    assert_eq!(shown(MusshErrKind::TomlSer("no table".to_string())), "no table");
    assert_eq!(shown(MusshErrKind::NonZero("Failed to run".to_string())), "");
    assert_eq!(shown(MusshErrKind::SshExec("Failed to run".to_string())), "");
    assert_eq!(shown(MusshErrKind::ShellNotFound), "");
    assert_eq!(shown(MusshErrKind::SshAuthentication), "");
    assert_eq!(shown(MusshErrKind::SshSession), "");
    assert_eq!(shown(MusshErrKind::Spawn), "");
}

#[test]
fn tables_store_by_name() {
    let mut table: Table<u32> = Table::new();
    assert_eq!(table.keys().len(), 0);
    assert_eq!(table.get("a"), None);
    table.insert("a".to_string(), 1);
    table.insert("b".to_string(), 2);
    table.insert("a".to_string(), 3);
    assert_eq!(table.keys().len(), 2);
    assert_eq!(table.get("a"), Some(&3));
    assert_eq!(table.get("b"), Some(&2));
    assert!(table.contains_key("b"));
    assert!(!table.contains_key("c"));
    assert_eq!(table.keys(), names(&["a", "b"]));
}

#[test]
fn tables_are_equal_by_content() {
    let mut first: Table<u32> = Table::new();
    first.insert("a".to_string(), 1);
    first.insert("b".to_string(), 2);
    let mut second: Table<u32> = Table::new();
    second.insert("b".to_string(), 2);
    second.insert("a".to_string(), 1);
    assert_eq!(first, second);
    assert_eq!(first.clone(), second);
    second.insert("a".to_string(), 3);
    assert_ne!(first, second);
    second.insert("a".to_string(), 1);
    second.insert("c".to_string(), 1);
    assert_ne!(first, second);
    assert_ne!(second, first);
    assert_ne!(first, Table::new());
    assert_eq!(Table::<u32>::new(), Table::new());
}
