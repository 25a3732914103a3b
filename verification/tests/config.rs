use clap::{App, Arg};
use indexmap::IndexMap;
use libmussh::config::{Alias, Command, Host, Hosts, HostsCmds, Mussh};
use libmussh::utils::{CmdType, MultiplexMapType};

const MUSSH_FULL_TOML: &str = r#"[hostlist.most]
hostnames = ["m1", "m2", "m3", "m4"]
[hostlist.m1]
hostnames = ["m1"]
[hostlist.m2]
hostnames = ["m2"]
[hostlist.m3]
hostnames = ["m3"]
[hostlist.m4]
hostnames = ["m4"]
[hosts.m1]
hostname = "10.0.0.3"
username = "jozias"

[[hosts.m1.alias]]
command = "ls.mac"
aliasfor = "ls"

[hosts.m2]
hostname = "10.0.0.4"
username = "jozias"

[hosts.m3]
hostname = "10.0.0.5"
username = "jozias"

[hosts.m4]
hostname = "10.0.0.60"
username = "jozias"

[cmd.bar]
command = "bar"
[cmd.ls]
command = "ls -al"
[cmd.uname]
command = "uname -a"
"#;

fn text(value: &toml::Value, key: &str) -> Option<String> {
    value.get(key).and_then(|v| v.as_str()).map(|v| v.to_string())
}

fn config_from_toml(source: &str) -> Mussh {
    let root: toml::Value = source.parse().expect("valid toml");
    let mut config = Mussh::new();
    if let Some(lists) = root.get("hostlist").and_then(|v| v.as_table()) {
        for (name, list) in lists {
            let names = list["hostnames"]
                .as_array()
                .expect("hostnames")
                .iter()
                .map(|v| v.as_str().expect("a string").to_string())
                .collect();
            config.insert_hostlist(name.clone(), Hosts::new(names));
        }
    }
    if let Some(hosts) = root.get("hosts").and_then(|v| v.as_table()) {
        for (name, host) in hosts {
            let alias = host.get("alias").and_then(|v| v.as_array()).map(|items| {
                items
                    .iter()
                    .map(|a| {
                        Alias::new(
                            text(a, "command").expect("command"),
                            text(a, "aliasfor").expect("aliasfor"),
                        )
                    })
                    .collect::<Vec<Alias>>()
            });
            let port = host.get("port").and_then(|v| v.as_integer()).map(|p| p as u16);
            config.insert_host(
                name.clone(),
                Host::new(
                    text(host, "hostname").expect("hostname"),
                    text(host, "pem"),
                    port,
                    text(host, "username").expect("username"),
                    alias,
                ),
            );
        }
    }
    if let Some(cmds) = root.get("cmd").and_then(|v| v.as_table()) {
        for (name, cmd) in cmds {
            config.insert_cmd(name.clone(), Command::new(text(cmd, "command").expect("command")));
        }
    }
    config
}

fn test_cli<'a, 'b>() -> App<'a, 'b> {
    App::new("libmussh")
        .arg(Arg::with_name("hosts").short("h").long("hosts").use_delimiter(true))
        .arg(Arg::with_name("commands").short("c").long("commands").use_delimiter(true))
        .arg(Arg::with_name("sync_hosts").short("s").long("sync_hosts").use_delimiter(true))
        .arg(
            Arg::with_name("sync_commands")
                .short("y")
                .long("sync_commands")
                .use_delimiter(true),
        )
}

fn host(address: &str, alias: Option<Vec<Alias>>) -> Host {
    Host::new(address.to_string(), None, None, "jozias".to_string(), alias)
}

fn host_m1() -> Host {
    host("10.0.0.3", Some(vec![Alias::new("ls.mac".to_string(), "ls".to_string())]))
}

fn host_m2() -> Host {
    host("10.0.0.4", None)
}

fn host_m3() -> Host {
    host("10.0.0.5", None)
}

fn all_cmds() -> IndexMap<String, String> {
    let mut cmds_map = IndexMap::new();
    let _ = cmds_map.insert("ls".to_string(), "ls -al".to_string());
    let _ = cmds_map.insert("uname".to_string(), "uname -a".to_string());
    let _ = cmds_map.insert("bar".to_string(), "bar".to_string());
    cmds_map
}

fn empty_cmd_map() -> IndexMap<CmdType, IndexMap<String, String>> {
    let mut cmd_map = IndexMap::new();
    let _ = cmd_map.insert(CmdType::Cmd, IndexMap::new());
    let _ = cmd_map.insert(CmdType::SyncCmd, IndexMap::new());
    cmd_map
}

fn all_cmd_map() -> IndexMap<CmdType, IndexMap<String, String>> {
    let mut cmd_map = IndexMap::new();
    let _ = cmd_map.insert(CmdType::Cmd, all_cmds());
    let _ = cmd_map.insert(CmdType::SyncCmd, IndexMap::new());
    cmd_map
}

fn sync_cmd_map() -> IndexMap<CmdType, IndexMap<String, String>> {
    let mut cmd_map = IndexMap::new();
    let _ = cmd_map.insert(CmdType::Cmd, IndexMap::new());
    let _ = cmd_map.insert(CmdType::SyncCmd, all_cmds());
    cmd_map
}

fn keys(plan: &MultiplexMapType) -> Vec<String> {
    plan.keys().cloned().collect()
}

fn names(items: &[&str]) -> Vec<String> {
    items.iter().map(|v| v.to_string()).collect()
}

#[test]
fn config_hosts_from_cli() {
    let mut expected = IndexMap::new();
    let _ = expected.insert("m1".to_string(), (host_m1(), empty_cmd_map()));
    let _ = expected.insert("m2".to_string(), (host_m2(), empty_cmd_map()));
    let _ = expected.insert("m3".to_string(), (host_m3(), empty_cmd_map()));
    let config = config_from_toml(MUSSH_FULL_TOML);
    let cli = vec!["test", "-h", "m1,m2,m3,m1,m3"];
    let matches = test_cli().get_matches_from_safe(cli).expect("valid arguments");
    let hosts_cmds = HostsCmds::from(&matches);
    let actual = config.to_host_map(&hosts_cmds);
    assert_eq!(actual, expected);
    assert_eq!(keys(&actual), names(&["m1", "m2", "m3"]));
}

#[test]
fn config_sync_hosts_from_cli() {
    let mut expected = IndexMap::new();
    let _ = expected.insert("m1".to_string(), (host_m1(), empty_cmd_map()));
    let _ = expected.insert("m2".to_string(), (host_m2(), empty_cmd_map()));
    let _ = expected.insert("m3".to_string(), (host_m3(), empty_cmd_map()));
    let config = config_from_toml(MUSSH_FULL_TOML);
    let cli = vec!["test", "-s", "m1,m2,m3,m1,m3"];
    let matches = test_cli().get_matches_from_safe(cli).expect("valid arguments");
    let hosts_cmds = HostsCmds::from(&matches);
    let actual = config.to_host_map(&hosts_cmds);
    assert_eq!(actual, expected);
    assert_eq!(keys(&actual), names(&["m1", "m2", "m3"]));
}

#[test]
fn config_commands_from_cli() {
    let mut expected = IndexMap::new();
    let _ = expected.insert("m1".to_string(), (host_m1(), all_cmd_map()));
    let config = config_from_toml(MUSSH_FULL_TOML);
    let cli = vec!["test", "-h", "m1", "-c", "ls,uname,bar,bar,ls,uname,bar"];
    let matches = test_cli().get_matches_from_safe(cli).expect("valid arguments");
    let hosts_cmds = HostsCmds::from(&matches);
    let actual = config.to_host_map(&hosts_cmds);
    assert_eq!(actual, expected);
    let pre: Vec<&String> = actual["m1"].1[&CmdType::Cmd].keys().collect();
    assert_eq!(pre, vec!["ls", "uname", "bar"]);
}

#[test]
fn config_sync_commands_from_cli() {
    let mut expected = IndexMap::new();
    let _ = expected.insert("m1".to_string(), (host_m1(), sync_cmd_map()));
    let config = config_from_toml(MUSSH_FULL_TOML);
    let cli = vec!["test", "-h", "m1", "-y", "ls,uname,bar,bar,ls,uname,bar"];
    let matches = test_cli().get_matches_from_safe(cli).expect("valid arguments");
    let hosts_cmds = HostsCmds::from(&matches);
    let actual = config.to_host_map(&hosts_cmds);
    assert_eq!(actual, expected);
    let post: Vec<&String> = actual["m1"].1[&CmdType::SyncCmd].keys().collect();
    assert_eq!(post, vec!["ls", "uname", "bar"]);
}

fn csv(arg: &str) -> Vec<String> {
    if arg.is_empty() {
        vec![]
    } else {
        arg.split(',').map(|v| v.to_string()).collect()
    }
}

fn request(hosts: &str, sync_hosts: &str, cmds: &str, sync_cmds: &str) -> HostsCmds {
    HostsCmds::from_lists(csv(hosts), csv(sync_hosts), csv(cmds), csv(sync_cmds))
}

fn phase(plan: &MultiplexMapType, hostname: &str, kind: CmdType) -> Vec<(String, String)> {
    plan[hostname].1[&kind].iter().map(|(k, v)| (k.clone(), v.clone())).collect()
}

fn pairs(items: &[(&str, &str)]) -> Vec<(String, String)> {
    items.iter().map(|(k, v)| (k.to_string(), v.to_string())).collect()
}

fn phases(plan: &MultiplexMapType, hostname: &str) -> Vec<CmdType> {
    plan[hostname].1.keys().cloned().collect()
}

fn with_m1_aliases(aliases: Vec<Alias>) -> Mussh {
    let mut config = config_from_toml(MUSSH_FULL_TOML);
    config.insert_host("m1".to_string(), host("10.0.0.3", Some(aliases)));
    config
}

fn alias(command: &str, aliasfor: &str) -> Alias {
    Alias::new(command.to_string(), aliasfor.to_string())
}

#[test]
fn repeated_hosts_are_planned_once() {
    let config = config_from_toml(MUSSH_FULL_TOML);
    let plan = config.to_host_map(&request("m1,m2,m3,m1,m3", "", "", ""));
    assert_eq!(keys(&plan), names(&["m1", "m2", "m3"]));
    for name in ["m1", "m2", "m3"] {
        assert_eq!(phases(&plan, name), vec![CmdType::Cmd, CmdType::SyncCmd]);
        assert_eq!(phase(&plan, name, CmdType::Cmd), pairs(&[]));
        assert_eq!(phase(&plan, name, CmdType::SyncCmd), pairs(&[]));
    }
    assert_eq!(plan["m1"].0, host_m1());
    assert_eq!(plan["m2"].0, host_m2());
}

#[test]
fn sync_only_hosts_are_planned() {
    let config = config_from_toml(MUSSH_FULL_TOML);
    let plan = config.to_host_map(&request("", "m1,m2,m3,m1,m3", "", ""));
    assert_eq!(keys(&plan), names(&["m1", "m2", "m3"]));
    for name in ["m1", "m2", "m3"] {
        assert_eq!(phases(&plan, name), vec![CmdType::Cmd, CmdType::SyncCmd]);
        assert_eq!(phase(&plan, name, CmdType::Cmd), pairs(&[]));
        assert_eq!(phase(&plan, name, CmdType::SyncCmd), pairs(&[]));
    }
}

#[test]
fn commands_keep_the_requested_order() {
    let config = config_from_toml(MUSSH_FULL_TOML);
    let plan = config.to_host_map(&request("m1", "", "ls,uname,bar,bar,ls,uname,bar", ""));
    assert_eq!(keys(&plan), names(&["m1"]));
    assert_eq!(
        phase(&plan, "m1", CmdType::Cmd),
        pairs(&[("ls", "ls -al"), ("uname", "uname -a"), ("bar", "bar")])
    );
    assert_eq!(phase(&plan, "m1", CmdType::SyncCmd), pairs(&[]));
}

#[test]
fn sync_commands_keep_the_requested_order() {
    let config = config_from_toml(MUSSH_FULL_TOML);
    let plan = config.to_host_map(&request("m1", "", "", "ls,uname,bar,bar,ls,uname,bar"));
    assert_eq!(keys(&plan), names(&["m1"]));
    assert_eq!(phase(&plan, "m1", CmdType::Cmd), pairs(&[]));
    assert_eq!(
        phase(&plan, "m1", CmdType::SyncCmd),
        pairs(&[("ls", "ls -al"), ("uname", "uname -a"), ("bar", "bar")])
    );
}

#[test]
fn exclusion_and_sync_hosts() {
    let config = config_from_toml(MUSSH_FULL_TOML);
    let hosts_cmds = request("most,!m4", "m1,m2", "ls", "uname");
    let primary: Vec<String> =
        config.actual_hosts(hosts_cmds.hosts()).into_iter().map(|h| h.0).collect();
    let sync: Vec<String> =
        config.actual_hosts(hosts_cmds.sync_hosts()).into_iter().map(|h| h.0).collect();
    assert_eq!(primary, names(&["m1", "m2", "m3"]));
    assert_eq!(sync, names(&["m1", "m2"]));
    let plan = config.to_host_map(&hosts_cmds);
    assert_eq!(keys(&plan), names(&["m1", "m2", "m3"]));
    for name in ["m1", "m2", "m3"] {
        assert_eq!(phase(&plan, name, CmdType::Cmd), pairs(&[("ls", "ls -al")]));
        assert_eq!(phase(&plan, name, CmdType::SyncCmd), pairs(&[("uname", "uname -a")]));
    }
}

#[test]
fn alias_rewrites_the_command() {
    let config = with_m1_aliases(vec![alias("bar", "ls")]);
    let plan = config.to_host_map(&request("m1,m2", "", "ls,uname,bar,bar,ls,uname,bar", ""));
    assert_eq!(
        phase(&plan, "m1", CmdType::Cmd),
        pairs(&[("ls", "bar"), ("uname", "uname -a"), ("bar", "bar")])
    );
    assert_eq!(
        phase(&plan, "m2", CmdType::Cmd),
        pairs(&[("ls", "ls -al"), ("uname", "uname -a"), ("bar", "bar")])
    );
}

#[test]
fn first_alias_for_a_command_decides() {
    let unknown_first = with_m1_aliases(vec![alias("ls.mac", "ls"), alias("bar", "ls")]);
    let ls = Command::new("ls -al".to_string());
    let m1 = unknown_first.hosts().get("m1").expect("m1").clone();
    assert_eq!(
        unknown_first.cmd_map_tuple(&ls, "ls", &m1),
        ("ls".to_string(), "ls -al".to_string())
    );
    let known_first = with_m1_aliases(vec![alias("uname", "ls"), alias("bar", "ls")]);
    let m1 = known_first.hosts().get("m1").expect("m1").clone();
    assert_eq!(
        known_first.cmd_map_tuple(&ls, "ls", &m1),
        ("ls".to_string(), "uname -a".to_string())
    );
    let other = with_m1_aliases(vec![alias("bar", "uname"), alias("uname", "ls")]);
    let m1 = other.hosts().get("m1").expect("m1").clone();
    assert_eq!(other.cmd_map_tuple(&ls, "ls", &m1), ("ls".to_string(), "uname -a".to_string()));
    assert_eq!(
        other.cmd_map_tuple(&ls, "ls", &host_m2()),
        ("ls".to_string(), "ls -al".to_string())
    );
}

#[test]
fn alias_is_not_followed_twice() {
    let config = with_m1_aliases(vec![alias("bar", "ls"), alias("uname", "bar")]);
    let plan = config.to_host_map(&request("m1", "", "ls,bar", ""));
    assert_eq!(phase(&plan, "m1", CmdType::Cmd), pairs(&[("ls", "bar"), ("bar", "uname -a")]));
}

#[test]
fn alias_to_unknown_command_changes_nothing() {
    let config = config_from_toml(MUSSH_FULL_TOML);
    let plan = config.to_host_map(&request("m1", "", "ls", "ls"));
    assert_eq!(phase(&plan, "m1", CmdType::Cmd), pairs(&[("ls", "ls -al")]));
    assert_eq!(phase(&plan, "m1", CmdType::SyncCmd), pairs(&[("ls", "ls -al")]));
}

#[test]
fn empty_request_empty_plan() {
    let config = config_from_toml(MUSSH_FULL_TOML);
    assert!(config.to_host_map(&HostsCmds::default()).is_empty());
    assert!(config.to_host_map(&request("", "", "ls", "uname")).is_empty());
}

#[test]
fn exclusion_without_match_changes_nothing() {
    let config = config_from_toml(MUSSH_FULL_TOML);
    let plain = config.to_host_map(&request("m1,m2", "", "ls", ""));
    for tokens in ["!m4,m1,m2", "m1,!m4,m2", "m1,m2,!m4", "m1,m2,!nobody"] {
        assert_eq!(config.to_host_map(&request(tokens, "", "ls", "")), plain);
        assert_eq!(keys(&config.to_host_map(&request(tokens, "", "ls", ""))), names(&["m1", "m2"]));
    }
}

#[test]
fn exclusions_count_wherever_they_stand() {
    let config = config_from_toml(MUSSH_FULL_TOML);
    for tokens in ["!m2,most,!m4", "most,!m4,!m2", "!m4,!m2,most", "!m4,most,!m2"] {
        let plan = config.to_host_map(&request(tokens, "", "", ""));
        assert_eq!(keys(&plan), names(&["m1", "m3"]));
    }
}

#[test]
fn excluding_every_host_leaves_nothing() {
    let config = config_from_toml(MUSSH_FULL_TOML);
    assert!(config.to_host_map(&request("most,!m1,!m2,!m3,!m4", "", "ls", "")).is_empty());
    let plan = config.to_host_map(&request("m1,!m1", "m2,!m1", "", ""));
    assert_eq!(keys(&plan), names(&["m2"]));
}

#[test]
fn primary_hosts_come_before_sync_only_hosts() {
    let config = config_from_toml(MUSSH_FULL_TOML);
    let plan = config.to_host_map(&request("m3,m1", "m4,m1,m2", "", ""));
    assert_eq!(keys(&plan), names(&["m3", "m1", "m4", "m2"]));
    let plan = config.to_host_map(&request("m3,most,m1", "", "", ""));
    assert_eq!(keys(&plan), names(&["m3", "m1", "m2", "m4"]));
}

#[test]
fn host_outside_every_list_is_unreachable() {
    let mut config = config_from_toml(MUSSH_FULL_TOML);
    config.insert_host("m9".to_string(), host("10.0.0.9", None));
    for tokens in ["m9", "most,m9", "most"] {
        let plan = config.to_host_map(&request(tokens, tokens, "ls", ""));
        assert!(!plan.contains_key("m9"));
    }
}

#[test]
fn host_must_name_a_list_and_have_a_record() {
    let mut config = config_from_toml(MUSSH_FULL_TOML);
    config.insert_hostlist(
        "all".to_string(),
        Hosts::new(names(&["m1", "lonely", "m2", "ghost"])),
    );
    config.insert_host("lonely".to_string(), host("10.0.0.7", None));
    config.insert_hostlist("ghost".to_string(), Hosts::new(names(&["ghost"])));
    let hosts_cmds = request("all", "", "", "");
    assert_eq!(config.selected(hosts_cmds.hosts()), names(&["m1", "m2", "ghost"]));
    let plan = config.to_host_map(&hosts_cmds);
    assert_eq!(keys(&plan), names(&["m1", "m2"]));
}

#[test]
fn negative_token_names_no_list() {
    let mut config = config_from_toml(MUSSH_FULL_TOML);
    config.insert_hostlist("!m2".to_string(), Hosts::new(names(&["m3"])));
    let hosts_cmds = request("m1,!m2", "", "", "");
    let expanded: Vec<String> = config.expanded(hosts_cmds.hosts()).into_iter().collect();
    assert_eq!(expanded, names(&["m1"]));
    assert_eq!(config.hostnames("!m2"), names(&["m3"]));
    let unwanted: Vec<String> = config.unwanted(hosts_cmds.hosts()).into_iter().collect();
    assert_eq!(unwanted, names(&["m2"]));
}

#[test]
fn resolving_twice_gives_the_same_plan() {
    let config = config_from_toml(MUSSH_FULL_TOML);
    let hosts_cmds = request("most,!m4", "m1,m2", "ls,bar", "uname");
    let first = config.to_host_map(&hosts_cmds);
    let second = config.clone().to_host_map(&hosts_cmds.clone());
    assert_eq!(first, second);
    assert_eq!(keys(&first), keys(&second));
    for name in keys(&first) {
        assert_eq!(phase(&first, &name, CmdType::Cmd), phase(&second, &name, CmdType::Cmd));
    }
}

#[test]
fn lookups_in_the_configuration() {
    let mut config = config_from_toml(MUSSH_FULL_TOML);
    assert_eq!(config.hostnames("most"), names(&["m1", "m2", "m3", "m4"]));
    assert_eq!(config.hostnames("nope"), names(&[]));
    assert_eq!(config.host_tuple("m2"), Some(("m2".to_string(), host_m2())));
    assert_eq!(config.host_tuple("most"), None);
    assert_eq!(
        config.cmd_tuple("uname"),
        Some(("uname".to_string(), Command::new("uname -a".to_string())))
    );
    assert_eq!(config.cmd_tuple("who"), None);
    assert_eq!(config.hostlist().keys().len(), 5);
    assert!(config.cmd().contains_key("ls"));
    assert!(!config.cmd().contains_key("most"));
    let mut lists: Vec<String> = config.configured_hostlists().into_iter().collect();
    lists.sort();
    assert_eq!(lists, names(&["m1", "m2", "m3", "m4", "most"]));
    let mut cmds: Vec<String> = config.configured_cmds().into_iter().collect();
    cmds.sort();
    assert_eq!(cmds, names(&["bar", "ls", "uname"]));

    config.insert_cmd("ls".to_string(), Command::new("ls".to_string()));
    assert_eq!(config.cmd().keys().len(), 3);
    assert_eq!(config.cmd().get("ls"), Some(&Command::new("ls".to_string())));
    assert_eq!(Mussh::default(), Mussh::new());
    assert_eq!(Mussh::new().hostnames("most"), names(&[]));
}

#[test]
fn records_hold_what_they_were_given() {
    let mut a = alias("blah", "dedah");
    assert_eq!(a.command(), "blah");
    assert_eq!(a.aliasfor(), "dedah");
    a.set_command("ls".to_string());
    a.set_aliasfor("dir".to_string());
    assert_eq!(a, alias("ls", "dir"));
    assert_eq!(a.clone(), a);

    let mut c = Command::new("blah".to_string());
    assert_eq!(c.command(), "blah");
    c.set_command("uname -a".to_string());
    assert_eq!(c, Command::new("uname -a".to_string()));

    let list = Hosts::new(names(&["m1", "m2", "m3"]));
    assert_eq!(list.hostnames(), &names(&["m1", "m2", "m3"]));
    assert_eq!(list.clone(), list);

    let mut h = Host::new(
        "10.0.0.3".to_string(),
        Some("abcdef".to_string()),
        Some(22),
        "jozias".to_string(),
        Some(vec![alias("blah", "dedah")]),
    );
    assert_eq!(h.hostname(), "10.0.0.3");
    assert_eq!(h.pem(), &Some("abcdef".to_string()));
    assert_eq!(h.port(), &Some(22));
    assert_eq!(h.username(), "jozias");
    assert_eq!(h.alias(), &Some(vec![alias("blah", "dedah")]));
    assert_eq!(h.clone(), h);
    h.set_hostname("localhost".to_string());
    h.set_username("root".to_string());
    h.set_alias(None);
    assert_eq!(
        h,
        Host::new(
            "localhost".to_string(),
            Some("abcdef".to_string()),
            Some(22),
            "root".to_string(),
            None
        )
    );
}

#[test]
fn requests_hold_ordered_sets() {
    let mut hosts_cmds = request("m1,m2,m1", "m2", "ls,ls", "uname");
    let order = |set: &indexmap::IndexSet<String>| set.iter().cloned().collect::<Vec<String>>();
    assert_eq!(order(hosts_cmds.hosts()), names(&["m1", "m2"]));
    assert_eq!(order(hosts_cmds.sync_hosts()), names(&["m2"]));
    assert_eq!(order(hosts_cmds.cmds()), names(&["ls"]));
    assert_eq!(order(hosts_cmds.sync_cmds()), names(&["uname"]));
    hosts_cmds.set_hosts(libmussh::utils::as_set(names(&["m3"])));
    hosts_cmds.set_sync_hosts(libmussh::utils::as_set(names(&["m4"])));
    hosts_cmds.set_cmds(libmussh::utils::as_set(names(&["bar"])));
    hosts_cmds.set_sync_cmds(libmussh::utils::as_set(names(&[])));
    assert_eq!(hosts_cmds, request("m3", "m4", "bar", ""));
    assert_eq!(HostsCmds::default(), request("", "", "", ""));
    let config = config_from_toml(MUSSH_FULL_TOML);
    assert_eq!(order(&config.requested(hosts_cmds.cmds())), names(&["bar"]));
    let cmds = config.actual_cmds(hosts_cmds.cmds());
    assert_eq!(cmds, vec![("bar".to_string(), Command::new("bar".to_string()))]);
    let shown = config.actual_cmd_map(&host_m1(), &cmds);
    assert_eq!(shown.into_iter().collect::<Vec<(String, String)>>(), pairs(&[("bar", "bar")]));
}

#[test]
fn configurations_are_equal_by_content() {
    let config = config_from_toml(MUSSH_FULL_TOML);
    let mut other = Mussh::new();
    other.insert_cmd("uname".to_string(), Command::new("uname -a".to_string()));
    other.insert_cmd("ls".to_string(), Command::new("ls -al".to_string()));
    other.insert_cmd("bar".to_string(), Command::new("bar".to_string()));
    other.insert_host("m4".to_string(), host("10.0.0.60", None));
    other.insert_host("m3".to_string(), host_m3());
    other.insert_host("m2".to_string(), host_m2());
    other.insert_host("m1".to_string(), host_m1());
    for name in ["m4", "m3", "m2", "m1"] {
        other.insert_hostlist(name.to_string(), Hosts::new(names(&[name])));
    }
    assert_ne!(config, other);
    other.insert_hostlist("most".to_string(), Hosts::new(names(&["m1", "m2", "m3", "m4"])));
    assert_eq!(config, other);
    other.insert_hostlist("most".to_string(), Hosts::new(names(&["m2", "m1", "m3", "m4"])));
    assert_ne!(config, other);
}
