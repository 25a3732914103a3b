use clap::{App, Arg};
use indexmap::IndexSet;
use libmussh::barrier::WorkerStep;
use libmussh::config::{Alias, Command, Host, Hosts, HostsCmds, Mussh};
use libmussh::error::MusshErrKind;
use libmussh::multiplex::Multiplex;
use libmussh::ssh::{
    endpoint, execute_on_localhost, execute_on_remote, failure_message, is_local, EngineStep,
    LocalEvent, LocalStep, Metrics, RemoteEvent, RemoteStep, Turn,
};
use libmussh::utils::{as_set, CmdType, HostType};
use std::time::Duration;

const MUSSH_TOML: &str = r#"[hostlist.most]
hostnames = ["m1", "m2", "m3", "m4"]
[hostlist.m1]
hostnames = ["m1"]
[hostlist.m2]
hostnames = ["m2"]
[hostlist.m3]
hostnames = ["m3"]
[hostlist.m4]
hostnames = ["m4"]
[hosts.m1]
hostname = "10.0.0.3"
username = "jozias"

[[hosts.m1.alias]]
command = "blah"
aliasfor = "ls"

[hosts.m2]
hostname = "10.0.0.4"
username = "jozias"

[hosts.m3]
hostname = "10.0.0.5"
username = "jozias"

[hosts.m4]
hostname = "10.0.0.60"
username = "jozias"

[cmd.ls]
command = "ls -al"
[cmd.uname]
command = "uname -a"
"#;

const MUSSH_FULL_TOML: &str = r#"[hostlist.most]
hostnames = ["m1", "m2", "m3", "m4"]
[hostlist.m1]
hostnames = ["m1"]
[hostlist.m2]
hostnames = ["m2"]
[hostlist.m3]
hostnames = ["m3"]
[hostlist.m4]
hostnames = ["m4"]
[hosts.m1]
hostname = "localhost"
username = "jozias"

[[hosts.m1.alias]]
command = "ls.mac"
aliasfor = "ls"

[hosts.m2]
hostname = "localhost"
username = "jozias"

[hosts.m3]
hostname = "localhost"
username = "jozias"

[hosts.m4]
hostname = "localhost"
username = "jozias"

[cmd.bar]
command = "sleep 1"
[cmd.ls]
command = "ls -al"
[cmd.uname]
command = "uname -a"
"#;

fn text(value: &toml::Value, key: &str) -> Option<String> {
    value.get(key).and_then(|v| v.as_str()).map(|v| v.to_string())
}

fn config_from_toml(source: &str) -> Mussh {
    let root: toml::Value = source.parse().expect("valid toml");
    let mut config = Mussh::new();
    if let Some(lists) = root.get("hostlist").and_then(|v| v.as_table()) {
        for (name, list) in lists {
            let names = list["hostnames"]
                .as_array()
                .expect("hostnames")
                .iter()
                .map(|v| v.as_str().expect("a string").to_string())
                .collect();
            config.insert_hostlist(name.clone(), Hosts::new(names));
        }
    }
    if let Some(hosts) = root.get("hosts").and_then(|v| v.as_table()) {
        for (name, host) in hosts {
            let alias = host.get("alias").and_then(|v| v.as_array()).map(|items| {
                items
                    .iter()
                    .map(|a| {
                        Alias::new(
                            text(a, "command").expect("command"),
                            text(a, "aliasfor").expect("aliasfor"),
                        )
                    })
                    .collect::<Vec<Alias>>()
            });
            let port = host.get("port").and_then(|v| v.as_integer()).map(|p| p as u16);
            config.insert_host(
                name.clone(),
                Host::new(
                    text(host, "hostname").expect("hostname"),
                    text(host, "pem"),
                    port,
                    text(host, "username").expect("username"),
                    alias,
                ),
            );
        }
    }
    if let Some(cmds) = root.get("cmd").and_then(|v| v.as_table()) {
        for (name, cmd) in cmds {
            config.insert_cmd(name.clone(), Command::new(text(cmd, "command").expect("command")));
        }
    }
    config
}

fn test_cli<'a, 'b>() -> App<'a, 'b> {
    App::new("libmussh")
        .arg(Arg::with_name("hosts").short("h").long("hosts").use_delimiter(true))
        .arg(Arg::with_name("commands").short("c").long("commands").use_delimiter(true))
        .arg(Arg::with_name("sync_hosts").short("s").long("sync_hosts").use_delimiter(true))
        .arg(
            Arg::with_name("sync_commands")
                .short("y")
                .long("sync_commands")
                .use_delimiter(true),
        )
}

fn names(items: &[&str]) -> Vec<String> {
    items.iter().map(|v| v.to_string()).collect()
}

fn string_set(items: &[&str]) -> IndexSet<String> {
    as_set(names(items))
}

fn order(set: &IndexSet<String>) -> Vec<String> {
    set.iter().cloned().collect()
}

#[test]
fn multiplex_hosts_from_cli() {
    let expected = Multiplex::from_lists(names(&["m1", "m2", "m3"]), vec![], vec![], vec![]);
    let cli = vec!["test", "-h", "m1,m2,m3,m1,m3"];
    let matches = test_cli().get_matches_from_safe(cli).expect("valid arguments");
    let actual = Multiplex::from(&matches);
    assert_eq!(actual, expected);
    assert_eq!(order(actual.hosts()), names(&["m1", "m2", "m3"]));
}

#[test]
fn multiplex_sync_hosts_from_cli() {
    let expected = Multiplex::from_lists(vec![], names(&["m1", "m2", "m3"]), vec![], vec![]);
    let cli = vec!["test", "-s", "m1,m2,m3,m1,m3"];
    let matches = test_cli().get_matches_from_safe(cli).expect("valid arguments");
    let actual = Multiplex::from(&matches);
    assert_eq!(actual, expected);
    assert_eq!(order(actual.sync_hosts()), names(&["m1", "m2", "m3"]));
}

#[test]
fn multiplex_commands_from_cli() {
    let expected = Multiplex::from_lists(vec![], vec![], names(&["foo", "bar", "baz"]), vec![]);
    let cli = vec!["test", "-c", "foo,bar,foo,foo,baz,bar"];
    let matches = test_cli().get_matches_from_safe(cli).expect("valid arguments");
    let actual = Multiplex::from(&matches);
    assert_eq!(actual, expected);
    assert_eq!(order(actual.commands()), names(&["foo", "bar", "baz"]));
}

#[test]
fn multiplex_sync_commands_from_cli() {
    let expected = Multiplex::from_lists(vec![], vec![], vec![], names(&["foo", "bar", "baz"]));
    let cli = vec!["test", "-y", "foo,bar,foo,foo,baz,bar"];
    let matches = test_cli().get_matches_from_safe(cli).expect("valid arguments");
    let actual = Multiplex::from(&matches);
    assert_eq!(actual, expected);
    assert_eq!(order(actual.sync_commands()), names(&["foo", "bar", "baz"]));
}

#[test]
fn correct_hosts() {
    let config = config_from_toml(MUSSH_TOML);
    let cli = vec!["test", "-h", "most,!m4", "-c", "ls", "-s", "m1,m2", "-y", "uname"];
    let matches = test_cli().get_matches_from_safe(cli).expect("valid arguments");
    let multiplex = Multiplex::from(&matches);

    let expected_hosts = string_set(&["m1", "m2", "m3"]);
    let expected_sync_hosts = string_set(&["m1", "m2"]);
    let expected_cmds = string_set(&["ls"]);
    let expected_sync_cmds = string_set(&["uname"]);
    let actual_hosts = multiplex.actual_hosts(&config, &HostType::Host);
    let actual_sync_hosts = multiplex.actual_hosts(&config, &HostType::SyncHost);
    let actual_cmds = multiplex.actual_cmds(&config, &CmdType::Cmd);
    let actual_sync_cmds = multiplex.actual_cmds(&config, &CmdType::SyncCmd);
    assert_eq!(expected_hosts, actual_hosts);
    assert_eq!(expected_sync_hosts, actual_sync_hosts);
    assert_eq!(expected_cmds, actual_cmds);
    assert_eq!(expected_sync_cmds, actual_sync_cmds);
    assert_eq!(order(&actual_hosts), names(&["m1", "m2", "m3"]));
    assert_eq!(order(&actual_sync_hosts), names(&["m1", "m2"]));
    multiplex.multiplex(&config);
}

#[test]
fn request_steps_one_by_one() {
    let config = config_from_toml(MUSSH_TOML);
    let request = Multiplex::from_lists(
        names(&["m2", "!m3", "most", "nope", "!zz"]),
        vec![],
        names(&["uname", "who", "ls"]),
        vec![],
    );
    assert_eq!(
        order(&request.expanded(&config, &HostType::Host)),
        names(&["m2", "m1", "m3", "m4"])
    );
    assert_eq!(order(&request.unwanted(&HostType::Host)), names(&["m3", "zz"]));
    assert_eq!(order(&request.unwanted(&HostType::SyncHost)), names(&[]));
    assert_eq!(order(&request.requested(&CmdType::Cmd)), names(&["uname", "who", "ls"]));
    assert_eq!(order(&request.requested(&CmdType::SyncCmd)), names(&[]));
    assert_eq!(
        order(&request.actual_hosts(&config, &HostType::Host)),
        names(&["m2", "m1", "m4"])
    );
    assert_eq!(order(&request.actual_cmds(&config, &CmdType::Cmd)), names(&["uname", "ls"]));
    let copy = request.clone();
    assert_eq!(copy, request);
    assert_eq!(order(copy.hosts()), names(&["m2", "!m3", "most", "nope", "!zz"]));
    assert_eq!(Multiplex::default(), Multiplex::from_lists(vec![], vec![], vec![], vec![]));
}

#[test]
fn ssh_multiplex() {
    let config = config_from_toml(MUSSH_FULL_TOML);
    let cli = vec!["test", "-h", "most", "-c", "ls,uname", "-s", "m3,m4", "-y", "bar"];
    let matches = test_cli().get_matches_from_safe(cli).expect("valid arguments");
    let hosts_cmds = HostsCmds::from(&matches);
    let hosts_map = config.to_host_map(&hosts_cmds);
    let multiplex = libmussh::ssh::Multiplex::default();
    let _ = multiplex.multiplex(hosts_cmds.sync_hosts(), hosts_map);
}

fn pairs(items: &[(&str, &str)]) -> Vec<(String, String)> {
    items.iter().map(|(k, v)| (k.to_string(), v.to_string())).collect()
}

#[test]
fn schedule_of_a_plan() {
    let config = config_from_toml(MUSSH_FULL_TOML);
    let hosts_cmds =
        HostsCmds::from_lists(names(&["most"]), names(&["m3", "m4"]), names(&["ls", "uname"]), names(&["bar"]));
    let hosts_map = config.to_host_map(&hosts_cmds);
    let schedule =
        libmussh::ssh::Multiplex::new().multiplex(hosts_cmds.sync_hosts(), hosts_map);
    assert_eq!(schedule.barrier(), 2);
    let workers = schedule.workers();
    assert_eq!(workers.len(), 4);
    let marks: Vec<(String, bool)> =
        workers.iter().map(|w| (w.hostname().clone(), w.sync_host())).collect();
    assert_eq!(
        marks,
        vec![
            ("m1".to_string(), false),
            ("m2".to_string(), false),
            ("m3".to_string(), true),
            ("m4".to_string(), true)
        ]
    );
    for worker in workers {
        assert_eq!(worker.host().hostname(), "localhost");
        assert_eq!(worker.pre_cmds(), &pairs(&[("ls", "ls -al"), ("uname", "uname -a")]));
        assert_eq!(worker.sync_cmds(), &pairs(&[("bar", "sleep 1")]));
    }
    assert_eq!(
        schedule.steps(),
        &vec![
            EngineStep::Spawn(0),
            EngineStep::Spawn(1),
            EngineStep::Spawn(2),
            EngineStep::Spawn(3),
            EngineStep::Receive,
            EngineStep::Receive,
            EngineStep::Receive,
            EngineStep::Receive
        ]
    );
    assert_eq!(
        workers[0].script(),
        vec![
            WorkerStep::Run(CmdType::Cmd, 0),
            WorkerStep::Run(CmdType::Cmd, 1),
            WorkerStep::AwaitSyncHosts,
            WorkerStep::Run(CmdType::SyncCmd, 0),
            WorkerStep::Send
        ]
    );
    assert_eq!(
        workers[2].script(),
        vec![
            WorkerStep::Run(CmdType::Cmd, 0),
            WorkerStep::Run(CmdType::Cmd, 1),
            WorkerStep::Run(CmdType::SyncCmd, 0),
            WorkerStep::SignalDone,
            WorkerStep::Send
        ]
    );
}

#[test]
fn schedule_one_at_a_time() {
    let config = config_from_toml(MUSSH_FULL_TOML);
    let hosts_cmds = HostsCmds::from_lists(names(&["m1", "m2"]), vec![], vec![], vec![]);
    let hosts_map = config.to_host_map(&hosts_cmds);
    let mut engine = libmussh::ssh::Multiplex::new();
    engine.set_synchronous(true);
    assert!(*engine.synchronous());
    assert!(!*engine.dry_run());
    let schedule = engine.multiplex(hosts_cmds.sync_hosts(), hosts_map);
    assert_eq!(
        schedule.steps(),
        &vec![EngineStep::Spawn(0), EngineStep::Receive, EngineStep::Spawn(1), EngineStep::Receive]
    );
}

#[test]
fn no_sync_hosts_no_barrier() {
    let config = config_from_toml(MUSSH_FULL_TOML);
    let hosts_cmds = HostsCmds::from_lists(names(&["most"]), vec![], names(&["ls"]), names(&["bar"]));
    let hosts_map = config.to_host_map(&hosts_cmds);
    let schedule =
        libmussh::ssh::Multiplex::new().multiplex(hosts_cmds.sync_hosts(), hosts_map);
    assert_eq!(schedule.barrier(), 0);
    assert_eq!(schedule.workers().len(), 4);
    for worker in schedule.workers() {
        assert!(!worker.sync_host());
        assert!(worker.script().contains(&WorkerStep::AwaitSyncHosts));
        assert!(!worker.script().contains(&WorkerStep::SignalDone));
    }
}

#[test]
fn dry_run_and_empty_request_run_nothing() {
    let config = config_from_toml(MUSSH_FULL_TOML);
    let hosts_cmds = HostsCmds::from_lists(names(&["most"]), names(&["m1"]), names(&["ls"]), vec![]);
    let mut engine = libmussh::ssh::Multiplex::new();
    engine.set_dry_run(true);
    let schedule = engine.multiplex(hosts_cmds.sync_hosts(), config.to_host_map(&hosts_cmds));
    assert_eq!(schedule.workers().len(), 0);
    assert_eq!(schedule.steps().len(), 0);
    assert_eq!(schedule.barrier(), 0);

    let nothing = HostsCmds::default();
    let plan = config.to_host_map(&nothing);
    assert!(plan.is_empty());
    let schedule = libmussh::ssh::Multiplex::new().multiplex(nothing.sync_hosts(), plan);
    assert_eq!(schedule.workers().len(), 0);
    assert_eq!(schedule.steps().len(), 0);
    assert_eq!(schedule.barrier(), 0);
}

fn remote_host(pem: Option<&str>, port: Option<u16>) -> Host {
    Host::new(
        "10.0.0.3".to_string(),
        pem.map(|p| p.to_string()),
        port,
        "jozias".to_string(),
        None,
    )
}

fn step<A>(turn: Turn<A>) -> A {
    match turn {
        Turn::Do(step) => step,
        Turn::Finish(_) => panic!("the command is over"),
    }
}

fn failure<A>(turn: Turn<A>) -> MusshErrKind {
    match turn {
        Turn::Finish(Err(error)) => error.kind().clone(),
        _ => panic!("no error"),
    }
}

fn metrics<A>(turn: Turn<A>) -> Metrics {
    match turn {
        Turn::Finish(Ok(metrics)) => metrics,
        _ => panic!("no metrics"),
    }
}

#[test]
fn remote_steps_in_order() {
    let host = remote_host(None, None);
    let on = |event| step(execute_on_remote(event, &host, "ls"));
    assert_eq!(on(RemoteEvent::Started), RemoteStep::OpenSession);
    assert_eq!(on(RemoteEvent::SessionOpened(true)), RemoteStep::Connect);
    assert_eq!(on(RemoteEvent::Connected(Ok(()))), RemoteStep::Handshake);
    assert_eq!(on(RemoteEvent::Handshaken(Ok(()))), RemoteStep::AuthenticateWithAgent);
    assert_eq!(on(RemoteEvent::AuthenticationTried(Ok(()))), RemoteStep::CheckAuthenticated);
    assert_eq!(on(RemoteEvent::AuthenticationChecked(true)), RemoteStep::OpenChannel);
    assert_eq!(on(RemoteEvent::ChannelOpened(Ok(()))), RemoteStep::Exec);
    assert_eq!(on(RemoteEvent::ExecStarted(Ok(()))), RemoteStep::ReadOutput);
    assert_eq!(on(RemoteEvent::OutputRead), RemoteStep::ReadExitStatus);
    let with_key = remote_host(Some("/home/jozias/.ssh/id_rsa"), Some(2222));
    assert_eq!(
        step(execute_on_remote(RemoteEvent::Handshaken(Ok(())), &with_key, "ls")),
        RemoteStep::AuthenticateWithKey
    );
    assert_eq!(endpoint(&with_key), ("10.0.0.3".to_string(), 2222));
    assert_eq!(endpoint(&host), ("10.0.0.3".to_string(), 22));
}

#[test]
fn remote_results() {
    let host = remote_host(None, None);
    let done = metrics(execute_on_remote(
        RemoteEvent::ExitStatusRead {
            status: Ok(0),
            duration: Duration::from_millis(1500),
            timestamp: 1_546_300_800_000,
        },
        &host,
        "ls",
    ));
    assert_eq!(
        done,
        Metrics::new(
            "10.0.0.3".to_string(),
            "ls".to_string(),
            Duration::from_millis(1500),
            1_546_300_800_000
        )
    );
    assert_eq!(done.hostname(), "10.0.0.3");
    assert_eq!(done.cmd_name(), "ls");
    assert_eq!(*done.duration(), Duration::from_millis(1500));
    assert_eq!(*done.timestamp(), 1_546_300_800_000);
    assert_eq!(done.clone(), done);

    let exit = |status| RemoteEvent::ExitStatusRead {
        status,
        duration: Duration::from_millis(3),
        timestamp: 7,
    };
    let said = "Failed to run '10.0.0.3' on 'ls'".to_string();
    assert_eq!(failure_message(&host, "ls"), said);
    assert_eq!(
        failure(execute_on_remote(exit(Ok(2)), &host, "ls")),
        MusshErrKind::NonZero(said.clone())
    );
    assert_eq!(
        failure(execute_on_remote(exit(Err("closed".to_string())), &host, "ls")),
        MusshErrKind::SshExec(said)
    );
}

#[test]
fn remote_failures() {
    let host = remote_host(None, None);
    let on = |event| failure(execute_on_remote(event, &host, "ls"));
    let no = |words: &str| Err(words.to_string());
    assert_eq!(on(RemoteEvent::SessionOpened(false)), MusshErrKind::SshSession);
    assert_eq!(on(RemoteEvent::Connected(no("refused"))), MusshErrKind::Io("refused".to_string()));
    assert_eq!(on(RemoteEvent::Handshaken(no("banner"))), MusshErrKind::Ssh2("banner".to_string()));
    assert_eq!(
        on(RemoteEvent::AuthenticationTried(no("no agent"))),
        MusshErrKind::SshAuthentication
    );
    assert_eq!(on(RemoteEvent::AuthenticationChecked(false)), MusshErrKind::SshAuthentication);
    let said = "Failed to run '10.0.0.3' on 'ls'".to_string();
    assert_eq!(on(RemoteEvent::ChannelOpened(no("no channel"))), MusshErrKind::SshExec(said.clone()));
    assert_eq!(on(RemoteEvent::ExecStarted(no("no exec"))), MusshErrKind::SshExec(said));
}

#[test]
fn local_steps_and_results() {
    let mut host = remote_host(None, None);
    assert!(!is_local(&host));
    host.set_hostname("localhost".to_string());
    assert!(is_local(&host));
    let on = |event| step(execute_on_localhost(event, &host, "uname"));
    assert_eq!(on(LocalEvent::Started), LocalStep::ReadShell);
    assert_eq!(on(LocalEvent::ShellRead(true)), LocalStep::Spawn);
    assert_eq!(on(LocalEvent::Spawned(true)), LocalStep::TakeStdout);
    assert_eq!(on(LocalEvent::StdoutTaken(true)), LocalStep::ReadOutput);
    assert_eq!(on(LocalEvent::OutputRead), LocalStep::Wait);

    let bad = |event| failure(execute_on_localhost(event, &host, "uname"));
    assert_eq!(bad(LocalEvent::ShellRead(false)), MusshErrKind::ShellNotFound);
    assert_eq!(bad(LocalEvent::Spawned(false)), MusshErrKind::Spawn);
    assert_eq!(
        bad(LocalEvent::StdoutTaken(false)),
        MusshErrKind::Str("Unable to get stdout".to_string())
    );
    let waited = |success| LocalEvent::Waited {
        success,
        duration: Duration::from_millis(20),
        timestamp: 99,
    };
    assert_eq!(bad(waited(Err("gone".to_string()))), MusshErrKind::Io("gone".to_string()));
    assert_eq!(
        bad(waited(Ok(false))),
        MusshErrKind::NonZero("Failed to run 'localhost' on 'uname'".to_string())
    );
    let done = metrics(execute_on_localhost(waited(Ok(true)), &host, "uname"));
    assert_eq!(
        done,
        Metrics::new("localhost".to_string(), "uname".to_string(), Duration::from_millis(20), 99)
    );
}

#[test]
fn metrics_start_at_nothing() {
    let none = Metrics::default();
    assert_eq!(none.hostname(), "");
    assert_eq!(none.cmd_name(), "");
    assert_eq!(*none.duration(), Duration::new(0, 0));
    assert_eq!(*none.timestamp(), 0);
}

/// Runs the workers' scripts one step at a time, taking the workers in the
/// given order over and over, and returns the steps in the order in which
/// they were taken, each with the number of its worker.
fn interleave(scripts: &[Vec<WorkerStep>], barrier: usize, turns: &[usize]) -> Vec<(usize, WorkerStep)> {
    let mut count = barrier;
    let mut taken = vec![0usize; scripts.len()];
    let mut trace = Vec::new();
    let total: usize = scripts.iter().map(|s| s.len()).sum();
    let mut idle = 0;
    while trace.len() < total {
        assert!(idle <= turns.len(), "the workers are stuck");
        idle += 1;
        for worker in turns {
            let script = &scripts[*worker];
            if taken[*worker] == script.len() {
                continue;
            }
            let step = script[taken[*worker]];
            match step {
                WorkerStep::AwaitSyncHosts if count > 0 => continue,
                WorkerStep::SignalDone => {
                    assert!(count > 0);
                    count -= 1;
                }
                _ => {}
            }
            taken[*worker] += 1;
            trace.push((*worker, step));
            idle = 0;
        }
    }
    assert_eq!(count, 0);
    trace
}

#[test]
fn barrier_orders_the_sync_phase() {
    let config = config_from_toml(MUSSH_FULL_TOML);
    let hosts_cmds = HostsCmds::from_lists(
        names(&["most"]),
        names(&["m3", "m4"]),
        names(&["ls", "uname"]),
        names(&["bar", "ls"]),
    );
    let hosts_map = config.to_host_map(&hosts_cmds);
    let schedule =
        libmussh::ssh::Multiplex::new().multiplex(hosts_cmds.sync_hosts(), hosts_map);
    let workers = schedule.workers();
    let scripts: Vec<Vec<WorkerStep>> = workers.iter().map(|w| w.script()).collect();
    for turns in [vec![0, 1, 2, 3], vec![3, 2, 1, 0], vec![0, 0, 0, 1, 1, 1, 2, 3], vec![2, 0, 3, 1]] {
        let trace = interleave(&scripts, schedule.barrier(), &turns);
        let last_signal = trace
            .iter()
            .rposition(|(_, step)| *step == WorkerStep::SignalDone)
            .expect("the sync hosts signal");
        for (at, (worker, step)) in trace.iter().enumerate() {
            if let WorkerStep::Run(CmdType::SyncCmd, _) = step {
                if workers[*worker].sync_host() {
                    assert!(at < last_signal);
                } else {
                    assert!(at > last_signal);
                }
            }
        }
    }
}
