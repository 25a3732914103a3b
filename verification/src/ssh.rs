//! Running a plan: what each worker does, and what comes back.
use vstd::prelude::*;
use vstd::string::*;
use std::time::Duration;
use indexmap::{IndexMap, IndexSet};
use crate::config::{Host, HostView};
use crate::error::{ErrView, MusshErr, MusshErrKind, MusshResult};
use crate::model::{
    commands_in, sync_count, worker_for, workers_for, PlanEntry, WorkerView,
};
use crate::ordered::{
    command_entries, command_map_to_list, pairs_of, phase_entries, phase_map_get, phase_view,
    plan_into_list, plan_view, set_contains, set_items,
};
use crate::sequences::{lemma_lookup_mapped, Name};
use crate::utils::{subsec_milliseconds, whole_seconds, CmdType, MultiplexMapType};

verus! {

/// The measurements of one command as contracts see them.
pub struct MetricsView {
    /// The address of the host that ran the command.
    pub hostname: Name,
    /// The command's name.
    pub cmd_name: Name,
    /// How long the command ran.
    pub duration: Duration,
    /// When the measurement was taken, in milliseconds of wall-clock time.
    pub timestamp: i64,
}

/// The measurements of one command that ended well.
#[derive(Debug, PartialEq, Eq)]
pub struct Metrics {
    hostname: String,
    cmd_name: String,
    duration: Duration,
    timestamp: i64,
}

impl View for Metrics {
    type V = MetricsView;

    closed spec fn view(&self) -> MetricsView {
        MetricsView {
            hostname: self.hostname@,
            cmd_name: self.cmd_name@,
            duration: self.duration,
            timestamp: self.timestamp,
        }
    }
}

impl Clone for Metrics {
    fn clone(&self) -> (r: Self)
        ensures
            r@ == self@,
    {
        Metrics {
            hostname: self.hostname.clone(),
            cmd_name: self.cmd_name.clone(),
            duration: self.duration,
            timestamp: self.timestamp,
        }
    }
}

impl Default for Metrics {
    fn default() -> (r: Self)
        ensures
            r@.hostname == Seq::<char>::empty(),
            r@.cmd_name == Seq::<char>::empty(),
            whole_seconds(r@.duration) == 0,
            subsec_milliseconds(r@.duration) == 0,
            r@.timestamp == 0,
    {
        Metrics {
            hostname: String::new(),
            cmd_name: String::new(),
            duration: Duration::new(0, 0),
            timestamp: 0,
        }
    }
}

impl Metrics {
    /// The measurements with these values.
    pub fn new(hostname: String, cmd_name: String, duration: Duration, timestamp: i64) -> (r: Self)
        ensures
            r@ == (MetricsView { hostname: hostname@, cmd_name: cmd_name@, duration, timestamp }),
    {
        Metrics { hostname, cmd_name, duration, timestamp }
    }

    /// The address of the host that ran the command.
    pub fn hostname(&self) -> (r: &String)
        ensures
            r@ == self@.hostname,
    {
        &self.hostname
    }

    /// The command's name.
    pub fn cmd_name(&self) -> (r: &String)
        ensures
            r@ == self@.cmd_name,
    {
        &self.cmd_name
    }

    /// How long the command ran.
    pub fn duration(&self) -> (r: &Duration)
        ensures
            *r == self@.duration,
    {
        &self.duration
    }

    /// When the measurement was taken.
    pub fn timestamp(&self) -> (r: &i64)
        ensures
            *r == self@.timestamp,
    {
        &self.timestamp
    }
}

/// What a worker does next for one command: another step, or nothing more,
/// the command's result being known.
#[derive(Debug)]
pub enum Turn<A> {
    /// Take this step and report how it went.
    Do(A),
    /// The command is over, with this result.
    Finish(MusshResult<Metrics>),
}

/// A turn as contracts see it.
pub enum TurnView<A> {
    /// Take this step and report how it went.
    Do(A),
    /// The command is over, with this result.
    Finish(Result<MetricsView, ErrView>),
}

impl<A> View for Turn<A> {
    type V = TurnView<A>;

    open spec fn view(&self) -> TurnView<A> {
        match *self {
            Turn::Do(step) => TurnView::Do(step),
            Turn::Finish(Ok(metrics)) => TurnView::Finish(Ok(metrics@)),
            Turn::Finish(Err(error)) => TurnView::Finish(Err(error@)),
        }
    }
}

/// What is said of a command that did not end well: that `cmd_name` failed
/// to run, and on which host.
pub open spec fn failure_text(hostname: Name, cmd_name: Name) -> Name {
    "Failed to run '"@ + hostname + "' on '"@ + cmd_name + "'"@
}

/// What is said of a command that did not end well.
pub fn failure_message(host: &Host, cmd_name: &str) -> (r: String)
    ensures
        r@ == failure_text(host@.hostname, cmd_name@),
{
    let mut out = String::from_str("Failed to run '");
    out.append(host.hostname().as_str());
    out.append("' on '");
    out.append(cmd_name);
    out.append("'");
    out
}

/// The measurements of the command `cmd_name` on `host`.
pub open spec fn metrics_of(host: HostView, cmd_name: Name, duration: Duration, timestamp: i64)
    -> MetricsView {
    MetricsView { hostname: host.hostname, cmd_name, duration, timestamp }
}

/// Whether commands for `host` run on this machine: its address is
/// `localhost`.
pub fn is_local(host: &Host) -> (r: bool)
    ensures
        r == (host@.hostname == "localhost"@),
{
    let local = String::from_str("localhost");
    *host.hostname() == local
}

/// The port on which SSH listens where a host names none.
pub const DEFAULT_PORT: u16 = 22;

/// The port to reach a host at, as contracts see it.
pub open spec fn port_of(host: HostView) -> u16 {
    match host.port {
        Some(port) => port,
        None => DEFAULT_PORT,
    }
}

/// Where to reach `host`: its address, and its port or else the usual one.
pub fn endpoint(host: &Host) -> (r: (String, u16))
    ensures
        r.0@ == host@.hostname,
        r.1 == port_of(host@),
{
    let port = match host.port() {
        Some(port) => *port,
        None => DEFAULT_PORT,
    };
    (host.hostname().clone(), port)
}

/// A step of running a command on a remote host.
#[derive(Clone, Copy, Debug, PartialEq, Eq, Structural)]
pub enum RemoteStep {
    /// Make an SSH session.
    OpenSession,
    /// Connect to the host's endpoint.
    Connect,
    /// Shake hands over the connection.
    Handshake,
    /// Log in as the host's user with the host's key file.
    AuthenticateWithKey,
    /// Log in as the host's user through the SSH agent.
    AuthenticateWithAgent,
    /// Ask the session whether the login was accepted.
    CheckAuthenticated,
    /// Open a channel on the session.
    OpenChannel,
    /// Start the command on the channel.
    Exec,
    /// Read the command's output to its end, line by line.
    ReadOutput,
    /// Read the command's exit status.
    ReadExitStatus,
}

/// How a step of running a command on a remote host went.
#[derive(Debug)]
pub enum RemoteEvent {
    /// Nothing was done yet.
    Started,
    /// A session was made, or could not be.
    SessionOpened(bool),
    /// The connection stands, or failed with these words.
    Connected(Result<(), String>),
    /// The handshake went through, or failed with these words.
    Handshaken(Result<(), String>),
    /// The login was tried and went through, or was turned down with these
    /// words.
    AuthenticationTried(Result<(), String>),
    /// The session says whether the login was accepted.
    AuthenticationChecked(bool),
    /// A channel is open, or that failed with these words.
    ChannelOpened(Result<(), String>),
    /// The command runs, or that failed with these words.
    ExecStarted(Result<(), String>),
    /// The output was read to its end.
    OutputRead,
    /// The exit status, or the words with which reading it failed; how long
    /// the command ran, and the time of day in milliseconds.
    ExitStatusRead { status: Result<i32, String>, duration: Duration, timestamp: i64 },
}

/// What follows the opening of the channel and the start of the command on
/// it: the step `next`, or where that failed the end with the error of a
/// command that could not be run, which says which command on which host.
pub open spec fn after_exec_step(
    outcome: Result<(), String>,
    next: RemoteStep,
    host: HostView,
    cmd_name: Name,
) -> TurnView<RemoteStep> {
    match outcome {
        Ok(_) => TurnView::Do(next),
        Err(_) => TurnView::Finish(Err(ErrView::SshExec(failure_text(host.hostname, cmd_name)))),
    }
}

/// What a worker does next for a command on a remote host, given how its
/// last step went.
pub open spec fn remote_turn(event: RemoteEvent, host: HostView, cmd_name: Name) -> TurnView<
    RemoteStep,
> {
    match event {
        RemoteEvent::Started => TurnView::Do(RemoteStep::OpenSession),
        RemoteEvent::SessionOpened(opened) => if opened {
            TurnView::Do(RemoteStep::Connect)
        } else {
            TurnView::Finish(Err(ErrView::SshSession))
        },
        RemoteEvent::Connected(outcome) => match outcome {
            Ok(_) => TurnView::Do(RemoteStep::Handshake),
            Err(words) => TurnView::Finish(Err(ErrView::Io(words@))),
        },
        RemoteEvent::Handshaken(outcome) => match outcome {
            Ok(_) => if host.pem is Some {
                TurnView::Do(RemoteStep::AuthenticateWithKey)
            } else {
                TurnView::Do(RemoteStep::AuthenticateWithAgent)
            },
            Err(words) => TurnView::Finish(Err(ErrView::Ssh2(words@))),
        },
        RemoteEvent::AuthenticationTried(outcome) => match outcome {
            Ok(_) => TurnView::Do(RemoteStep::CheckAuthenticated),
            Err(_) => TurnView::Finish(Err(ErrView::SshAuthentication)),
        },
        RemoteEvent::AuthenticationChecked(accepted) => if accepted {
            TurnView::Do(RemoteStep::OpenChannel)
        } else {
            TurnView::Finish(Err(ErrView::SshAuthentication))
        },
        RemoteEvent::ChannelOpened(outcome) => after_exec_step(
            outcome,
            RemoteStep::Exec,
            host,
            cmd_name,
        ),
        RemoteEvent::ExecStarted(outcome) => after_exec_step(
            outcome,
            RemoteStep::ReadOutput,
            host,
            cmd_name,
        ),
        RemoteEvent::OutputRead => TurnView::Do(RemoteStep::ReadExitStatus),
        RemoteEvent::ExitStatusRead { status, duration, timestamp } => match status {
            Ok(code) => if code == 0 {
                TurnView::Finish(Ok(metrics_of(host, cmd_name, duration, timestamp)))
            } else {
                TurnView::Finish(Err(ErrView::NonZero(failure_text(host.hostname, cmd_name))))
            },
            Err(_) => TurnView::Finish(
                Err(ErrView::SshExec(failure_text(host.hostname, cmd_name))),
            ),
        },
    }
}

/// The step `next`, or the end with the error of a command that could not
/// be run.
fn exec_step(outcome: Result<(), String>, next: RemoteStep, host: &Host, cmd_name: &str) -> (r:
    Turn<RemoteStep>)
    ensures
        r@ == after_exec_step(outcome, next, host@, cmd_name@),
{
    match outcome {
        Ok(_) => Turn::Do(next),
        Err(_) => Turn::Finish(
            Err(MusshErr::from(MusshErrKind::SshExec(failure_message(host, cmd_name)))),
        ),
    }
}

/// What a worker does next for the command `cmd_name` on the remote host
/// `host`, given how its last step went. The steps come in one order:
/// session, connection, handshake, login by key file where the host has
/// one and through the agent where it has none, the check of the login,
/// channel, command, output, exit status. A step that fails ends the
/// command with its error: no session, no connection, a handshake that the
/// transport gave up, a login that was turned down or that the session does
/// not confirm, a command that could not be run. A status of zero ends the
/// command with the measurements, any other status with an error that says
/// so.
pub fn execute_on_remote(event: RemoteEvent, host: &Host, cmd_name: &str) -> (r: Turn<RemoteStep>)
    ensures
        r@ == remote_turn(event, host@, cmd_name@),
{
    match event {
        RemoteEvent::Started => Turn::Do(RemoteStep::OpenSession),
        RemoteEvent::SessionOpened(opened) => {
            if opened {
                Turn::Do(RemoteStep::Connect)
            } else {
                Turn::Finish(Err(MusshErr::from(MusshErrKind::SshSession)))
            }
        },
        RemoteEvent::Connected(outcome) => match outcome {
            Ok(_) => Turn::Do(RemoteStep::Handshake),
            Err(words) => Turn::Finish(Err(MusshErr::from(MusshErrKind::Io(words)))),
        },
        RemoteEvent::Handshaken(outcome) => match outcome {
            Ok(_) => {
                if host.pem().is_some() {
                    Turn::Do(RemoteStep::AuthenticateWithKey)
                } else {
                    Turn::Do(RemoteStep::AuthenticateWithAgent)
                }
            },
            Err(words) => Turn::Finish(Err(MusshErr::from(MusshErrKind::Ssh2(words)))),
        },
        RemoteEvent::AuthenticationTried(outcome) => match outcome {
            Ok(_) => Turn::Do(RemoteStep::CheckAuthenticated),
            Err(_) => Turn::Finish(Err(MusshErr::from(MusshErrKind::SshAuthentication))),
        },
        RemoteEvent::AuthenticationChecked(accepted) => {
            if accepted {
                Turn::Do(RemoteStep::OpenChannel)
            } else {
                Turn::Finish(Err(MusshErr::from(MusshErrKind::SshAuthentication)))
            }
        },
        RemoteEvent::ChannelOpened(outcome) => exec_step(outcome, RemoteStep::Exec, host, cmd_name),
        RemoteEvent::ExecStarted(outcome) => exec_step(
            outcome,
            RemoteStep::ReadOutput,
            host,
            cmd_name,
        ),
        RemoteEvent::OutputRead => Turn::Do(RemoteStep::ReadExitStatus),
        RemoteEvent::ExitStatusRead { status, duration, timestamp } => match status {
            Ok(code) => {
                if code == 0 {
                    Turn::Finish(
                        Ok(
                            Metrics::new(
                                host.hostname().clone(),
                                cmd_name.to_owned(),
                                duration,
                                timestamp,
                            ),
                        ),
                    )
                } else {
                    Turn::Finish(
                        Err(MusshErr::from(MusshErrKind::NonZero(failure_message(host, cmd_name)))),
                    )
                }
            },
            Err(_) => Turn::Finish(
                Err(MusshErr::from(MusshErrKind::SshExec(failure_message(host, cmd_name)))),
            ),
        },
    }
}

/// A step of running a command on this machine.
#[derive(Clone, Copy, Debug, PartialEq, Eq, Structural)]
pub enum LocalStep {
    /// Read the variable `SHELL`.
    ReadShell,
    /// Start the shell on the command, with its output piped.
    Spawn,
    /// Take the pipe of the child's output.
    TakeStdout,
    /// Read the command's output to its end, line by line.
    ReadOutput,
    /// Wait for the child to end.
    Wait,
}

/// How a step of running a command on this machine went.
#[derive(Debug)]
pub enum LocalEvent {
    /// Nothing was done yet.
    Started,
    /// `SHELL` is set, or is not.
    ShellRead(bool),
    /// The child runs, or could not be started.
    Spawned(bool),
    /// The pipe of the child's output was there, or was not.
    StdoutTaken(bool),
    /// The output was read to its end.
    OutputRead,
    /// Whether the child ended well, or the words with which waiting for
    /// it failed; how long the command ran, and the time of day in
    /// milliseconds.
    Waited { success: Result<bool, String>, duration: Duration, timestamp: i64 },
}

/// What is said where the child has no pipe to read from.
pub open spec fn no_stdout_text() -> Name {
    "Unable to get stdout"@
}

/// What a worker does next for a command on this machine, given how its
/// last step went.
pub open spec fn local_turn(event: LocalEvent, host: HostView, cmd_name: Name) -> TurnView<
    LocalStep,
> {
    match event {
        LocalEvent::Started => TurnView::Do(LocalStep::ReadShell),
        LocalEvent::ShellRead(found) => if found {
            TurnView::Do(LocalStep::Spawn)
        } else {
            TurnView::Finish(Err(ErrView::ShellNotFound))
        },
        LocalEvent::Spawned(started) => if started {
            TurnView::Do(LocalStep::TakeStdout)
        } else {
            TurnView::Finish(Err(ErrView::Spawn))
        },
        LocalEvent::StdoutTaken(taken) => if taken {
            TurnView::Do(LocalStep::ReadOutput)
        } else {
            TurnView::Finish(Err(ErrView::Str(no_stdout_text())))
        },
        LocalEvent::OutputRead => TurnView::Do(LocalStep::Wait),
        LocalEvent::Waited { success, duration, timestamp } => match success {
            Ok(well) => if well {
                TurnView::Finish(Ok(metrics_of(host, cmd_name, duration, timestamp)))
            } else {
                TurnView::Finish(Err(ErrView::NonZero(failure_text(host.hostname, cmd_name))))
            },
            Err(words) => TurnView::Finish(Err(ErrView::Io(words@))),
        },
    }
}

/// What a worker does next for the command `cmd_name` on this machine,
/// given how its last step went. The steps come in one order: the shell,
/// the child, its pipe, its output, its end. Without a shell, a child or a
/// pipe the command ends with the error for that. A child that ended well
/// ends the command with the measurements, any other with an error that
/// says so.
pub fn execute_on_localhost(event: LocalEvent, host: &Host, cmd_name: &str) -> (r: Turn<LocalStep>)
    ensures
        r@ == local_turn(event, host@, cmd_name@),
{
    match event {
        LocalEvent::Started => Turn::Do(LocalStep::ReadShell),
        LocalEvent::ShellRead(found) => {
            if found {
                Turn::Do(LocalStep::Spawn)
            } else {
                Turn::Finish(Err(MusshErr::from(MusshErrKind::ShellNotFound)))
            }
        },
        LocalEvent::Spawned(started) => {
            if started {
                Turn::Do(LocalStep::TakeStdout)
            } else {
                Turn::Finish(Err(MusshErr::from(MusshErrKind::Spawn)))
            }
        },
        LocalEvent::StdoutTaken(taken) => {
            if taken {
                Turn::Do(LocalStep::ReadOutput)
            } else {
                Turn::Finish(Err(MusshErr::from("Unable to get stdout")))
            }
        },
        LocalEvent::OutputRead => Turn::Do(LocalStep::Wait),
        LocalEvent::Waited { success, duration, timestamp } => match success {
            Ok(well) => {
                if well {
                    Turn::Finish(
                        Ok(
                            Metrics::new(
                                host.hostname().clone(),
                                cmd_name.to_owned(),
                                duration,
                                timestamp,
                            ),
                        ),
                    )
                } else {
                    Turn::Finish(
                        Err(MusshErr::from(MusshErrKind::NonZero(failure_message(host, cmd_name)))),
                    )
                }
            },
            Err(words) => Turn::Finish(Err(MusshErr::from(MusshErrKind::Io(words)))),
        },
    }
}

/// One worker: a host, its commands for each phase in the order in which
/// they run, and whether it is a sync host.
#[derive(Debug)]
pub struct Worker {
    hostname: String,
    host: Host,
    pre_cmds: Vec<(String, String)>,
    sync_cmds: Vec<(String, String)>,
    sync_host: bool,
}

impl View for Worker {
    type V = WorkerView;

    closed spec fn view(&self) -> WorkerView {
        WorkerView {
            hostname: self.hostname@,
            host: self.host@,
            pre_cmds: pairs_of(self.pre_cmds@),
            sync_cmds: pairs_of(self.sync_cmds@),
            sync_host: self.sync_host,
        }
    }
}

impl Worker {
    /// The host's nickname.
    pub fn hostname(&self) -> (r: &String)
        ensures
            r@ == self@.hostname,
    {
        &self.hostname
    }

    /// The host's record.
    pub fn host(&self) -> (r: &Host)
        ensures
            r@ == self@.host,
    {
        &self.host
    }

    /// The commands that run before the barrier, name and shell text.
    pub fn pre_cmds(&self) -> (r: &Vec<(String, String)>)
        ensures
            pairs_of(r@) == self@.pre_cmds,
    {
        &self.pre_cmds
    }

    /// The commands that run after the barrier, name and shell text.
    pub fn sync_cmds(&self) -> (r: &Vec<(String, String)>)
        ensures
            pairs_of(r@) == self@.sync_cmds,
    {
        &self.sync_cmds
    }

    /// Whether the host is one of those that go first through the sync
    /// commands.
    pub fn sync_host(&self) -> (r: bool)
        ensures
            r == self@.sync_host,
    {
        self.sync_host
    }
}

/// The workers as contracts see them.
pub open spec fn workers_view(workers: Seq<Worker>) -> Seq<WorkerView> {
    workers.map_values(|w: Worker| w@)
}

/// A step of the engine itself.
#[derive(Clone, Copy, Debug, PartialEq, Eq, Structural)]
pub enum EngineStep {
    /// Start the worker with this number.
    Spawn(usize),
    /// Take one worker's results off the channel.
    Receive,
}

/// The engine's steps for `count` workers. Side by side: all are started,
/// then as many results are taken. One at a time: each worker is started
/// and its results are taken before the next one starts.
pub open spec fn steps_for(synchronous: bool, count: nat) -> Seq<EngineStep> {
    Seq::new(
        2 * count,
        |i: int|
            if synchronous {
                if i % 2 == 0 {
                    EngineStep::Spawn((i / 2) as usize)
                } else {
                    EngineStep::Receive
                }
            } else {
                if i < count {
                    EngineStep::Spawn(i as usize)
                } else {
                    EngineStep::Receive
                }
            },
    )
}

/// What the engine runs: the workers, the number that the barrier starts
/// at, and the engine's own steps.
#[derive(Debug)]
pub struct Schedule {
    barrier: usize,
    workers: Vec<Worker>,
    steps: Vec<EngineStep>,
}

impl Schedule {
    /// The number that the barrier starts at, before any worker runs.
    pub closed spec fn spec_barrier(&self) -> nat {
        self.barrier as nat
    }

    /// The workers as contracts see them.
    pub closed spec fn spec_workers(&self) -> Seq<WorkerView> {
        workers_view(self.workers@)
    }

    /// The engine's steps as contracts see them.
    pub closed spec fn spec_steps(&self) -> Seq<EngineStep> {
        self.steps@
    }

    /// The number that the barrier starts at, before any worker runs.
    pub fn barrier(&self) -> (r: usize)
        ensures
            r == self.spec_barrier(),
    {
        self.barrier
    }

    /// The workers, in the plan's order.
    pub fn workers(&self) -> (r: &Vec<Worker>)
        ensures
            workers_view(r@) == self.spec_workers(),
    {
        &self.workers
    }

    /// The engine's steps, in order.
    pub fn steps(&self) -> (r: &Vec<EngineStep>)
        ensures
            r@ == self.spec_steps(),
    {
        &self.steps
    }
}

/// How the engine runs a plan.
#[derive(Clone, Copy, Debug, PartialEq, Eq)]
pub struct Multiplex {
    dry_run: bool,
    synchronous: bool,
}

impl Default for Multiplex {
    fn default() -> (r: Self)
        ensures
            !r.is_dry_run(),
            !r.is_synchronous(),
    {
        Multiplex::new()
    }
}

/// The commands that `phases` holds for `kind`, as a list; none where it
/// has no such phase.
fn commands_of(
    phases: &IndexMap<CmdType, IndexMap<String, String>>,
    kind: CmdType,
) -> (r: Vec<(String, String)>)
    ensures
        pairs_of(r@) == commands_in(phase_view(*phases), kind),
{
    proof {
        let held = |m: IndexMap<String, String>| command_entries(m);
        lemma_lookup_mapped(phase_entries(*phases), held, kind);
        assert(phase_view(*phases) =~= phase_entries(*phases).map_values(
            |e: (CmdType, IndexMap<String, String>)| (e.0, held(e.1)),
        ));
    }
    match phase_map_get(phases, kind) {
        Some(commands) => command_map_to_list(commands),
        None => {
            let r: Vec<(String, String)> = Vec::new();
            assert(pairs_of(r@) =~= Seq::<(Name, Name)>::empty());
            r
        },
    }
}

/// The engine's steps for `count` workers.
fn engine_steps(synchronous: bool, count: usize) -> (r: Vec<EngineStep>)
    ensures
        r@ == steps_for(synchronous, count as nat),
{
    let mut steps: Vec<EngineStep> = Vec::new();
    let mut i: usize = 0;
    if synchronous {
        while i < count
            invariant
                i <= count,
                steps.len() == 2 * i,
                forall|j: int| 0 <= j < 2 * i ==> steps[j] == steps_for(true, count as nat)[j],
            decreases count - i,
        {
            steps.push(EngineStep::Spawn(i));
            steps.push(EngineStep::Receive);
            i += 1;
        }
    } else {
        while i < count
            invariant
                i <= count,
                steps.len() == i,
                forall|j: int| 0 <= j < i ==> steps[j] == steps_for(false, count as nat)[j],
            decreases count - i,
        {
            steps.push(EngineStep::Spawn(i));
            i += 1;
        }
        i = 0;
        while i < count
            invariant
                i <= count,
                steps.len() == count + i,
                forall|j: int|
                    0 <= j < count + i ==> steps[j] == steps_for(false, count as nat)[j],
            decreases count - i,
        {
            steps.push(EngineStep::Receive);
            i += 1;
        }
    }
    assert(steps@ =~= steps_for(synchronous, count as nat));
    steps
}

impl Multiplex {
    /// The engine that runs the workers side by side, and for real.
    pub fn new() -> (r: Self)
        ensures
            !r.is_dry_run(),
            !r.is_synchronous(),
    {
        Multiplex { dry_run: false, synchronous: false }
    }

    /// Whether nothing is to be run.
    pub closed spec fn is_dry_run(&self) -> bool {
        self.dry_run
    }

    /// Whether the workers run one at a time.
    pub closed spec fn is_synchronous(&self) -> bool {
        self.synchronous
    }

    /// Whether nothing is to be run.
    pub fn dry_run(&self) -> (r: &bool)
        ensures
            *r == self.is_dry_run(),
    {
        &self.dry_run
    }

    /// Whether the workers run one at a time.
    pub fn synchronous(&self) -> (r: &bool)
        ensures
            *r == self.is_synchronous(),
    {
        &self.synchronous
    }

    /// Sets whether nothing is to be run.
    pub fn set_dry_run(&mut self, dry_run: bool)
        ensures
            final(self).is_dry_run() == dry_run,
            final(self).is_synchronous() == old(self).is_synchronous(),
    {
        self.dry_run = dry_run;
    }

    /// Sets whether the workers run one at a time.
    pub fn set_synchronous(&mut self, synchronous: bool)
        ensures
            final(self).is_synchronous() == synchronous,
            final(self).is_dry_run() == old(self).is_dry_run(),
    {
        self.synchronous = synchronous;
    }

    /// What the engine runs for a plan. In a dry run: nothing. Else one
    /// worker for each host of the plan, in the plan's order, with the
    /// host's commands for each phase and the mark of a sync host where
    /// `sync_hosts` holds its nickname; a barrier that starts at the number
    /// of workers for sync hosts; and the engine's steps for that many
    /// workers.
    pub fn multiplex(self, sync_hosts: &IndexSet<String>, hosts_map: MultiplexMapType) -> (r:
        Schedule)
        ensures
            r.spec_workers() == if self.is_dry_run() {
                Seq::<WorkerView>::empty()
            } else {
                workers_for(set_items(*sync_hosts), plan_view(hosts_map))
            },
            r.spec_barrier() == sync_count(r.spec_workers()),
            r.spec_steps() == steps_for(self.is_synchronous(), r.spec_workers().len()),
    {
        let mut workers: Vec<Worker> = Vec::new();
        let mut barrier: usize = 0;
        if !self.dry_run {
            let ghost plan = plan_view(hosts_map);
            let ghost sync_names = set_items(*sync_hosts);
            let entries = plan_into_list(hosts_map);
            let mut i: usize = 0;
            assert(workers_view(workers@) =~= workers_for(sync_names, plan.take(0)));
            while i < entries.len()
                invariant
                    i <= entries.len(),
                    sync_names == set_items(*sync_hosts),
                    plan.len() == entries.len(),
                    forall|j: int|
                        0 <= j < entries.len() ==> #[trigger] plan[j] == (PlanEntry {
                            hostname: entries[j].0@,
                            host: entries[j].1.0@,
                            phases: phase_view(entries[j].1.1),
                        }),
                    workers.len() == i,
                    workers_view(workers@) == workers_for(sync_names, plan.take(i as int)),
                    barrier == sync_count(workers_view(workers@)),
                    barrier <= i,
                decreases entries.len() - i,
            {
                let ghost before = workers_view(workers@);
                let entry = &entries[i];
                let pre_cmds = commands_of(&entry.1.1, CmdType::Cmd);
                let sync_cmds = commands_of(&entry.1.1, CmdType::SyncCmd);
                let sync_host = set_contains(sync_hosts, &entry.0);
                if sync_host {
                    barrier += 1;
                }
                let worker = Worker {
                    hostname: entry.0.clone(),
                    host: entry.1.0.clone(),
                    pre_cmds,
                    sync_cmds,
                    sync_host,
                };
                proof {
                    assert(worker@ == worker_for(sync_names, plan[i as int]));
                }
                let ghost added = worker@;
                workers.push(worker);
                proof {
                    assert(workers_view(workers@) =~= before.push(added));
                    assert(workers_view(workers@).drop_last() =~= before);
                    assert(workers_for(sync_names, plan.take(i + 1)) =~= before.push(added));
                }
                i += 1;
            }
            assert(plan.take(entries.len() as int) =~= plan);
        }
        let steps = engine_steps(self.synchronous, workers.len());
        Schedule { barrier, workers, steps }
    }
}

} // verus!
