//! What can go wrong, as values.
use vstd::prelude::*;
use vstd::string::*;
use vstd::std_specs::convert::FromSpecImpl;
use crate::sequences::Name;

verus! {

/// A result whose error is a `MusshErr`.
pub type MusshResult<T> = Result<T, MusshErr>;

/// An error kind as contracts see it.
pub enum ErrView {
    /// The arguments could not be parsed; the parser's words.
    Clap(Name),
    /// Reading or writing failed; the system's words.
    Io(Name),
    /// A command ended with a status other than zero.
    NonZero(Name),
    /// `SHELL` is not set, so nothing can run on this machine.
    ShellNotFound,
    /// The SSH transport failed; its words.
    Ssh2(Name),
    /// The host did not accept the login.
    SshAuthentication,
    /// The remote command's status could not be read.
    SshExec(Name),
    /// No SSH session could be made.
    SshSession,
    /// The local command could not be started.
    Spawn,
    /// Some other failure, in words.
    Str(Name),
    /// The configuration could not be read; the reader's words.
    TomlDe(Name),
    /// The configuration could not be written; the writer's words.
    TomlSer(Name),
}

/// The kinds of error. A kind that comes from elsewhere carries what was
/// said there as text.
#[derive(Debug, PartialEq, Eq)]
pub enum MusshErrKind {
    /// The arguments could not be parsed.
    Clap(String),
    /// Reading or writing failed.
    Io(String),
    /// A command ended with a status other than zero.
    NonZero(String),
    /// `SHELL` is not set.
    ShellNotFound,
    /// The SSH transport failed.
    Ssh2(String),
    /// The host did not accept the login.
    SshAuthentication,
    /// The remote command's status could not be read.
    SshExec(String),
    /// No SSH session could be made.
    SshSession,
    /// The local command could not be started.
    Spawn,
    /// Some other failure, in words.
    Str(String),
    /// The configuration could not be read.
    TomlDe(String),
    /// The configuration could not be written.
    TomlSer(String),
}

impl View for MusshErrKind {
    type V = ErrView;

    open spec fn view(&self) -> ErrView {
        match *self {
            MusshErrKind::Clap(text) => ErrView::Clap(text@),
            MusshErrKind::Io(text) => ErrView::Io(text@),
            MusshErrKind::NonZero(text) => ErrView::NonZero(text@),
            MusshErrKind::ShellNotFound => ErrView::ShellNotFound,
            MusshErrKind::Ssh2(text) => ErrView::Ssh2(text@),
            MusshErrKind::SshAuthentication => ErrView::SshAuthentication,
            MusshErrKind::SshExec(text) => ErrView::SshExec(text@),
            MusshErrKind::SshSession => ErrView::SshSession,
            MusshErrKind::Spawn => ErrView::Spawn,
            MusshErrKind::Str(text) => ErrView::Str(text@),
            MusshErrKind::TomlDe(text) => ErrView::TomlDe(text@),
            MusshErrKind::TomlSer(text) => ErrView::TomlSer(text@),
        }
    }
}

/// What a kind of error shows of itself: a kind that comes from elsewhere
/// shows what was said there, any other kind shows nothing.
pub open spec fn detail_of(kind: ErrView) -> Name {
    match kind {
        ErrView::Clap(text) => text,
        ErrView::Io(text) => text,
        ErrView::Ssh2(text) => text,
        ErrView::TomlDe(text) => text,
        ErrView::TomlSer(text) => text,
        _ => Seq::empty(),
    }
}

/// What an error shows of itself: the library's heading, and on a line of
/// its own what its kind shows.
pub open spec fn message_of(kind: ErrView) -> Name {
    "libmussh error"@ + "\n"@ + detail_of(kind)
}

impl Clone for MusshErrKind {
    fn clone(&self) -> (r: Self)
        ensures
            r@ == self@,
    {
        match self {
            MusshErrKind::Clap(text) => MusshErrKind::Clap(text.clone()),
            MusshErrKind::Io(text) => MusshErrKind::Io(text.clone()),
            MusshErrKind::NonZero(text) => MusshErrKind::NonZero(text.clone()),
            MusshErrKind::ShellNotFound => MusshErrKind::ShellNotFound,
            MusshErrKind::Ssh2(text) => MusshErrKind::Ssh2(text.clone()),
            MusshErrKind::SshAuthentication => MusshErrKind::SshAuthentication,
            MusshErrKind::SshExec(text) => MusshErrKind::SshExec(text.clone()),
            MusshErrKind::SshSession => MusshErrKind::SshSession,
            MusshErrKind::Spawn => MusshErrKind::Spawn,
            MusshErrKind::Str(text) => MusshErrKind::Str(text.clone()),
            MusshErrKind::TomlDe(text) => MusshErrKind::TomlDe(text.clone()),
            MusshErrKind::TomlSer(text) => MusshErrKind::TomlSer(text.clone()),
        }
    }
}

impl MusshErrKind {
    /// What this kind shows of itself.
    pub fn detail(&self) -> (r: String)
        ensures
            r@ == detail_of(self@),
    {
        match self {
            MusshErrKind::Clap(text) => text.clone(),
            MusshErrKind::Io(text) => text.clone(),
            MusshErrKind::Ssh2(text) => text.clone(),
            MusshErrKind::TomlDe(text) => text.clone(),
            MusshErrKind::TomlSer(text) => text.clone(),
            _ => String::new(),
        }
    }
}

/// An error of this library.
#[derive(Debug, PartialEq, Eq)]
pub struct MusshErr {
    inner: MusshErrKind,
}

impl View for MusshErr {
    type V = ErrView;

    closed spec fn view(&self) -> ErrView {
        self.inner@
    }
}

impl Clone for MusshErr {
    fn clone(&self) -> (r: Self)
        ensures
            r@ == self@,
    {
        MusshErr { inner: self.inner.clone() }
    }
}

impl MusshErr {
    /// The kind of this error, which is also where it comes from.
    pub fn kind(&self) -> (r: &MusshErrKind)
        ensures
            r@ == self@,
    {
        &self.inner
    }

    /// What this error shows of itself: the library's heading, and on a
    /// line of its own what its kind shows.
    pub fn message(&self) -> (r: String)
        ensures
            r@ == message_of(self@),
    {
        let mut out = String::from_str("libmussh error");
        out.append("\n");
        let detail = self.inner.detail();
        out.append(detail.as_str());
        out
    }
}

impl From<MusshErrKind> for MusshErr {
    fn from(inner: MusshErrKind) -> (r: Self)
        ensures
            r@ == inner@,
    {
        MusshErr { inner }
    }
}

impl FromSpecImpl<MusshErrKind> for MusshErr {
    open spec fn obeys_from_spec() -> bool {
        false
    }

    open spec fn from_spec(inner: MusshErrKind) -> Self {
        arbitrary()
    }
}

impl From<&str> for MusshErr {
    fn from(inner: &str) -> (r: Self)
        ensures
            r@ == ErrView::Str(inner@),
    {
        MusshErr { inner: MusshErrKind::Str(inner.to_owned()) }
    }
}

impl FromSpecImpl<&str> for MusshErr {
    open spec fn obeys_from_spec() -> bool {
        false
    }

    open spec fn from_spec(inner: &str) -> Self {
        arbitrary()
    }
}

} // verus!
