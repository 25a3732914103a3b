//! Small shared pieces: command phases, selector tokens, ordered sets.
use vstd::prelude::*;
use vstd::string::*;
use std::time::Duration;
use clap::ArgMatches;
use indexmap::{IndexMap, IndexSet};
use crate::config::Host;
use crate::ordered::{set_from_list, set_items};
use crate::sequences::{dedup, names_of, Name};

verus! {

/// The plan that the workers run from: for each host, by nickname and in
/// the order in which the hosts were found, its record and its commands by
/// phase, each a map from the command's name to its shell text.
pub type MultiplexMapType = IndexMap<String, (Host, IndexMap<CmdType, IndexMap<String, String>>)>;

/// Which of a request's two host selectors is meant.
#[derive(Clone, Copy, Debug, PartialEq, Eq, Hash, Structural)]
pub enum HostType {
    /// The primary hosts.
    Host,
    /// The hosts that run their sync commands first.
    SyncHost,
}

/// The phase of a host's work that a command belongs to.
#[derive(Clone, Copy, Debug, PartialEq, Eq, Hash, Structural)]
pub enum CmdType {
    /// Runs before the barrier.
    Cmd,
    /// Runs once the sync hosts are through.
    SyncCmd,
}

impl CmdType {
    /// The phase's label as text: `cmd` or `sync_cmd`.
    pub fn label(&self) -> (r: &'static str)
        ensures
            r@ == (match *self {
                CmdType::Cmd => "cmd"@,
                CmdType::SyncCmd => "sync_cmd"@,
            }),
    {
        match self {
            CmdType::Cmd => "cmd",
            CmdType::SyncCmd => "sync_cmd",
        }
    }
}

/// Whether a selector token excludes a host: it starts with `!`.
pub open spec fn is_negative(token: Name) -> bool {
    token.len() > 0 && token[0] == '!'
}

/// The host that a negative token excludes: the token without its `!`.
pub open spec fn excluded_name(token: Name) -> Option<Name> {
    if is_negative(token) {
        Some(token.subrange(1, token.len() as int))
    } else {
        None
    }
}

/// The host that `host` excludes, if it is a negative token.
pub fn unwanted_host(host: &str) -> (r: Option<String>)
    ensures
        r is Some <==> is_negative(host@),
        r matches Some(name) ==> Some(name@) == excluded_name(host@),
{
    if !host.is_empty() && host.get_char(0) == '!' {
        let n = host.unicode_len();
        Some(host.substring_char(1, n).to_owned())
    } else {
        None
    }
}

/// `clap::ArgMatches`, taken as it is: of what the parsed arguments hold
/// only `map_vals` speaks.
#[verifier::external_type_specification]
#[verifier::external_body]
pub struct ExArgMatches<'a>(ArgMatches<'a>);

/// The values that the parsed arguments hold for the argument `name`, in
/// the order in which they were given; `None` where that argument was not
/// given at all.
pub uninterp spec fn matched_values(matches: ArgMatches<'_>, name: Name) -> Option<Seq<Name>>;

/// What an optional list of strings holds.
pub open spec fn opt_names(items: Option<Vec<String>>) -> Option<Seq<Name>> {
    match items {
        Some(list) => Some(names_of(list@)),
        None => None,
    }
}

/// `ArgMatches::values_of_lossy`: the values of the argument `name`, each
/// one as a string of its own, or `None` where the argument was not given.
#[verifier::external_body]
pub(crate) fn map_vals(matches: &ArgMatches<'_>, name: &str) -> (r: Option<Vec<String>>)
    ensures
        opt_names(r) == matched_values(*matches, name@),
{
    matches.values_of_lossy(name)
}

/// The tokens that the parsed arguments hold for the selector `name`: its
/// values, each once and where it first occurs; none where the selector was
/// not given.
pub open spec fn selector_of(matches: ArgMatches<'_>, name: Name) -> Seq<Name> {
    match matched_values(matches, name) {
        Some(values) => dedup(values),
        None => Seq::empty(),
    }
}

/// The selector `name` of the parsed arguments as an ordered set.
pub fn selector(matches: &ArgMatches<'_>, name: &str) -> (r: IndexSet<String>)
    ensures
        set_items(r) == selector_of(*matches, name@),
{
    match map_vals(matches, name) {
        Some(values) => as_set(values),
        None => {
            let none: Vec<String> = Vec::new();
            assert(dedup(names_of(none@)) =~= Seq::<Name>::empty());
            as_set(none)
        },
    }
}

/// The ordered set of `items`: repeats leave, what came first stays first.
pub fn as_set(items: Vec<String>) -> (r: IndexSet<String>)
    ensures
        set_items(r) == dedup(names_of(items@)),
{
    set_from_list(items)
}

/// The whole seconds of a duration.
pub uninterp spec fn whole_seconds(d: Duration) -> u64;

/// The part of a duration below one second, in whole milliseconds.
pub uninterp spec fn subsec_milliseconds(d: Duration) -> u32;

/// `Duration::as_secs`: the number of whole seconds that the duration holds.
pub assume_specification[ Duration::as_secs ](d: &Duration) -> (r: u64)
    ensures
        r == whole_seconds(*d),
;

/// `Duration::subsec_millis`: the part below one second, in whole
/// milliseconds, which is under one thousand.
pub assume_specification[ Duration::subsec_millis ](d: &Duration) -> (r: u32)
    ensures
        r == subsec_milliseconds(*d),
        r < 1000,
;

/// `Duration::new`: with less than a second's worth of nanoseconds nothing
/// is carried over, so the seconds are `secs` and the part below one second
/// is `nanos`.
pub assume_specification[ Duration::new ](secs: u64, nanos: u32) -> (r: Duration)
    requires
        nanos < 1_000_000_000,
    ensures
        whole_seconds(r) == secs,
        subsec_milliseconds(r) == nanos / 1_000_000,
;

/// The digit `d` as text.
pub open spec fn digit(d: nat) -> Seq<char> {
    if d == 0 {
        "0"@
    } else if d == 1 {
        "1"@
    } else if d == 2 {
        "2"@
    } else if d == 3 {
        "3"@
    } else if d == 4 {
        "4"@
    } else if d == 5 {
        "5"@
    } else if d == 6 {
        "6"@
    } else if d == 7 {
        "7"@
    } else if d == 8 {
        "8"@
    } else {
        "9"@
    }
}

/// The number `n` in decimal digits.
pub open spec fn decimal(n: nat) -> Seq<char>
    decreases n,
{
    if n < 10 {
        digit(n)
    } else {
        decimal(n / 10) + digit(n % 10)
    }
}

/// How many decimal digits `n` has.
pub open spec fn digit_count(n: nat) -> nat
    decreases n,
{
    if n < 10 {
        1
    } else {
        digit_count(n / 10) + 1
    }
}

/// `count` zeros.
pub open spec fn zeros(count: nat) -> Seq<char>
    decreases count,
{
    if count == 0 {
        Seq::empty()
    } else {
        zeros((count - 1) as nat) + "0"@
    }
}

/// The number `n` in decimal digits, with zeros in front where it has fewer
/// than `width` digits.
pub open spec fn padded(n: nat, width: nat) -> Seq<char> {
    if digit_count(n) < width {
        zeros((width - digit_count(n)) as nat) + decimal(n)
    } else {
        decimal(n)
    }
}

/// An elapsed time of `seconds` whole seconds and `millis` milliseconds as
/// text: `00:00:SS.mmm` under a minute, `00:MM:SS.mmm` under an hour,
/// `H:MM:SS.mmm` under a day, and the seconds followed by `s` from then on.
pub open spec fn elapsed_text(seconds: nat, millis: nat) -> Seq<char> {
    if seconds < 60 {
        "00:00:"@ + padded(seconds, 2) + "."@ + padded(millis, 3)
    } else if seconds < 3600 {
        "00:"@ + padded(seconds / 60, 2) + ":"@ + padded(seconds % 60, 2) + "."@ + padded(
            millis,
            3,
        )
    } else if seconds < 86400 {
        decimal(seconds / 3600) + ":"@ + padded((seconds / 60) % 60, 2) + ":"@ + padded(
            seconds % 60,
            2,
        ) + "."@ + padded(millis, 3)
    } else {
        decimal(seconds) + "s"@
    }
}

/// The digit `d` as text.
fn digit_text(d: u64) -> (r: &'static str)
    requires
        d < 10,
    ensures
        r@ == digit(d as nat),
{
    if d == 0 {
        "0"
    } else if d == 1 {
        "1"
    } else if d == 2 {
        "2"
    } else if d == 3 {
        "3"
    } else if d == 4 {
        "4"
    } else if d == 5 {
        "5"
    } else if d == 6 {
        "6"
    } else if d == 7 {
        "7"
    } else if d == 8 {
        "8"
    } else {
        "9"
    }
}

/// Appends `n` in decimal digits to `out`.
fn push_decimal(out: &mut String, n: u64)
    ensures
        final(out)@ == old(out)@ + decimal(n as nat),
    decreases n,
{
    if n >= 10 {
        push_decimal(out, n / 10);
    }
    out.append(digit_text(n % 10));
    assert(out@ =~= old(out)@ + decimal(n as nat));
}

/// How many decimal digits `n` has.
fn count_digits(n: u64) -> (r: u64)
    ensures
        r == digit_count(n as nat),
        1 <= r <= 20,
    decreases n,
{
    if n < 10 {
        1
    } else {
        let rest = count_digits(n / 10);
        proof {
            lemma_digit_count_bound(n as nat);
        }
        rest + 1
    }
}

/// A number below 2^64 has at most twenty digits.
proof fn lemma_digit_count_bound(n: nat)
    requires
        n <= u64::MAX,
    ensures
        digit_count(n) <= 20,
{
    reveal_with_fuel(digit_count, 21);
}

/// Appends `n` to `out` in decimal digits, with zeros in front where it has
/// fewer than `width` digits.
fn push_padded(out: &mut String, n: u64, width: u64)
    ensures
        final(out)@ == old(out)@ + padded(n as nat, width as nat),
{
    let digits = count_digits(n);
    let mut k: u64 = digits;
    assert(out@ =~= old(out)@ + zeros(0));
    while k < width
        invariant
            digits <= k,
            digits < width ==> k <= width,
            digits >= width ==> k == digits,
            out@ == old(out)@ + zeros((k - digits) as nat),
        decreases width - k,
    {
        let ghost before = out@;
        out.append("0");
        k += 1;
        assert(out@ =~= old(out)@ + zeros((k - digits) as nat));
    }
    let ghost front = out@;
    push_decimal(out, n);
    proof {
        let lead = zeros((k - digits) as nat);
        assert(front == old(out)@ + lead);
        assert(out@ == front + decimal(n as nat));
        if digits < width {
            assert(k == width);
            assert(padded(n as nat, width as nat) == lead + decimal(n as nat));
        } else {
            assert(lead =~= Seq::<char>::empty());
            assert(padded(n as nat, width as nat) == decimal(n as nat));
        }
        assert(out@ =~= old(out)@ + padded(n as nat, width as nat));
    }
}

/// An elapsed time of `seconds` whole seconds and `millis` milliseconds as
/// text.
pub fn format_elapsed(seconds: u64, millis: u32) -> (r: String)
    ensures
        r@ == elapsed_text(seconds as nat, millis as nat),
{
    let mut out = String::new();
    let ms: u64 = millis as u64;
    if seconds < 60 {
        out.append("00:00:");
        push_padded(&mut out, seconds, 2);
        out.append(".");
        push_padded(&mut out, ms, 3);
    } else if seconds < 3600 {
        out.append("00:");
        push_padded(&mut out, seconds / 60, 2);
        out.append(":");
        push_padded(&mut out, seconds % 60, 2);
        out.append(".");
        push_padded(&mut out, ms, 3);
    } else if seconds < 86400 {
        let total_minutes: u64 = seconds / 60;
        push_decimal(&mut out, total_minutes / 60);
        out.append(":");
        push_padded(&mut out, total_minutes % 60, 2);
        out.append(":");
        push_padded(&mut out, seconds % 60, 2);
        out.append(".");
        push_padded(&mut out, ms, 3);
        assert(total_minutes / 60 == seconds / 3600) by (nonlinear_arith)
            requires
                total_minutes == seconds / 60,
        ;
    } else {
        push_decimal(&mut out, seconds);
        out.append("s");
    }
    assert(out@ =~= elapsed_text(seconds as nat, millis as nat));
    out
}

/// The duration as text: `00:00:SS.mmm` under a minute, `00:MM:SS.mmm`
/// under an hour, `H:MM:SS.mmm` under a day, and the whole seconds followed
/// by `s` from then on.
pub fn convert_duration(duration: &Duration) -> (r: String)
    ensures
        r@ == elapsed_text(
            whole_seconds(*duration) as nat,
            subsec_milliseconds(*duration) as nat,
        ),
{
    format_elapsed(duration.as_secs(), duration.subsec_millis())
}

} // verus!
