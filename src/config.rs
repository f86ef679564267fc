//! The command line: target host, port, idle timeout and admission cap.
use vstd::prelude::*;
use crate::pool::{MaxConnections, Pool, Socket};

verus! {

pub const DEFAULT_PORT: u16 = 80;

/// Default idle timeout, in seconds.
pub const DEFAULT_TIMEOUT: u64 = 30;

/// Settings for a run.
pub struct Arguments {
    pub target: String,
    pub port: u16,
    /// Idle timeout in seconds.
    pub timeout: u64,
    pub max_connections: MaxConnections,
}

/// Why a command line gives no settings.
pub enum ArgError {
    /// `--help` was given.
    Help,
    /// No target host was given.
    MissingTarget,
    /// The named option was last and has no value.
    MissingValue(String),
    /// An option or a short flag that is not known.
    UnknownOption(String),
    /// A second bare argument, once the target is set.
    UnexpectedArgument(String),
    InvalidPort(String),
    InvalidTimeout(String),
    InvalidMax(String),
}

/// Settings as plain values: target, port, timeout in seconds, policy.
pub type Settings = (Seq<char>, u16, u64, MaxConnections);

pub enum ArgErrorView {
    Help,
    MissingTarget,
    MissingValue(Seq<char>),
    UnknownOption(Seq<char>),
    UnexpectedArgument(Seq<char>),
    InvalidPort(Seq<char>),
    InvalidTimeout(Seq<char>),
    InvalidMax(Seq<char>),
}

impl View for Arguments {
    type V = Settings;

    open spec fn view(&self) -> Settings {
        (self.target@, self.port, self.timeout, self.max_connections)
    }
}

impl View for ArgError {
    type V = ArgErrorView;

    open spec fn view(&self) -> ArgErrorView {
        match self {
            ArgError::Help => ArgErrorView::Help,
            ArgError::MissingTarget => ArgErrorView::MissingTarget,
            ArgError::MissingValue(s) => ArgErrorView::MissingValue(s@),
            ArgError::UnknownOption(s) => ArgErrorView::UnknownOption(s@),
            ArgError::UnexpectedArgument(s) => ArgErrorView::UnexpectedArgument(s@),
            ArgError::InvalidPort(s) => ArgErrorView::InvalidPort(s@),
            ArgError::InvalidTimeout(s) => ArgErrorView::InvalidTimeout(s@),
            ArgError::InvalidMax(s) => ArgErrorView::InvalidMax(s@),
        }
    }
}

pub open spec fn is_digits(s: Seq<char>) -> bool {
    s.len() > 0 && forall|i: int| 0 <= i < s.len() ==> '0' <= #[trigger] s[i] <= '9'
}

pub open spec fn digits_value(s: Seq<char>) -> nat
    decreases s.len(),
{
    if s.len() == 0 {
        0
    } else {
        digits_value(s.drop_last()) * 10 + ((s.last() as u32 - '0' as u32) as nat)
    }
}

/// Decimal text of an unsigned integer: digits, with an optional leading `+`.
pub open spec fn is_unsigned_text(s: Seq<char>) -> bool {
    is_digits(s) || (s.len() > 0 && s[0] == '+' && is_digits(s.drop_first()))
}

pub open spec fn unsigned_value(s: Seq<char>) -> nat {
    if s.len() > 0 && s[0] == '+' {
        digits_value(s.drop_first())
    } else {
        digits_value(s)
    }
}

/// The number that decimal text `s` denotes, where it is one of at most `max`.
pub open spec fn parsed(s: Seq<char>, max: nat) -> Option<nat> {
    if is_unsigned_text(s) && unsigned_value(s) <= max {
        Some(unsigned_value(s))
    } else {
        None
    }
}

/// Relies on `str::parse::<u16>`: decimal digits with an optional `+`, in range.
#[verifier::external_body]
fn parse_u16(s: &String) -> (r: Option<u16>)
    ensures
        r matches Some(v) ==> parsed(s@, u16::MAX as nat) == Some(v as nat),
        r is None ==> parsed(s@, u16::MAX as nat) is None,
{
    s.parse::<u16>().ok()
}

/// Relies on `str::parse::<u32>`: decimal digits with an optional `+`, in range.
#[verifier::external_body]
fn parse_u32(s: &String) -> (r: Option<u32>)
    ensures
        r matches Some(v) ==> parsed(s@, u32::MAX as nat) == Some(v as nat),
        r is None ==> parsed(s@, u32::MAX as nat) is None,
{
    s.parse::<u32>().ok()
}

/// Relies on `str::parse::<u64>`: decimal digits with an optional `+`, in range.
#[verifier::external_body]
fn parse_u64(s: &String) -> (r: Option<u64>)
    ensures
        r matches Some(v) ==> parsed(s@, u64::MAX as nat) == Some(v as nat),
        r is None ==> parsed(s@, u64::MAX as nat) is None,
{
    s.parse::<u64>().ok()
}

/// Relies on `str::chars`, collected: the characters of `s` in order.
#[verifier::external_body]
fn chars_of(s: &String) -> (r: Vec<char>)
    ensures
        r@ == s@,
{
    s.chars().collect()
}

/// Relies on `String: FromIterator<char>`: the string of the characters `c`.
#[verifier::external_body]
fn string_of(c: &Vec<char>) -> (r: String)
    ensures
        r@ == c@,
{
    c.iter().collect()
}

/// The long option that a short flag stands for.
pub open spec fn long_name(flag: Seq<char>) -> Option<Seq<char>> {
    if flag == "h"@ {
        Some("target"@)
    } else if flag == "p"@ {
        Some("port"@)
    } else if flag == "t"@ {
        Some("timeout"@)
    } else if flag == "m"@ {
        Some("max"@)
    } else {
        None
    }
}

/// The settings after option `opt` is given value `v`.
pub open spec fn apply_option(st: Settings, opt: Seq<char>, v: Seq<char>) -> Result<Settings, ArgErrorView> {
    if opt == "target"@ || opt == "host"@ {
        Ok((v, st.1, st.2, st.3))
    } else if opt == "port"@ {
        match parsed(v, u16::MAX as nat) {
            Some(p) => Ok((st.0, p as u16, st.2, st.3)),
            None => Err(ArgErrorView::InvalidPort(v)),
        }
    } else if opt == "timeout"@ {
        match parsed(v, u64::MAX as nat) {
            Some(t) => Ok((st.0, st.1, t as u64, st.3)),
            None => Err(ArgErrorView::InvalidTimeout(v)),
        }
    } else if opt == "max"@ {
        if v == "infinite"@ || v == "ininite"@ {
            Ok((st.0, st.1, st.2, MaxConnections::Infinite))
        } else {
            match parsed(v, u32::MAX as nat) {
                Some(m) => Ok((st.0, st.1, st.2, MaxConnections::Max(m as u32))),
                None => Err(ArgErrorView::InvalidMax(v)),
            }
        }
    } else {
        Err(ArgErrorView::UnknownOption(opt))
    }
}

/// Option `opt` takes the argument at `i` as its value, then parsing goes on.
pub open spec fn take_value(args: Seq<Seq<char>>, i: int, st: Settings, opt: Seq<char>) -> Result<Settings, ArgErrorView>
    decreases args.len() - i, 0int,
{
    if i >= args.len() {
        Err(ArgErrorView::MissingValue(opt))
    } else {
        match apply_option(st, opt, args[i]) {
            Ok(next) => parse_from(args, i + 1, next),
            Err(e) => Err(e),
        }
    }
}

/// The result of reading `args` from index `i` on, with settings `st` so far.
pub open spec fn parse_from(args: Seq<Seq<char>>, i: int, st: Settings) -> Result<Settings, ArgErrorView>
    decreases args.len() - i, 1int,
{
    if i < 0 || i >= args.len() {
        if st.0.len() == 0 {
            Err(ArgErrorView::MissingTarget)
        } else {
            Ok(st)
        }
    } else {
        let a = args[i];
        if a.len() >= 2 && a[0] == '-' && a[1] == '-' {
            if a == "--help"@ {
                Err(ArgErrorView::Help)
            } else {
                take_value(args, i + 1, st, a.skip(2))
            }
        } else if a.len() >= 1 && a[0] == '-' {
            match long_name(a.skip(1)) {
                Some(opt) => take_value(args, i + 1, st, opt),
                None => Err(ArgErrorView::UnknownOption(a.skip(1))),
            }
        } else if st.0.len() == 0 {
            parse_from(args, i + 1, (a, st.1, st.2, st.3))
        } else {
            Err(ArgErrorView::UnexpectedArgument(a))
        }
    }
}

pub open spec fn default_settings() -> Settings {
    (Seq::empty(), DEFAULT_PORT, DEFAULT_TIMEOUT, MaxConnections::Infinite)
}

/// The settings that a command line `args` gives; `args[0]`, the program, is skipped.
pub open spec fn settings_of(args: Seq<Seq<char>>) -> Result<Settings, ArgErrorView> {
    parse_from(args, 1, default_settings())
}

pub open spec fn views(args: Seq<String>) -> Seq<Seq<char>> {
    args.map_values(|s: String| s@)
}

/// `secs` seconds in milliseconds, held at the largest `u64`.
pub open spec fn millis_of(secs: u64) -> u64 {
    if secs * 1000 > u64::MAX {
        u64::MAX
    } else {
        (secs * 1000) as u64
    }
}

impl Arguments {
    /// An empty pool with these settings' timeout and admission policy.
    pub fn new_pool(&self) -> (r: Pool)
        ensures
            r.wf(),
            r.sockets_spec() == Seq::<Socket>::empty(),
            r.timeout_spec() == millis_of(self.timeout),
            r.max_spec() == self.max_connections,
            r.next_id_spec() == 0,
            r.stats_spec().dead_spec() == 0,
            r.stats_spec().failed_spec() == 0,
            r.stats_spec().history_spec() == Seq::<u64>::empty(),
    {
        let ms = if self.timeout > u64::MAX / 1000 {
            u64::MAX
        } else {
            self.timeout * 1000
        };
        Pool::new(ms, self.max_connections)
    }
}

/// The characters of `a` from index `k` on.
fn skip_chars(a: &Vec<char>, k: usize) -> (r: Vec<char>)
    requires
        k <= a@.len(),
    ensures
        r@ == a@.skip(k as int),
{
    let mut r: Vec<char> = Vec::new();
    let mut i: usize = k;
    while i < a.len()
        invariant
            k <= i <= a@.len(),
            r@ == a@.subrange(k as int, i as int),
        decreases a@.len() - i,
    {
        r.push(a[i]);
        i = i + 1;
    }
    assert(r@ =~= a@.skip(k as int));
    r
}

/// Gives option `opt` the value `v`: a target, a port, a timeout in seconds,
/// or `infinite` or a number for the cap. The cap also takes the misspelling
/// `ininite`.
pub fn apply_option_value(st: Arguments, opt: String, v: &String) -> (r: Result<Arguments, ArgError>)
    ensures
        r matches Ok(a) ==> apply_option(st@, opt@, v@) == Ok::<Settings, ArgErrorView>(a@),
        r matches Err(e) ==> apply_option(st@, opt@, v@) == Err::<Settings, ArgErrorView>(e@),
{
    let mut st = st;
    if opt == "target".to_owned() || opt == "host".to_owned() {
        st.target = v.clone();
        Ok(st)
    } else if opt == "port".to_owned() {
        match parse_u16(v) {
            Some(p) => {
                st.port = p;
                Ok(st)
            },
            None => Err(ArgError::InvalidPort(v.clone())),
        }
    } else if opt == "timeout".to_owned() {
        match parse_u64(v) {
            Some(t) => {
                st.timeout = t;
                Ok(st)
            },
            None => Err(ArgError::InvalidTimeout(v.clone())),
        }
    } else if opt == "max".to_owned() {
        if *v == "infinite".to_owned() || *v == "ininite".to_owned() {
            st.max_connections = MaxConnections::Infinite;
            Ok(st)
        } else {
            match parse_u32(v) {
                Some(m) => {
                    st.max_connections = MaxConnections::Max(m);
                    Ok(st)
                },
                None => Err(ArgError::InvalidMax(v.clone())),
            }
        }
    } else {
        Err(ArgError::UnknownOption(opt))
    }
}

/// The long option that a short flag stands for, `None` for an unknown flag.
pub fn long_option(flag: &String) -> (r: Option<String>)
    ensures
        r matches Some(o) ==> long_name(flag@) == Some(o@),
        r is None ==> long_name(flag@) is None,
{
    if *flag == "h".to_owned() {
        Some("target".to_owned())
    } else if *flag == "p".to_owned() {
        Some("port".to_owned())
    } else if *flag == "t".to_owned() {
        Some("timeout".to_owned())
    } else if *flag == "m".to_owned() {
        Some("max".to_owned())
    } else {
        None
    }
}

/// Reads a command line whose first element is the program. Options are
/// `--target`/`--host`, `--port`, `--timeout` (seconds) and `--max`, each
/// followed by its value, the short flags `-h`, `-p`, `-t`, `-m`, and
/// `--help`; one bare argument names the target. Defaults: port 80, a 30
/// second timeout, no cap.
pub fn parse_arguments(args: &Vec<String>) -> (r: Result<Arguments, ArgError>)
    ensures
        r matches Ok(a) ==> settings_of(views(args@)) == Ok::<Settings, ArgErrorView>(a@),
        r matches Err(e) ==> settings_of(views(args@)) == Err::<Settings, ArgErrorView>(e@),
{
    let ghost all = views(args@);
    let mut st = Arguments {
        target: String::new(),
        port: DEFAULT_PORT,
        timeout: DEFAULT_TIMEOUT,
        max_connections: MaxConnections::Infinite,
    };
    let mut i: usize = 1;
    while i < args.len()
        invariant
            all == views(args@),
            all.len() == args@.len(),
            i >= 1,
            parse_from(all, i as int, st@) == settings_of(all),
        decreases args@.len() - i,
    {
        assert(all[i as int] == args@[i as int]@);
        let a = chars_of(&args[i]);
        if a.len() >= 2 && a[0] == '-' && a[1] == '-' {
            if args[i] == "--help".to_owned() {
                return Err(ArgError::Help);
            }
            let opt = string_of(&skip_chars(&a, 2));
            assert(parse_from(all, i as int, st@) == take_value(all, i + 1, st@, opt@));
            if i + 1 >= args.len() {
                return Err(ArgError::MissingValue(opt));
            }
            assert(all[i + 1] == args@[i + 1]@);
            match apply_option_value(st, opt, &args[i + 1]) {
                Ok(next) => st = next,
                Err(e) => return Err(e),
            }
            i = i + 2;
        } else if a.len() >= 1 && a[0] == '-' {
            let flag = string_of(&skip_chars(&a, 1));
            let opt = match long_option(&flag) {
                Some(o) => o,
                None => return Err(ArgError::UnknownOption(flag)),
            };
            assert(parse_from(all, i as int, st@) == take_value(all, i + 1, st@, opt@));
            if i + 1 >= args.len() {
                return Err(ArgError::MissingValue(opt));
            }
            assert(all[i + 1] == args@[i + 1]@);
            match apply_option_value(st, opt, &args[i + 1]) {
                Ok(next) => st = next,
                Err(e) => return Err(e),
            }
            i = i + 2;
        } else if st.target.as_str().is_empty() {
            st.target = args[i].clone();
            i = i + 1;
        } else {
            return Err(ArgError::UnexpectedArgument(args[i].clone()));
        }
    }
    if st.target.as_str().is_empty() {
        Err(ArgError::MissingTarget)
    } else {
        Ok(st)
    }
}

} // verus!
