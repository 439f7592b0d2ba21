//! Settings, as the environment gives them.

use crate::text::join3;
use vstd::prelude::*;
use vstd::string::*;

verus! {

/// A length of time: whole seconds, and nanoseconds short of one more.
#[derive(Clone, Copy, Debug, PartialEq, Eq, Structural)]
pub struct Span {
    pub secs: u64,
    pub nanos: u32,
}

impl Span {
    /// Whether the nanoseconds are short of a second.
    pub open spec fn wf(self) -> bool {
        self.nanos < 1_000_000_000
    }

    /// A length of time in whole seconds.
    pub fn from_secs(secs: u64) -> (r: Span)
        ensures
            r == (Span { secs, nanos: 0 }),
            r.wf(),
    {
        Span { secs, nanos: 0 }
    }
}

/// The settings of the shim.
#[derive(Debug)]
pub struct Config {
    /// The gateway listener to hand negotiated connections back to.
    pub upstream_addr: String,
    pub handshake_timeout: Span,
    pub dial_timeout: Span,
    pub keepalive_period: Span,
    /// How long established sessions get to finish after we stop accepting.
    /// Must leave room inside the pod's terminationGracePeriodSeconds, or the
    /// kubelet's SIGKILL lands before the drain completes and the whole exercise
    /// is wasted.
    pub drain_timeout: Span,
}

/// The text of a variable that is set and not empty.
pub open spec fn given(value: Option<String>) -> Option<Seq<char>> {
    match value {
        Some(text) => if text@.len() == 0 {
            None
        } else {
            Some(text@)
        },
        None => None,
    }
}

/// Whether `c` is a decimal digit.
pub open spec fn is_digit(c: char) -> bool {
    '0' <= c <= '9'
}

/// Whether `c` can stand in the name of a unit of time.
pub open spec fn is_letter(c: char) -> bool {
    'a' <= c <= 'z' || 'A' <= c <= 'Z' || c == '\u{b5}'
}

/// The name of a unit of time, as far as it has been read.
#[derive(Clone, Copy, Debug, PartialEq, Eq, Structural)]
pub enum Unit {
    /// Nothing of it.
    Unnamed,
    /// "m": minutes, or the start of another name.
    M,
    /// "mi", the start of a name.
    Mi,
    /// Enough to tell how many nanoseconds the unit holds; none if there is no such unit.
    Nanos(u64),
}

impl Unit {
    /// The name with one more letter. One letter tells every unit but those that start
    /// with "m": milliseconds go on with "s" or "il", months with "o", minutes with "in".
    pub open spec fn then_letter(self, c: char) -> Unit {
        match self {
            Unit::Unnamed => if c == 'n' {
                Unit::Nanos(1)
            } else if c == 'u' || c == '\u{b5}' {
                Unit::Nanos(1_000)
            } else if c == 'm' {
                Unit::M
            } else if c == 's' {
                Unit::Nanos(1_000_000_000)
            } else if c == 'h' {
                Unit::Nanos(3_600_000_000_000)
            } else if c == 'd' {
                Unit::Nanos(86_400_000_000_000)
            } else if c == 'w' {
                Unit::Nanos(604_800_000_000_000)
            } else if c == 'M' {
                Unit::Nanos(2_630_016_000_000_000)
            } else if c == 'y' {
                Unit::Nanos(31_557_600_000_000_000)
            } else {
                Unit::Nanos(0)
            },
            Unit::M => if c == 's' {
                Unit::Nanos(1_000_000)
            } else if c == 'o' {
                Unit::Nanos(2_630_016_000_000_000)
            } else if c == 'i' {
                Unit::Mi
            } else {
                Unit::Nanos(0)
            },
            Unit::Mi => if c == 'l' {
                Unit::Nanos(1_000_000)
            } else if c == 'n' {
                Unit::Nanos(60_000_000_000)
            } else {
                Unit::Nanos(0)
            },
            Unit::Nanos(_) => self,
        }
    }

    /// How many nanoseconds a unit of this name holds; none if there is no such unit.
    pub open spec fn length(self) -> nat {
        match self {
            Unit::M => 60_000_000_000,
            Unit::Nanos(nanos) => nanos as nat,
            _ => 0,
        }
    }

    /// Reads one more letter.
    fn read_letter(self, c: char) -> (r: Unit)
        ensures
            r == self.then_letter(c),
    {
        match self {
            Unit::Unnamed => match c {
                'n' => Unit::Nanos(1),
                'u' | '\u{b5}' => Unit::Nanos(1_000),
                'm' => Unit::M,
                's' => Unit::Nanos(1_000_000_000),
                'h' => Unit::Nanos(3_600_000_000_000),
                'd' => Unit::Nanos(86_400_000_000_000),
                'w' => Unit::Nanos(604_800_000_000_000),
                'M' => Unit::Nanos(2_630_016_000_000_000),
                'y' => Unit::Nanos(31_557_600_000_000_000),
                _ => Unit::Nanos(0),
            },
            Unit::M => match c {
                's' => Unit::Nanos(1_000_000),
                'o' => Unit::Nanos(2_630_016_000_000_000),
                'i' => Unit::Mi,
                _ => Unit::Nanos(0),
            },
            Unit::Mi => match c {
                'l' => Unit::Nanos(1_000_000),
                'n' => Unit::Nanos(60_000_000_000),
                _ => Unit::Nanos(0),
            },
            Unit::Nanos(_) => self,
        }
    }

    /// Reads off how many nanoseconds the unit holds.
    fn nanos(self) -> (r: u64)
        ensures
            r == self.length(),
    {
        match self {
            Unit::M => 60_000_000_000,
            Unit::Nanos(nanos) => nanos,
            _ => 0,
        }
    }
}

/// `u64::MAX` seconds, in nanoseconds.
pub const LAST_SECOND: u128 = 18_446_744_073_709_551_615_000_000_000;

/// One second more: the least length that no duration holds.
pub const FULL: u128 = 18_446_744_073_709_551_616_000_000_000;

/// Whether a length that has used up all seconds but the last grows to use up that
/// second too, and no more.
pub open spec fn fills_up(before: nat, after: nat) -> bool {
    LAST_SECOND <= before < after && after == FULL
}

/// A duration's text as far as it has been read.
pub struct Tally {
    /// The length of the parts behind which another stands, in nanoseconds.
    pub total: nat,
    /// The whole number of the latest part.
    pub number: nat,
    /// Whether a point has come behind that number.
    pub fraction: bool,
    /// The digits behind the point, as a number and as the power of ten to divide it by.
    pub numerator: nat,
    pub denominator: nat,
    /// The unit of the latest part.
    pub unit: Unit,
    /// Whether a part filled up the last second.
    pub filled: bool,
    /// Whether what has been read is no duration, whatever follows.
    pub refused: bool,
}

/// The tally with the latest part added: its number and behind that its fraction.
pub open spec fn closed(t: Tally) -> Tally {
    let unit = t.unit.length();
    let whole = t.total + t.number * unit;
    let all = whole + t.numerator * unit / t.denominator;
    Tally {
        total: all,
        number: 0,
        fraction: false,
        numerator: 0,
        denominator: 1,
        unit: Unit::Unnamed,
        filled: t.filled || unit < 1_000_000_000 && fills_up(t.total, whole) || fills_up(
            whole,
            all,
        ),
        refused: t.refused || unit == 0 || all >= FULL,
    }
}

/// The tally with one more digit of a number, or of its fraction.
pub open spec fn with_digit(t: Tally, digit: nat) -> Tally {
    if t.fraction {
        if t.denominator * 10 > u64::MAX {
            Tally { refused: true, ..t }
        } else {
            Tally {
                numerator: t.numerator * 10 + digit,
                denominator: t.denominator * 10,
                ..t
            }
        }
    } else {
        if t.number * 10 + digit > u64::MAX {
            Tally { refused: true, ..t }
        } else {
            Tally { number: t.number * 10 + digit, ..t }
        }
    }
}

/// The tally with one more character. Letters name the unit; what follows them, be it a
/// digit or anything else, starts another part. Space changes nothing else.
pub open spec fn with_char(t: Tally, c: char) -> Tally {
    if t.refused {
        t
    } else if is_letter(c) {
        Tally { unit: t.unit.then_letter(c), ..t }
    } else {
        let next = if t.unit == Unit::Unnamed {
            t
        } else {
            closed(t)
        };
        if next.refused {
            next
        } else if is_digit(c) {
            with_digit(next, (c as nat - '0' as nat) as nat)
        } else if c == '.' {
            Tally { fraction: true, ..next }
        } else {
            next
        }
    }
}

/// The tally of a text.
pub open spec fn tally(text: Seq<char>) -> Tally
    decreases text.len(),
{
    if text.len() == 0 {
        Tally {
            total: 0,
            number: 0,
            fraction: false,
            numerator: 0,
            denominator: 1,
            unit: Unit::Unnamed,
            filled: false,
            refused: false,
        }
    } else {
        with_char(tally(text.drop_last()), text.last())
    }
}

/// Whether no part of a text, added to others that use up all seconds but the last,
/// comes to the end of that second exactly.
pub open spec fn is_tame(text: Seq<char>) -> bool {
    let t = tally(text);
    if t.refused {
        !t.filled
    } else {
        !closed(t).filled
    }
}

/// What `humantime::parse_duration` makes of a text: the seconds and the nanoseconds
/// of the duration, or the description of the error.
pub uninterp spec fn humantime_duration(text: Seq<char>) -> Result<(u64, u32), Seq<char>>;

/// The seconds and nanoseconds of a parsed duration, or the description of the error.
pub open spec fn parsed(r: Result<Span, String>) -> Result<(u64, u32), Seq<char>> {
    match r {
        Ok(span) => Ok((span.secs, span.nanos)),
        Err(description) => Err(description@),
    }
}

/// Calls `humantime::parse_duration` and takes its answer apart: a duration into
/// seconds and nanoseconds, which `std::time::Duration` keeps below a billion; an
/// error into its description. What is claimed is that the answer depends on the
/// text alone, which is what `humantime_duration` names.
///
/// `humantime` adds the parts of a duration up, for each its number and then its
/// fraction. What comes to more than a duration can hold is an error, but for one case,
/// in which it panics: where the seconds stand at `u64::MAX` and the nanoseconds come to
/// a whole second exactly, `Duration::new` carries into seconds that are full. That
/// takes a unit shorter than a second, or a fraction. `is_tame` leaves out every text on
/// which this happens, and none that is a duration: `tally` adds up the same parts, and
/// stops at a number or a sum that is too large and at a unit that there is not, where
/// `humantime` gives up. Of what is no duration it leaves out the texts in which such a
/// sum stands behind a mistake that it does not look for: a unit misspelt behind its
/// first letters, a character out of place, a fraction finer than a nanosecond. Nothing
/// is said here of the answer to those.
#[verifier::external_body]
fn parse_duration(text: &str) -> (r: Result<Span, String>)
    requires
        is_tame(text@),
    ensures
        parsed(r) == humantime_duration(text@),
        r matches Ok(span) ==> span.wf(),
{
    match humantime::parse_duration(text) {
        Ok(d) => Ok(Span { secs: d.as_secs(), nanos: d.subsec_nanos() }),
        Err(err) => Err(err.to_string()),
    }
}

/// A [`Tally`] kept while reading.
struct Count {
    total: u128,
    number: u64,
    fraction: bool,
    numerator: u64,
    denominator: u64,
    unit: Unit,
    filled: bool,
    refused: bool,
}

impl View for Count {
    type V = Tally;

    closed spec fn view(&self) -> Tally {
        Tally {
            total: self.total as nat,
            number: self.number as nat,
            fraction: self.fraction,
            numerator: self.numerator as nat,
            denominator: self.denominator as nat,
            unit: self.unit,
            filled: self.filled,
            refused: self.refused,
        }
    }
}

impl Count {
    /// Whether another part can be added.
    spec fn wf(self) -> bool {
        &&& self.denominator > 0
        &&& self.numerator < self.denominator
        &&& self.unit.length() <= 31_557_600_000_000_000
        &&& !self.refused ==> self.total < FULL
    }

    /// Adds the latest part.
    fn close(self) -> (r: Count)
        requires
            self.wf(),
            !self.refused,
        ensures
            r.wf(),
            r@ == closed(self@),
    {
        let nanos = self.unit.nanos();
        let unit: u128 = nanos as u128;
        let number: u128 = self.number as u128;
        let numerator: u128 = self.numerator as u128;
        let denominator: u128 = self.denominator as u128;
        proof {
            let most: int = u64::MAX as int;
            let year: int = 31_557_600_000_000_000;
            assert(0 <= number * unit <= most * year) by (nonlinear_arith)
                requires
                    0 <= number <= most,
                    0 <= unit <= year,
            ;
            assert(0 <= numerator * unit <= most * year) by (nonlinear_arith)
                requires
                    0 <= numerator <= most,
                    0 <= unit <= year,
            ;
            assert(0 <= numerator * unit / (denominator as int) <= unit) by (nonlinear_arith)
                requires
                    0 <= numerator < denominator,
                    0 <= unit,
            ;
        }
        let whole: u128 = self.total + number * unit;
        let all: u128 = whole + numerator * unit / denominator;
        let by_number = nanos < 1_000_000_000 && LAST_SECOND <= self.total && self.total < whole
            && whole == FULL;
        let by_fraction = LAST_SECOND <= whole && whole < all && all == FULL;
        Count {
            total: all,
            number: 0,
            fraction: false,
            numerator: 0,
            denominator: 1,
            unit: Unit::Unnamed,
            filled: self.filled || by_number || by_fraction,
            refused: self.refused || nanos == 0 || all >= FULL,
        }
    }

    /// Reads one more digit.
    fn digit(self, digit: u64) -> (r: Count)
        requires
            self.wf(),
            !self.refused,
            digit < 10,
        ensures
            r.wf(),
            r@ == with_digit(self@, digit as nat),
    {
        if self.fraction {
            let denominator: u128 = self.denominator as u128 * 10;
            if denominator > 0xffff_ffff_ffff_ffff {
                Count { refused: true, ..self }
            } else {
                Count {
                    numerator: self.numerator * 10 + digit,
                    denominator: self.denominator * 10,
                    ..self
                }
            }
        } else {
            let number: u128 = self.number as u128 * 10 + digit as u128;
            if number > 0xffff_ffff_ffff_ffff {
                Count { refused: true, ..self }
            } else {
                Count { number: self.number * 10 + digit, ..self }
            }
        }
    }

    /// Reads one more character.
    fn read(self, c: char) -> (r: Count)
        requires
            self.wf(),
        ensures
            r.wf(),
            r@ == with_char(self@, c),
    {
        if self.refused {
            self
        } else if ('a' <= c && c <= 'z') || ('A' <= c && c <= 'Z') || c == '\u{b5}' {
            Count { unit: self.unit.read_letter(c), ..self }
        } else {
            let next = match self.unit {
                Unit::Unnamed => self,
                _ => self.close(),
            };
            if next.refused {
                next
            } else if '0' <= c && c <= '9' {
                next.digit((c as u32 - '0' as u32) as u64)
            } else if c == '.' {
                Count { fraction: true, ..next }
            } else {
                next
            }
        }
    }
}

/// Whether a duration can be parsed without filling up the last second.
fn check_tame(text: &str) -> (r: bool)
    ensures
        r == is_tame(text@),
{
    let n = text.unicode_len();
    let mut count = Count {
        total: 0,
        number: 0,
        fraction: false,
        numerator: 0,
        denominator: 1,
        unit: Unit::Unnamed,
        filled: false,
        refused: false,
    };
    let mut i: usize = 0;
    assert(text@.take(0) =~= Seq::<char>::empty());
    while i < n
        invariant
            n == text@.len(),
            i <= n,
            count.wf(),
            count@ == tally(text@.take(i as int)),
        decreases n - i,
    {
        let c = text.get_char(i);
        assert(text@.take(i + 1).drop_last() =~= text@.take(i as int));
        count = count.read(c);
        i += 1;
    }
    assert(text@.take(n as int) =~= text@);
    if count.refused {
        !count.filled
    } else {
        !count.close().filled
    }
}

/// The value of a variable, or `fallback` if it is unset or empty.
pub fn env_or(value: Option<String>, fallback: &str) -> (r: String)
    ensures
        r@ == match given(value) {
            Some(text) => text,
            None => fallback@,
        },
{
    match value {
        Some(text) => if text.as_str().is_empty() {
            String::from_str(fallback)
        } else {
            text
        },
        None => String::from_str(fallback),
    }
}

/// What a duration's parse comes to: the duration, or what to die of.
pub open spec fn settled(key: Seq<char>, outcome: Result<(u64, u32), Seq<char>>) -> Result<
    (u64, u32),
    Seq<char>,
> {
    match outcome {
        Ok(duration) => Ok(duration),
        Err(description) => Err(key + ": "@ + description),
    }
}

/// Puts the name of the variable in front of the description of a parse error.
pub fn settle_duration(key: &str, outcome: Result<Span, String>) -> (r: Result<Span, String>)
    ensures
        parsed(r) == settled(key@, parsed(outcome)),
        outcome matches Ok(span) ==> r == Ok::<Span, String>(span),
{
    match outcome {
        Ok(span) => Ok(span),
        Err(description) => Err(join3(key, ": ", description.as_str())),
    }
}

/// The duration that a variable gives, or `fallback` if it is unset or empty. An
/// error says which variable holds what cannot be parsed.
pub fn duration_or(key: &str, value: Option<String>, fallback: Span) -> (r: Result<Span, String>)
    requires
        given(value) matches Some(text) ==> is_tame(text),
    ensures
        match given(value) {
            Some(text) => parsed(r) == settled(key@, humantime_duration(text)),
            None => r == Ok::<Span, String>(fallback),
        },
        fallback.wf() ==> (r matches Ok(span) ==> span.wf()),
{
    match value {
        Some(text) => if text.as_str().is_empty() {
            Ok(fallback)
        } else {
            settle_duration(key, parse_duration(text.as_str()))
        },
        None => Ok(fallback),
    }
}

/// [`duration_or`] on any value. `None` says that the value is not as `is_tame` asks: a
/// part of it comes to the very end of the last second that a duration holds. Nothing
/// has been parsed then.
pub fn checked_duration_or(key: &str, value: Option<String>, fallback: Span) -> (r: Option<
    Result<Span, String>,
>)
    ensures
        match given(value) {
            Some(text) => if is_tame(text) {
                r is Some && parsed(r->0) == settled(key@, humantime_duration(text))
            } else {
                r is None
            },
            None => r == Some(Ok::<Span, String>(fallback)),
        },
        fallback.wf() ==> (r matches Some(Ok(span)) ==> span.wf()),
{
    let tame = match &value {
        Some(text) => text.as_str().is_empty() || check_tame(text.as_str()),
        None => true,
    };
    if tame {
        Some(duration_or(key, value, fallback))
    } else {
        None
    }
}

/// The address to hand connections back to, which must be given.
pub fn required_upstream(value: Option<String>) -> (r: Result<String, String>)
    ensures
        match given(value) {
            Some(text) => r is Ok && r->Ok_0@ == text,
            None => r is Err && r->Err_0@
                == "UPSTREAM_ADDR is required (the gateway listener to hand the TLS stream back to)"@,
        },
{
    let upstream_addr = env_or(value, "");
    proof {
        reveal_strlit("");
    }
    if upstream_addr.as_str().is_empty() {
        Err(
            String::from_str(
                "UPSTREAM_ADDR is required (the gateway listener to hand the TLS stream back to)",
            ),
        )
    } else {
        Ok(upstream_addr)
    }
}

/// The address to listen on.
pub fn listen_addr(value: Option<String>) -> (r: String)
    ensures
        r@ == match given(value) {
            Some(text) => text,
            None => "0.0.0.0:5432"@,
        },
{
    env_or(value, "0.0.0.0:5432")
}

impl Config {
    /// How long a negotiation may take if the environment does not say.
    pub const HANDSHAKE_SECS: u64 = 10;

    /// How long reaching the upstream may take if the environment does not say.
    pub const DIAL_SECS: u64 = 10;

    /// How long a drain may take if the environment does not say.
    pub const DRAIN_SECS: u64 = 20;

    /// How often an idle connection is probed.
    pub const KEEPALIVE_SECS: u64 = 30;

    /// The settings that the environment decides, with the one that it does not.
    pub fn new(
        upstream_addr: String,
        handshake_timeout: Span,
        dial_timeout: Span,
        drain_timeout: Span,
    ) -> (r: Config)
        ensures
            r.upstream_addr@ == upstream_addr@,
            r.handshake_timeout == handshake_timeout,
            r.dial_timeout == dial_timeout,
            r.keepalive_period == (Span { secs: 30, nanos: 0 }),
            r.drain_timeout == drain_timeout,
    {
        Config {
            upstream_addr,
            handshake_timeout,
            dial_timeout,
            keepalive_period: Span::from_secs(Self::KEEPALIVE_SECS),
            drain_timeout,
        }
    }
}

/// A variable counts if it is set and not empty.
pub proof fn empty_variables_count_as_unset(
    fallback: &str,
    text: String,
    unset: String,
    set: String,
)
    requires
        call_ensures(env_or, (None::<String>, fallback), unset),
        call_ensures(env_or, (Some(text), fallback), set),
    ensures
        unset@ == fallback@,
        text@.len() == 0 ==> set@ == fallback@,
        text@.len() > 0 ==> set@ == text@,
{
}

/// The address to listen on is the one given, or port 5432 of every interface.
pub proof fn listening_has_a_default(text: String, unset: String, set: String)
    requires
        call_ensures(listen_addr, (None::<String>,), unset),
        call_ensures(listen_addr, (Some(text),), set),
    ensures
        unset@ == "0.0.0.0:5432"@,
        text@.len() == 0 ==> set@ == "0.0.0.0:5432"@,
        text@.len() > 0 ==> set@ == text@,
{
}

/// The upstream has no default: it is the address given, and there is an error if none
/// is.
pub proof fn upstream_has_no_default(
    text: String,
    unset: Result<String, String>,
    set: Result<String, String>,
)
    requires
        call_ensures(required_upstream, (None::<String>,), unset),
        call_ensures(required_upstream, (Some(text),), set),
    ensures
        unset is Err,
        set is Err <==> text@.len() == 0,
        unset matches Err(line) ==> line@
            == "UPSTREAM_ADDR is required (the gateway listener to hand the TLS stream back to)"@,
        set matches Err(line) ==> line@
            == "UPSTREAM_ADDR is required (the gateway listener to hand the TLS stream back to)"@,
        set matches Ok(addr) ==> addr@ == text@,
{
}

/// A duration that was parsed is kept, and an error is laid to the variable.
pub proof fn parse_errors_name_the_variable(
    key: &str,
    span: Span,
    description: String,
    good: Result<Span, String>,
    bad: Result<Span, String>,
)
    requires
        call_ensures(settle_duration, (key, Ok::<Span, String>(span)), good),
        call_ensures(settle_duration, (key, Err::<Span, String>(description)), bad),
    ensures
        good == Ok::<Span, String>(span),
        bad matches Err(line) && line@ == key@ + ": "@ + description@,
{
}

/// A duration is the fallback if its variable is unset or empty, and otherwise what
/// `humantime` makes of its text, the fallback having no part in it.
pub proof fn durations_are_what_was_given(
    key: &str,
    text: String,
    fallback: Span,
    unset: Result<Span, String>,
    set: Result<Span, String>,
)
    requires
        call_ensures(duration_or, (key, None::<String>, fallback), unset),
        call_ensures(duration_or, (key, Some(text), fallback), set),
    ensures
        unset == Ok::<Span, String>(fallback),
        text@.len() == 0 ==> set == Ok::<Span, String>(fallback),
        text@.len() > 0 ==> match humantime_duration(text@) {
            Ok((secs, nanos)) => set matches Ok(span) && span.secs == secs && span.nanos == nanos,
            Err(description) => set matches Err(line) && line@ == key@ + ": "@ + description,
        },
{
}

/// Checking a text first changes nothing but that a text which is not tame is left
/// alone.
pub proof fn checked_durations_are_what_was_given(
    key: &str,
    text: String,
    fallback: Span,
    unset: Option<Result<Span, String>>,
    set: Option<Result<Span, String>>,
)
    requires
        call_ensures(checked_duration_or, (key, None::<String>, fallback), unset),
        call_ensures(checked_duration_or, (key, Some(text), fallback), set),
    ensures
        unset == Some(Ok::<Span, String>(fallback)),
        text@.len() == 0 ==> set == Some(Ok::<Span, String>(fallback)),
        set is None <==> text@.len() > 0 && !is_tame(text@),
        set is Some ==> call_requires(duration_or, (key, Some(text), fallback)),
        text@.len() > 0 && set is Some ==> match humantime_duration(text@) {
            Ok((secs, nanos)) => set->0 matches Ok(span) && span.secs == secs && span.nanos
                == nanos,
            Err(description) => set->0 matches Err(line) && line@ == key@ + ": "@ + description,
        },
{
}

/// The settings are kept as they were given; idle connections are probed every half
/// minute.
pub proof fn settings_are_kept_as_given(
    upstream_addr: String,
    handshake_timeout: Span,
    dial_timeout: Span,
    drain_timeout: Span,
    cfg: Config,
)
    requires
        call_ensures(
            Config::new,
            (upstream_addr, handshake_timeout, dial_timeout, drain_timeout),
            cfg,
        ),
    ensures
        cfg.upstream_addr@ == upstream_addr@,
        cfg.handshake_timeout == handshake_timeout,
        cfg.dial_timeout == dial_timeout,
        cfg.drain_timeout == drain_timeout,
        cfg.keepalive_period.secs == 30,
        cfg.keepalive_period.nanos == 0,
{
}

/// How many characters of a text are decimal digits.
pub open spec fn digit_count(text: Seq<char>) -> nat
    decreases text.len(),
{
    if text.len() == 0 {
        0
    } else if '0' <= text.last() && text.last() <= '9' {
        digit_count(text.drop_last()) + 1
    } else {
        digit_count(text.drop_last())
    }
}

/// Ten to the power of `n`.
pub open spec fn ten_to(n: nat) -> nat
    decreases n,
{
    if n == 0 {
        1
    } else {
        ten_to((n - 1) as nat) * 10
    }
}

/// The length of the longest unit, in nanoseconds.
spec fn year() -> nat {
    31_557_600_000_000_000
}

/// What the latest part of a tally comes to at most, in years.
spec fn at_most(t: Tally) -> nat {
    t.number + if t.numerator > 0 {
        1nat
    } else {
        0nat
    }
}

/// A tally whose parts come to at most `most` nanoseconds, be the latest in years.
spec fn bounded(t: Tally, most: nat) -> bool {
    &&& t.denominator > 0
    &&& t.numerator < t.denominator
    &&& t.unit.length() <= year()
    &&& t.total + at_most(t) * year() <= most
    &&& t.filled ==> FULL <= most
}

/// Adding the latest part keeps a tally within its bound.
proof fn closed_is_bounded(t: Tally, most: nat)
    requires
        bounded(t, most),
    ensures
        bounded(closed(t), most),
{
    let unit = t.unit.length();
    let part = t.numerator * unit / t.denominator;
    assert(t.number * unit <= t.number * year()) by (nonlinear_arith)
        requires
            unit <= year(),
    ;
    if t.numerator == 0 {
        assert(0 * unit == 0nat);
        assert(part == 0) by (nonlinear_arith)
            requires
                part == 0nat / t.denominator,
                t.denominator > 0,
        ;
    } else {
        assert(part <= unit) by (nonlinear_arith)
            requires
                part == t.numerator * unit / t.denominator,
                t.numerator < t.denominator,
                t.denominator > 0,
        ;
    }
    assert(t.number * year() + (if t.numerator > 0 {
        year()
    } else {
        0
    }) == at_most(t) * year()) by (nonlinear_arith)
        requires
            at_most(t) == t.number + (if t.numerator > 0 {
                1nat
            } else {
                0nat
            }),
    ;
}

/// The tally of a text with `n` digits comes to less than ten to the power of `n` years.
proof fn tally_is_bounded(text: Seq<char>)
    ensures
        ten_to(digit_count(text)) > 0,
        bounded(tally(text), ((ten_to(digit_count(text)) - 1) * year()) as nat),
    decreases text.len(),
{
    if text.len() > 0 {
        let before = text.drop_last();
        let c = text.last();
        tally_is_bounded(before);
        let t = tally(before);
        let most = ((ten_to(digit_count(before)) - 1) * year()) as nat;
        closed_is_bounded(t, most);
        let next = if t.unit == Unit::Unnamed {
            t
        } else {
            closed(t)
        };
        if is_digit(c) && !t.refused && !next.refused {
            let d = (c as nat - '0' as nat) as nat;
            let wider = ((ten_to(digit_count(text)) - 1) * year()) as nat;
            assert(wider == most * 10 + 9 * year());
            assert(bounded(with_digit(next, d), wider));
        }
    }
}

/// Every text with fewer than twelve digits can be parsed, whatever its parts, units,
/// fractions and mistakes: no such text comes near the last second.
pub proof fn short_texts_are_tame(text: Seq<char>)
    requires
        digit_count(text) < 12,
    ensures
        is_tame(text),
{
    let n = digit_count(text);
    tally_is_bounded(text);
    closed_is_bounded(tally(text), ((ten_to(n) - 1) * year()) as nat);
    reveal_with_fuel(ten_to, 12);
    assert(ten_to(n) <= 100_000_000_000);
}

/// One part of a duration: a whole number, in digits; the digits behind its point, or
/// none and no point; and the name of its unit.
pub struct Part {
    pub digits: Seq<char>,
    pub fraction: Seq<char>,
    pub name: Seq<char>,
}

/// How many nanoseconds the unit of this name holds; none if there is no such unit.
pub open spec fn unit_nanos(name: Seq<char>) -> nat {
    if name == "nanos"@ || name == "nsec"@ || name == "ns"@ {
        1
    } else if name == "usec"@ || name == "us"@ || name == "\u{b5}s"@ {
        1_000
    } else if name == "millis"@ || name == "msec"@ || name == "ms"@ {
        1_000_000
    } else if name == "seconds"@ || name == "second"@ || name == "secs"@ || name == "sec"@
        || name == "s"@ {
        1_000_000_000
    } else if name == "minutes"@ || name == "minute"@ || name == "min"@ || name == "mins"@
        || name == "m"@ {
        60_000_000_000
    } else if name == "hours"@ || name == "hour"@ || name == "hr"@ || name == "hrs"@ || name
        == "h"@ {
        3_600_000_000_000
    } else if name == "days"@ || name == "day"@ || name == "d"@ {
        86_400_000_000_000
    } else if name == "weeks"@ || name == "week"@ || name == "wk"@ || name == "wks"@ || name
        == "w"@ {
        604_800_000_000_000
    } else if name == "months"@ || name == "month"@ || name == "M"@ {
        2_630_016_000_000_000
    } else if name == "years"@ || name == "year"@ || name == "yr"@ || name == "yrs"@ || name
        == "y"@ {
        31_557_600_000_000_000
    } else {
        0
    }
}

/// Whether all characters of `s` are decimal digits.
pub open spec fn all_digits(s: Seq<char>) -> bool {
    forall|i: int| 0 <= i < s.len() ==> '0' <= #[trigger] s[i] && s[i] <= '9'
}

/// Whether a part is written as one: a number that 64 bits hold, a fraction whose
/// denominator they hold, and a unit.
pub open spec fn is_part(part: Part) -> bool {
    &&& part.digits.len() > 0
    &&& all_digits(part.digits)
    &&& all_digits(part.fraction)
    &&& crate::text::decimal_value(part.digits) <= u64::MAX
    &&& ten_to(part.fraction.len()) <= u64::MAX
    &&& unit_nanos(part.name) > 0
}

/// How a part is written, with a space behind it.
pub open spec fn part_text(part: Part) -> Seq<char> {
    if part.fraction.len() == 0 {
        part.digits + part.name + seq![' ']
    } else {
        part.digits + seq!['.'] + part.fraction + part.name + seq![' ']
    }
}

/// The length of the whole units of a part, in nanoseconds.
pub open spec fn whole_length(part: Part) -> int {
    crate::text::decimal_value(part.digits) * unit_nanos(part.name)
}

/// The length of the fraction of a part, in whole nanoseconds.
pub open spec fn fraction_length(part: Part) -> int {
    crate::text::decimal_value(part.fraction) * unit_nanos(part.name) / ten_to(
        part.fraction.len(),
    ) as int
}

/// The length of the first `n` parts, in nanoseconds.
pub open spec fn length_of(parts: Seq<Part>, n: nat) -> int
    decreases n,
{
    if n == 0 {
        0
    } else {
        length_of(parts, (n - 1) as nat) + whole_length(parts[n - 1]) + fraction_length(
            parts[n - 1],
        )
    }
}

/// The first `n` parts, one behind the other.
pub open spec fn text_of(parts: Seq<Part>, n: nat) -> Seq<char>
    decreases n,
{
    if n == 0 {
        Seq::empty()
    } else {
        text_of(parts, (n - 1) as nat) + part_text(parts[n - 1])
    }
}

/// Whether the part `i` fills up the last second: what comes before its whole units, if
/// these are shorter than a second, or before its fraction, is at least `u64::MAX`
/// seconds and less than one more, and they or it bring it to one more.
pub open spec fn overruns(parts: Seq<Part>, i: nat) -> bool {
    let before = length_of(parts, i);
    let whole = before + whole_length(parts[i as int]);
    let all = whole + fraction_length(parts[i as int]);
    ||| {
        &&& unit_nanos(parts[i as int].name) < 1_000_000_000
        &&& u64::MAX * 1_000_000_000 <= before < whole
        &&& whole == (u64::MAX + 1) * 1_000_000_000
    }
    ||| {
        &&& u64::MAX * 1_000_000_000 <= whole < all
        &&& all == (u64::MAX + 1) * 1_000_000_000
    }
}

/// The tally of parts that come to `total`.
spec fn added_up(total: nat) -> Tally {
    Tally {
        total,
        number: 0,
        fraction: false,
        numerator: 0,
        denominator: 1,
        unit: Unit::Unnamed,
        filled: false,
        refused: false,
    }
}

/// The unit that a name spells.
spec fn spelt(name: Seq<char>) -> Unit
    decreases name.len(),
{
    if name.len() == 0 {
        Unit::Unnamed
    } else {
        spelt(name.drop_last()).then_letter(name.last())
    }
}

/// A unit that is known stays known.
proof fn spelling_is_settled(name: Seq<char>, n: int)
    requires
        0 <= n <= name.len(),
        spelt(name.take(n)) is Nanos,
    ensures
        spelt(name) == spelt(name.take(n)),
    decreases name.len(),
{
    if n < name.len() {
        assert(name.drop_last().take(n) =~= name.take(n));
        spelling_is_settled(name.drop_last(), n);
    } else {
        assert(name.take(n) =~= name);
    }
}

/// What the first letters of a name spell.
proof fn first_letters_spell(name: Seq<char>)
    requires
        name.len() > 0,
    ensures
        name.len() == 1 ==> spelt(name) == Unit::Unnamed.then_letter(name[0]),
        Unit::Unnamed.then_letter(name[0]) is Nanos ==> spelt(name) == Unit::Unnamed.then_letter(
            name[0],
        ),
        name.len() > 1 && name[0] == 'm' && Unit::M.then_letter(name[1]) is Nanos ==> spelt(name)
            == Unit::M.then_letter(name[1]),
        name.len() > 2 && name[0] == 'm' && name[1] == 'i' ==> spelt(name)
            == Unit::Mi.then_letter(
            name[2],
        ),
{
    let one = name.take(1);
    assert(one.drop_last() =~= Seq::<char>::empty());
    assert(spelt(Seq::empty()) == Unit::Unnamed);
    assert(spelt(one) == Unit::Unnamed.then_letter(name[0]));
    if name.len() == 1 {
        assert(one =~= name);
    }
    if spelt(one) is Nanos {
        spelling_is_settled(name, 1);
    }
    if name.len() > 1 {
        let two = name.take(2);
        assert(two.drop_last() =~= one);
        if spelt(two) is Nanos {
            spelling_is_settled(name, 2);
        }
        if name.len() > 2 {
            let three = name.take(3);
            assert(three.drop_last() =~= two);
            if spelt(three) is Nanos {
                spelling_is_settled(name, 3);
            }
        }
    }
}

/// Every name of a unit consists of letters and spells that unit.
proof fn names_spell_their_unit(name: Seq<char>)
    requires
        unit_nanos(name) > 0,
    ensures
        name.len() > 0,
        forall|i: int| 0 <= i < name.len() ==> is_letter(#[trigger] name[i]),
        spelt(name).length() == unit_nanos(name),
{
    reveal_strlit("nanos");
    reveal_strlit("nsec");
    reveal_strlit("ns");
    reveal_strlit("usec");
    reveal_strlit("us");
    reveal_strlit("\u{b5}s");
    reveal_strlit("millis");
    reveal_strlit("msec");
    reveal_strlit("ms");
    reveal_strlit("seconds");
    reveal_strlit("second");
    reveal_strlit("secs");
    reveal_strlit("sec");
    reveal_strlit("s");
    reveal_strlit("minutes");
    reveal_strlit("minute");
    reveal_strlit("min");
    reveal_strlit("mins");
    reveal_strlit("m");
    reveal_strlit("hours");
    reveal_strlit("hour");
    reveal_strlit("hr");
    reveal_strlit("hrs");
    reveal_strlit("h");
    reveal_strlit("days");
    reveal_strlit("day");
    reveal_strlit("d");
    reveal_strlit("weeks");
    reveal_strlit("week");
    reveal_strlit("wk");
    reveal_strlit("wks");
    reveal_strlit("w");
    reveal_strlit("months");
    reveal_strlit("month");
    reveal_strlit("M");
    reveal_strlit("years");
    reveal_strlit("year");
    reveal_strlit("yr");
    reveal_strlit("yrs");
    reveal_strlit("y");
    first_letters_spell(name);
}

/// What has been refused stays refused, and nothing more is counted.
proof fn refusals_are_settled(text: Seq<char>, more: Seq<char>)
    requires
        tally(text).refused,
    ensures
        tally(text + more) == tally(text),
    decreases more.len(),
{
    if more.len() == 0 {
        assert(text + more =~= text);
    } else {
        assert((text + more).drop_last() =~= text + more.drop_last());
        refusals_are_settled(text, more.drop_last());
    }
}

/// The value of a number is no less than that of its start.
proof fn numbers_grow(digits: Seq<char>)
    requires
        digits.len() > 0,
        all_digits(digits),
    ensures
        0 <= crate::text::decimal_value(digits.drop_last()) <= crate::text::decimal_value(digits),
    decreases digits.len(),
{
    let before = digits.drop_last();
    if before.len() > 0 {
        assert forall|i: int| 0 <= i < before.len() implies '0' <= #[trigger] before[i]
            && before[i]
            <= '9' by {
            assert(before[i] == digits[i]);
        }
        numbers_grow(before);
    }
    assert('0' <= digits[digits.len() - 1]);
}

/// Digits behind whole parts are the number of another.
proof fn digits_are_counted(text: Seq<char>, total: nat, digits: Seq<char>)
    requires
        tally(text) == added_up(total),
        all_digits(digits),
        crate::text::decimal_value(digits) <= u64::MAX,
    ensures
        0 <= crate::text::decimal_value(digits),
        tally(text + digits) == (Tally {
            number: crate::text::decimal_value(digits) as nat,
            ..added_up(total)
        }),
    decreases digits.len(),
{
    if digits.len() == 0 {
        assert(text + digits =~= text);
    } else {
        let before = digits.drop_last();
        assert((text + digits).drop_last() =~= text + before);
        numbers_grow(digits);
        assert forall|i: int| 0 <= i < before.len() implies '0' <= #[trigger] before[i]
            && before[i]
            <= '9' by {
            assert(before[i] == digits[i]);
        }
        digits_are_counted(text, total, before);
        assert('0' <= digits[digits.len() - 1]);
        assert((text + digits).last() == digits.last());
    }
}

/// Letters behind a number name its unit.
proof fn letters_are_spelt(text: Seq<char>, name: Seq<char>)
    requires
        !tally(text).refused,
        tally(text).unit == Unit::Unnamed,
        forall|i: int| 0 <= i < name.len() ==> is_letter(#[trigger] name[i]),
    ensures
        tally(text + name) == (Tally { unit: spelt(name), ..tally(text) }),
    decreases name.len(),
{
    if name.len() == 0 {
        assert(text + name =~= text);
    } else {
        let before = name.drop_last();
        assert((text + name).drop_last() =~= text + before);
        assert forall|i: int| 0 <= i < before.len() implies is_letter(#[trigger] before[i]) by {
            assert(before[i] == name[i]);
        }
        letters_are_spelt(text, before);
        assert(is_letter(name[name.len() - 1]));
        assert((text + name).last() == name.last());
    }
}

/// Digits behind a point are its fraction.
proof fn fractions_are_counted(text: Seq<char>, digits: Seq<char>)
    requires
        !tally(text).refused,
        tally(text).unit == Unit::Unnamed,
        tally(text).fraction,
        tally(text).numerator == 0,
        tally(text).denominator == 1,
        all_digits(digits),
        ten_to(digits.len()) <= u64::MAX,
    ensures
        0 <= crate::text::decimal_value(digits) < ten_to(digits.len()),
        tally(text + digits) == (Tally {
            numerator: crate::text::decimal_value(digits) as nat,
            denominator: ten_to(digits.len()),
            ..tally(text)
        }),
    decreases digits.len(),
{
    if digits.len() == 0 {
        assert(text + digits =~= text);
    } else {
        let before = digits.drop_last();
        assert((text + digits).drop_last() =~= text + before);
        assert forall|i: int| 0 <= i < before.len() implies '0' <= #[trigger] before[i]
            && before[i]
            <= '9' by {
            assert(before[i] == digits[i]);
        }
        fractions_are_counted(text, before);
        assert('0' <= digits[digits.len() - 1] && digits[digits.len() - 1] <= '9');
        assert((text + digits).last() == digits.last());
    }
}

/// The tally of parts that come to `total` and of one more, which is not added yet.
spec fn with_part(total: nat, part: Part) -> Tally {
    Tally {
        number: crate::text::decimal_value(part.digits) as nat,
        fraction: part.fraction.len() > 0,
        numerator: crate::text::decimal_value(part.fraction) as nat,
        denominator: ten_to(part.fraction.len()),
        unit: spelt(part.name),
        ..added_up(total)
    }
}

/// A part behind others is added to them.
proof fn parts_are_added(text: Seq<char>, total: nat, part: Part)
    requires
        tally(text) == added_up(total),
        is_part(part),
    ensures
        tally(text + part_text(part)) == closed(with_part(total, part)),
        spelt(part.name).length() == unit_nanos(part.name),
        0 <= crate::text::decimal_value(part.digits),
        0 <= crate::text::decimal_value(part.fraction),
        0 < ten_to(part.fraction.len()),
{
    let counted = text + part.digits;
    digits_are_counted(text, total, part.digits);
    names_spell_their_unit(part.name);
    let number = if part.fraction.len() == 0 {
        counted
    } else {
        let pointed = counted + seq!['.'];
        assert(pointed.drop_last() =~= counted);
        fractions_are_counted(pointed, part.fraction);
        pointed + part.fraction
    };
    letters_are_spelt(number, part.name);
    let named = number + part.name;
    assert((named + seq![' ']).drop_last() =~= named);
    assert(spelt(part.name) != Unit::Unnamed);
    assert(text + part_text(part) =~= named + seq![' ']);
}

/// The tally of parts: their length, until that is more than a duration holds.
proof fn parts_are_tallied(parts: Seq<Part>, n: nat)
    requires
        n <= parts.len(),
        forall|i: int| 0 <= i < parts.len() ==> is_part(#[trigger] parts[i]),
    ensures
        0 <= length_of(parts, n),
        length_of(parts, n) < FULL ==> tally(text_of(parts, n)) == added_up(
            length_of(parts, n) as nat,
        ),
        length_of(parts, n) >= FULL ==> tally(text_of(parts, n)).refused,
        tally(text_of(parts, n)).filled <==> exists|i: nat| i < n
            && #[trigger] overruns(parts, i),
        forall|i: nat| i < n && #[trigger] overruns(parts, i) ==> length_of(parts, n) >= FULL,
    decreases n,
{
    if n > 0 {
        let m = (n - 1) as nat;
        let part = parts[m as int];
        let before = text_of(parts, m);
        let value = crate::text::decimal_value(part.digits);
        let unit = unit_nanos(part.name);
        parts_are_tallied(parts, m);
        assert(is_part(parts[m as int]));
        parts_are_added(Seq::empty(), 0, part);
        let numerator = crate::text::decimal_value(part.fraction);
        let denominator = ten_to(part.fraction.len()) as int;
        assert(0 <= value * unit) by (nonlinear_arith)
            requires
                0 <= value,
                0 <= unit,
        ;
        assert(0 <= numerator * unit / denominator) by (nonlinear_arith)
            requires
                0 <= numerator,
                0 <= unit,
                0 < denominator,
        ;
        if length_of(parts, m) < FULL {
            let total = length_of(parts, m) as nat;
            parts_are_added(before, total, part);
            let t = with_part(total, part);
            assert(closed(t).total == length_of(parts, n));
            assert(overruns(parts, m) <==> closed(t).filled);
        } else {
            refusals_are_settled(before, part_text(part));
        }
    }
}

/// Of durations written part by part, exactly those are left out that fill up the last
/// second: some part, by whole units shorter than a second or by its fraction, brings a
/// length of at least `u64::MAX` seconds to one second more. Every other can be parsed,
/// however long it is, and also if no duration is that long.
pub proof fn only_overruns_are_not_tame(parts: Seq<Part>)
    requires
        forall|i: int| 0 <= i < parts.len() ==> is_part(#[trigger] parts[i]),
    ensures
        is_tame(text_of(parts, parts.len())) <==> !(exists|i: nat|
            i < parts.len() && #[trigger] overruns(parts, i)),
{
    parts_are_tallied(parts, parts.len());
}

/// A tally goes by what has been read, not by how.
proof fn tally_goes_on(s: Seq<char>, t: Seq<char>, more: Seq<char>)
    requires
        tally(s) == tally(t),
    ensures
        tally(s + more) == tally(t + more),
    decreases more.len(),
{
    if more.len() == 0 {
        assert(s + more =~= s && t + more =~= t);
    } else {
        tally_goes_on(s, t, more.drop_last());
        assert((s + more).drop_last() =~= s + more.drop_last());
        assert((t + more).drop_last() =~= t + more.drop_last());
    }
}

/// A unit is being named behind a letter and nowhere else.
proof fn only_letters_name_units(text: Seq<char>)
    ensures
        !tally(text).refused ==> (tally(text).unit != Unit::Unnamed <==> text.len() > 0
            && is_letter(text.last())),
    decreases text.len(),
{
    if text.len() > 0 {
        only_letters_name_units(text.drop_last());
    }
}

/// Space matters only between two letters: anywhere else, inside a number, between a number
/// and its unit, between two parts, before the first or behind the last, it decides
/// nothing.
pub proof fn space_matters_only_inside_names(text: Seq<char>, rest: Seq<char>)
    requires
        text.len() == 0 || rest.len() == 0 || !is_letter(text.last()) || !is_letter(rest[0]),
    ensures
        is_tame(text + seq![' '] + rest) == is_tame(text + rest),
{
    let spaced = text + seq![' '];
    let t = tally(text);
    assert(spaced.drop_last() =~= text);
    only_letters_name_units(text);
    if rest.len() == 0 {
        assert(spaced + rest =~= spaced);
        assert(text + rest =~= text);
        assert(0nat * 0nat / 1nat == 0);
    } else {
        let first = rest.take(1);
        let behind = rest.skip(1);
        assert((spaced + first).drop_last() =~= spaced);
        assert((text + first).drop_last() =~= text);
        assert(tally(spaced + first) == tally(text + first));
        tally_goes_on(spaced + first, text + first, behind);
        assert(spaced + rest =~= spaced + first + behind);
        assert(text + rest =~= text + first + behind);
    }
}

/// What the environment does not say: ten seconds for a negotiation, ten for a dial, and
/// twenty for a drain.
pub proof fn defaults_are_short()
    ensures
        Config::HANDSHAKE_SECS == 10,
        Config::DIAL_SECS == 10,
        Config::DRAIN_SECS == 20,
{
}

} // verus!
