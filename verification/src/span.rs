//! Time spans and the duration texts they are read from.

use crate::text::{chars_of, is_space, is_white_space};
use vstd::prelude::*;
use vstd::string::StringExecFns;

verus! {

/// A non-negative span of time: whole seconds and the nanoseconds beyond
/// them.
#[derive(Debug, Clone, Copy, PartialEq, Eq, Structural)]
pub struct Span {
    pub secs: u64,
    pub nanos: u32,
}

pub const NANOS_PER_SEC: u32 = 1_000_000_000;

impl Span {
    /// The nanoseconds stay below one second.
    pub open spec fn wf(self) -> bool {
        self.nanos < NANOS_PER_SEC
    }

    /// The whole span in nanoseconds.
    pub open spec fn total_nanos(self) -> nat {
        (self.secs * NANOS_PER_SEC + self.nanos) as nat
    }

    /// A span of whole seconds.
    pub fn from_secs(secs: u64) -> (span: Span)
        ensures
            span.secs == secs,
            span.nanos == 0,
            span.wf(),
    {
        Span { secs, nanos: 0 }
    }

    /// The whole span in nanoseconds.
    pub fn nanos_total(&self) -> (total: u128)
        ensures
            total == self.total_nanos(),
    {
        assert(self.secs * NANOS_PER_SEC <= u64::MAX * NANOS_PER_SEC) by (nonlinear_arith)
            requires
                self.secs <= u64::MAX,
        ;
        (self.secs as u128) * (NANOS_PER_SEC as u128) + (self.nanos as u128)
    }

    /// Whether the span has no length at all.
    pub fn is_zero(&self) -> (zero: bool)
        ensures
            zero == (self.total_nanos() == 0),
    {
        assert(self.secs > 0 ==> self.secs * NANOS_PER_SEC > 0) by (nonlinear_arith);
        self.secs == 0 && self.nanos == 0
    }

    /// The full minutes in the span.
    pub fn whole_minutes(&self) -> (minutes: u64)
        ensures
            minutes == self.secs / 60,
    {
        self.secs / 60
    }
}

/// Whether `c` is one of the ten ASCII digits.
pub open spec fn is_digit(c: char) -> bool {
    '0' <= c && c <= '9'
}

/// How many digits the number has that `text` ends in: white space
/// within a number does not end it, any other character does.
pub open spec fn trailing_digits(text: Seq<char>) -> nat
    decreases text.len(),
{
    if text.len() == 0 {
        0
    } else if is_digit(text.last()) {
        trailing_digits(text.drop_last()) + 1
    } else if is_space(text.last()) {
        trailing_digits(text.drop_last())
    } else {
        0
    }
}

/// Ten to the power of `n`.
pub open spec fn pow10(n: nat) -> nat
    decreases n,
{
    if n == 0 {
        1
    } else {
        10 * pow10((n - 1) as nat)
    }
}

/// The weight of a number of `digits` digits: ten to their count, which is
/// more than any such number; no digits weigh nothing.
pub open spec fn run_weight(digits: nat) -> nat {
    if digits == 0 {
        0
    } else {
        pow10(digits)
    }
}

/// The weight of a text: the weights of its numbers, added up.
pub open spec fn number_weight(text: Seq<char>) -> nat
    decreases text.len(),
{
    if text.len() == 0 {
        0
    } else if is_digit(text.last()) {
        (number_weight(text.drop_last()) - run_weight(trailing_digits(text.drop_last()))
            + run_weight(trailing_digits(text.drop_last()) + 1)) as nat
    } else {
        number_weight(text.drop_last())
    }
}

/// The most a duration text may weigh. Each span of the text is a number
/// and a unit, and no unit is longer than a year of 31,557,600 seconds: a
/// text within the limit stands for fewer than four million million
/// million seconds, well within what can be counted.
pub const WEIGHT_LIMIT: u64 = 100_000_000_000;

/// The number a text ends in never weighs more than the whole text.
pub proof fn lemma_run_is_part_of_weight(text: Seq<char>)
    ensures
        run_weight(trailing_digits(text)) <= number_weight(text),
    decreases text.len(),
{
    if text.len() > 0 {
        lemma_run_is_part_of_weight(text.drop_last());
    }
}

/// A longer number weighs more.
pub proof fn lemma_run_weight_grows(digits: nat)
    ensures
        run_weight(digits) < run_weight(digits + 1),
        run_weight(digits + 1) == if digits == 0 {
            10
        } else {
            10 * run_weight(digits)
        },
    decreases digits,
{
    reveal_with_fuel(pow10, 2);
    if digits > 0 {
        lemma_run_weight_grows((digits - 1) as nat);
    }
}

/// A text never weighs less than what it begins with.
pub proof fn lemma_weight_never_falls(text: Seq<char>, upto: int)
    requires
        0 <= upto <= text.len(),
    ensures
        number_weight(text.take(upto)) <= number_weight(text),
    decreases text.len() - upto,
{
    if upto < text.len() {
        lemma_weight_never_falls(text, upto + 1);
        let longer = text.take(upto + 1);
        assert(longer.drop_last() =~= text.take(upto));
        lemma_run_is_part_of_weight(text.take(upto));
        lemma_run_weight_grows(trailing_digits(text.take(upto)));
    } else {
        assert(text.take(upto) =~= text);
    }
}

/// Whether a text weighs no more than the limit.
pub fn within_weight_limit(text: &str) -> (within: bool)
    ensures
        within == (number_weight(text@) <= WEIGHT_LIMIT),
{
    let chars = chars_of(text);
    let mut weight: u64 = 0;
    let mut run: u64 = 0;
    let mut i: usize = 0;
    assert(text@.take(0) =~= Seq::<char>::empty());
    while i < chars.len()
        invariant
            i <= chars.len(),
            chars@ == text@,
            weight == number_weight(text@.take(i as int)),
            run == run_weight(trailing_digits(text@.take(i as int))),
            run <= weight <= WEIGHT_LIMIT,
        decreases chars.len() - i,
    {
        let ghost before = text@.take(i as int);
        proof {
            let next = text@.take(i + 1);
            assert(next.drop_last() =~= before);
            assert(next.last() == chars@[i as int]);
            lemma_run_weight_grows(trailing_digits(before));
        }
        let c = chars[i];
        if '0' <= c && c <= '9' {
            let longer: u64 = if run == 0 {
                10
            } else {
                run * 10
            };
            let heavier: u64 = weight - run + longer;
            if heavier > WEIGHT_LIMIT {
                proof {
                    lemma_weight_never_falls(text@, i + 1);
                }
                return false;
            }
            weight = heavier;
            run = longer;
        } else if !is_white_space(c) {
            run = 0;
        }
        i += 1;
    }
    assert(text@.take(text@.len() as int) =~= text@);
    true
}

/// What `humantime::parse_duration` makes of a duration text: the seconds
/// and nanoseconds of the duration, or `None` where it reports an error.
pub uninterp spec fn humantime_duration(text: Seq<char>) -> Option<(u64, u32)>;

/// The error of `humantime::parse_duration`.
#[verifier::external_type_specification]
#[verifier::external_body]
pub struct ExDurationError(humantime::DurationError);

/// Calls `humantime::parse_duration`. The result is a function of the text
/// alone; it is named, not spelled out. A duration comes back as its seconds
/// and its nanoseconds beyond them, which stay below one second. Texts over
/// the weight limit are left out: among them are some on which the parser's
/// final carry into the seconds overflows.
#[verifier::external_body]
fn parse_with_humantime(text: &str) -> (parsed: Result<Span, humantime::DurationError>)
    requires
        number_weight(text@) <= WEIGHT_LIMIT,
    ensures
        match parsed {
            Ok(span) => humantime_duration(text@) == Some((span.secs, span.nanos)) && span.wf(),
            Err(_) => humantime_duration(text@) is None,
        },
{
    match humantime::parse_duration(text) {
        Ok(duration) => Ok(Span { secs: duration.as_secs(), nanos: duration.subsec_nanos() }),
        Err(error) => Err(error),
    }
}

/// The words in which `humantime::DurationError` describes itself, through
/// its `Display`. Nothing is claimed of them.
#[verifier::external_body]
fn describe_error(error: &humantime::DurationError) -> (words: String) {
    error.to_string()
}

/// The span that a duration text stands for, if it stands for one: a text
/// over the weight limit stands for none, any other for what the duration
/// parser makes of it.
pub open spec fn span_of(text: Seq<char>) -> Option<Span> {
    if number_weight(text) > WEIGHT_LIMIT {
        None
    } else {
        match humantime_duration(text) {
            Some((secs, nanos)) => Some(Span { secs, nanos }),
            None => None,
        }
    }
}

/// Reads a duration text such as `25m`, `1h 30m` or `90s`. On failure the
/// error holds the reason in words.
pub fn parse_span(text: &str) -> (parsed: Result<Span, String>)
    ensures
        match parsed {
            Ok(span) => span_of(text@) == Some(span) && span.wf(),
            Err(_) => span_of(text@) is None,
        },
{
    if !within_weight_limit(text) {
        return Err("number is too large".to_owned());
    }
    match parse_with_humantime(text) {
        Ok(span) => Ok(span),
        Err(error) => Err(describe_error(&error)),
    }
}

/// Which duration of a start request a text was given for.
#[derive(Debug, Clone, Copy, PartialEq, Eq, Structural)]
pub enum DurationField {
    Session,
    Pomodoro,
    ShortBreak,
    LongBreak,
}

/// A duration text that cannot be used, found before anything was changed.
#[derive(Debug, Clone, PartialEq, Eq)]
pub struct ValidationError {
    pub field: DurationField,
    /// Whether the text came from the configuration, not from the request.
    pub from_config: bool,
    /// The text as it was given.
    pub value: String,
    /// Why it cannot be used.
    pub reason: String,
}

/// How the message of a validation error begins, up to the quoted value.
pub open spec fn message_head(field: DurationField, from_config: bool) -> Seq<char> {
    match field {
        DurationField::Session => "Invalid duration '"@,
        DurationField::Pomodoro => if from_config {
            "Invalid pomodoro duration in config '"@
        } else {
            "Invalid pomodoro duration '"@
        },
        DurationField::ShortBreak => if from_config {
            "Invalid break duration in config '"@
        } else {
            "Invalid break duration '"@
        },
        DurationField::LongBreak => if from_config {
            "Invalid long break duration in config '"@
        } else {
            "Invalid long break duration '"@
        },
    }
}

/// How the message of a validation error ends: the formats to use.
pub open spec fn message_tail(field: DurationField) -> Seq<char> {
    match field {
        DurationField::Session => ". Use format like '25m', '1h', '30s', etc."@,
        DurationField::Pomodoro => ". Use format like '25m', '1h', etc."@,
        DurationField::ShortBreak => ". Use format like '5m', '10m', etc."@,
        DurationField::LongBreak => ". Use format like '15m', '30m', etc."@,
    }
}

impl ValidationError {
    /// The message: which duration, the offending value in quotes, the
    /// reason, and the formats to use.
    pub open spec fn message_text(self) -> Seq<char> {
        message_head(self.field, self.from_config) + self.value@ + "': "@ + self.reason@
            + message_tail(self.field)
    }

    /// The message to show the user.
    pub fn message(&self) -> (text: String)
        ensures
            text@ == self.message_text(),
    {
        let head = match self.field {
            DurationField::Session => "Invalid duration '",
            DurationField::Pomodoro => if self.from_config {
                "Invalid pomodoro duration in config '"
            } else {
                "Invalid pomodoro duration '"
            },
            DurationField::ShortBreak => if self.from_config {
                "Invalid break duration in config '"
            } else {
                "Invalid break duration '"
            },
            DurationField::LongBreak => if self.from_config {
                "Invalid long break duration in config '"
            } else {
                "Invalid long break duration '"
            },
        };
        let tail = match self.field {
            DurationField::Session => ". Use format like '25m', '1h', '30s', etc.",
            DurationField::Pomodoro => ". Use format like '25m', '1h', etc.",
            DurationField::ShortBreak => ". Use format like '5m', '10m', etc.",
            DurationField::LongBreak => ". Use format like '15m', '30m', etc.",
        };
        let mut text = head.to_owned();
        text.append(self.value.as_str());
        text.append("': ");
        text.append(self.reason.as_str());
        text.append(tail);
        text
    }
}

} // verus!
