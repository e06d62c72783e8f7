use vstd::prelude::*;

use std::time::Duration;

use crate::text::{
    chars_of, concat, ends_with, matches_at_exec, parse_uint, parse_uint_range, str_eq,
    IntErrorKind,
};

verus! {

/// What the served model is for.
#[derive(Clone, Copy, Debug, PartialEq, Eq, Structural)]
pub enum Task {
    Code,
    Chat,
}

/// What `install` can install.
#[derive(Clone, Copy, Debug, PartialEq, Eq, Structural)]
pub enum InstallTarget {
    LlamaCpp,
}

impl Task {
    /// The task's name, as it is written on the command line and in the registry.
    pub open spec fn name(self) -> Seq<char> {
        match self {
            Task::Code => "code"@,
            Task::Chat => "chat"@,
        }
    }

    /// The task whose name is `s`, if any.
    pub open spec fn from_name(s: Seq<char>) -> Option<Task> {
        if s == "code"@ {
            Some(Task::Code)
        } else if s == "chat"@ {
            Some(Task::Chat)
        } else {
            None
        }
    }

    pub fn as_str(&self) -> (r: &'static str)
        ensures
            r@ == self.name(),
    {
        match self {
            Task::Code => "code",
            Task::Chat => "chat",
        }
    }

    /// What the task displays: its name.
    pub fn to_string(&self) -> (r: String)
        ensures
            r@ == self.name(),
    {
        String::from_str(self.as_str())
    }

    /// Reads a task from its name; any other text is refused with "unsupported task: <text>".
    pub fn parse(s: &str) -> (r: Result<Task, String>)
        ensures
            match Task::from_name(s@) {
                Some(t) => r == Ok::<Task, String>(t),
                None => r matches Err(e) && e@ == "unsupported task: "@ + s@,
            },
    {
        if str_eq(s, "code") {
            Ok(Task::Code)
        } else if str_eq(s, "chat") {
            Ok(Task::Chat)
        } else {
            Err(concat("unsupported task: ", s))
        }
    }
}

impl std::str::FromStr for Task {
    type Err = String;

    /// As `Task::parse`: the task named `s`, or "unsupported task: <s>".
    fn from_str(s: &str) -> (r: Result<Self, Self::Err>)
        ensures
            match Task::from_name(s@) {
                Some(t) => r == Ok::<Task, String>(t),
                None => r matches Err(e) && e@ == "unsupported task: "@ + s@,
            },
    {
        Task::parse(s)
    }
}

/// Every task reads back from its own name.
pub proof fn lemma_task_name_round_trip(t: Task)
    ensures
        Task::from_name(t.name()) == Some(t),
{
    reveal_strlit("code");
    reveal_strlit("chat");
    assert("code"@[1] != "chat"@[1]);
}

/// `Duration::from_millis(ms)`.
pub uninterp spec fn millis_duration(ms: u64) -> Duration;

/// `Duration::from_secs(secs)`.
pub uninterp spec fn secs_duration(secs: u64) -> Duration;

/// Calls `std::time::Duration::from_millis`, which cannot fail; its result is named
/// `millis_duration(ms)`.
#[verifier::external_body]
fn duration_from_millis(ms: u64) -> (d: Duration)
    ensures
        d == millis_duration(ms),
{
    Duration::from_millis(ms)
}

/// Calls `std::time::Duration::from_secs`, which cannot fail; its result is named
/// `secs_duration(secs)`.
#[verifier::external_body]
fn duration_from_secs(secs: u64) -> (d: Duration)
    ensures
        d == secs_duration(secs),
{
    Duration::from_secs(secs)
}

/// What a `ParseIntError` of each kind displays.
pub open spec fn int_error_text(k: IntErrorKind) -> Seq<char> {
    match k {
        IntErrorKind::Empty => "cannot parse integer from empty string"@,
        IntErrorKind::InvalidDigit => "invalid digit found in string"@,
        IntErrorKind::PosOverflow => "number too large to fit in target type"@,
    }
}

pub fn int_error_string(k: IntErrorKind) -> (r: String)
    ensures
        r@ == int_error_text(k),
{
    match k {
        IntErrorKind::Empty => String::from_str("cannot parse integer from empty string"),
        IntErrorKind::InvalidDigit => String::from_str("invalid digit found in string"),
        IntErrorKind::PosOverflow => String::from_str("number too large to fit in target type"),
    }
}

/// `s` without the suffix `p`, if it ends with `p` (`str::strip_suffix`).
pub open spec fn strip_suffix(s: Seq<char>, p: Seq<char>) -> Option<Seq<char>> {
    if ends_with(s, p) { Some(s.subrange(0, s.len() - p.len())) } else { None }
}

/// The result `parse_duration` gives for `s`, the duration named by its constructor call.
pub open spec fn duration_result(s: Seq<char>) -> Result<Duration, Seq<char>> {
    match strip_suffix(s, "ms"@) {
        Some(n) => match parse_uint(n, u64::MAX as int) {
            Ok(v) => Ok(millis_duration(v as u64)),
            Err(k) => Err(int_error_text(k)),
        },
        None => match strip_suffix(s, "s"@) {
            Some(n) => match parse_uint(n, u64::MAX as int) {
                Ok(v) => Ok(secs_duration(v as u64)),
                Err(k) => Err(int_error_text(k)),
            },
            None => Err("duration must end with 's' or 'ms'"@),
        },
    }
}

/// Reads a duration written as a whole number of milliseconds (`250ms`) or seconds (`5s`).
pub fn parse_duration(s: &str) -> (r: Result<Duration, String>)
    ensures
        match duration_result(s@) {
            Ok(d) => r == Ok::<Duration, String>(d),
            Err(m) => r matches Err(e) && e@ == m,
        },
{
    let cs = chars_of(s);
    let ms = chars_of("ms");
    let sec = chars_of("s");
    let n = cs.len();
    if n >= 2 && matches_at_exec(&cs, &ms, n - 2) {
        proof {
            reveal_strlit("ms");
        }
        return match parse_uint_range(&cs, 0, n - 2, u64::MAX) {
            Ok(v) => Ok(duration_from_millis(v)),
            Err(k) => Err(int_error_string(k)),
        };
    }
    proof {
        reveal_strlit("ms");
    }
    assert(strip_suffix(s@, "ms"@) is None);
    if n >= 1 && matches_at_exec(&cs, &sec, n - 1) {
        proof {
            reveal_strlit("s");
        }
        return match parse_uint_range(&cs, 0, n - 1, u64::MAX) {
            Ok(v) => Ok(duration_from_secs(v)),
            Err(k) => Err(int_error_string(k)),
        };
    }
    proof {
        reveal_strlit("s");
    }
    Err(String::from_str("duration must end with 's' or 'ms'"))
}

} // verus!
