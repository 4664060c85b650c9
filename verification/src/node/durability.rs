//! The journal's durability posture, as the environment asks for it.

use crate::text;
use crate::text::{parse_u64, quote, same_text, to_lower};
use vstd::prelude::*;
use vstd::string::StringExecFns;

verus! {

/// The variable that picks the posture.
pub const DURABILITY_VAR: &'static str = "UC2_JOURNAL_DURABILITY";

/// The variable that sets the interval of asynchronous flushes.
pub const INTERVAL_VAR: &'static str = "UC2_JOURNAL_EVENTUAL_FSYNC_MS";

/// An environment variable as read.
#[derive(Debug)]
pub enum EnvVar {
    Unset,
    /// Set, and not readable, for this reason.
    Unreadable(String),
    Value(String),
}

/// When a recorded byte counts as durable.
#[derive(Debug, Clone, Copy, PartialEq, Eq, Structural)]
pub enum Durability {
    /// Once it is flushed to disk.
    Consistent,
    /// Once it is written; the disk follows.
    Eventual,
}

/// The refusal of a variable that is set and not readable.
pub open spec fn unreadable_text(var: Seq<char>, cause: Seq<char>) -> Seq<char> {
    var + " unreadable: "@ + cause
}

/// The refusal of an unknown posture.
pub open spec fn unknown_posture_text(value: Seq<char>) -> Seq<char> {
    "UC2_JOURNAL_DURABILITY="@ + text::quoted(value)
        + " unrecognized (expected 'consistent' or 'eventual'); refusing to guess a durability posture"@
}

/// The refusal of an interval that is no positive number.
pub open spec fn bad_interval_text(value: Seq<char>) -> Seq<char> {
    "UC2_JOURNAL_EVENTUAL_FSYNC_MS="@ + text::quoted(value)
        + " invalid (expected a positive integer of milliseconds); refusing to guess"@
}

/// What an unreadable variable says.
fn unreadable(var: &str, cause: &str) -> (s: String)
    ensures
        s@ == unreadable_text(var@, cause@),
{
    let mut s = var.to_owned();
    s.append(" unreadable: ");
    s.append(cause);
    s
}

/// The posture asked for: consistent where nothing is asked. Anything but
/// the two names, in whatever case, is refused, an empty value too: a typing
/// error must not pick a posture.
pub fn journal_durability_from_env(var: &EnvVar) -> (r: Result<Durability, String>)
    ensures
        match *var {
            EnvVar::Unset => r == Ok::<_, String>(Durability::Consistent),
            EnvVar::Unreadable(e) => r matches Err(m) && m@ == unreadable_text(
                "UC2_JOURNAL_DURABILITY"@,
                e@,
            ),
            EnvVar::Value(v) => {
                match posture_named(v@) {
                    Some(d) => r == Ok::<_, String>(d),
                    None => r matches Err(m) && m@ == unknown_posture_text(text::lower(v@)),
                }
            },
        },
{
    match var {
        EnvVar::Unset => Ok(Durability::Consistent),
        EnvVar::Unreadable(e) => Err(unreadable("UC2_JOURNAL_DURABILITY", e.as_str())),
        EnvVar::Value(v) => {
            let asked = to_lower(v.as_str());
            if same_text(asked.as_str(), "consistent") {
                return Ok(Durability::Consistent);
            }
            if same_text(asked.as_str(), "eventual") {
                return Ok(Durability::Eventual);
            }
            let mut m = "UC2_JOURNAL_DURABILITY=".to_owned();
            let q = quote(asked.as_str());
            m.append(q.as_str());
            m.append(
                " unrecognized (expected 'consistent' or 'eventual'); refusing to guess a durability posture",
            );
            Err(m)
        },
    }
}

/// What is printed of a posture at boot: the default says nothing.
pub fn posture_warning(d: Durability) -> (w: Option<&'static str>)
    ensures
        match w {
            Some(w) => d is Eventual && w@
                == "uc2_node: UC2_JOURNAL_DURABILITY=eventual — journal fsync is ASYNCHRONOUS; acked positions may be lost on power failure (durability by replication). Opt-in posture; not the default."@,
            None => d is Consistent,
        },
{
    match d {
        Durability::Consistent => None,
        Durability::Eventual => Some(
            "uc2_node: UC2_JOURNAL_DURABILITY=eventual — journal fsync is ASYNCHRONOUS; acked positions may be lost on power failure (durability by replication). Opt-in posture; not the default.",
        ),
    }
}

/// The flush interval asked for, in milliseconds. Where the posture is
/// consistent a value is ignored; where it is eventual, anything but a
/// positive number is refused.
pub fn eventual_fsync_interval_from_env(durability: Durability, var: &EnvVar) -> (r: Result<
    Option<u64>,
    String,
>)
    ensures
        match *var {
            EnvVar::Unset => r == Ok::<Option<u64>, String>(None),
            EnvVar::Unreadable(e) => r matches Err(m) && m@ == unreadable_text(
                "UC2_JOURNAL_EVENTUAL_FSYNC_MS"@,
                e@,
            ),
            EnvVar::Value(v) => match interval_asked(durability, v@) {
                Some(ms) => r == Ok::<Option<u64>, String>(ms),
                None => r matches Err(m) && m@ == bad_interval_text(v@),
            },
        },
{
    match var {
        EnvVar::Unset => Ok(None),
        EnvVar::Unreadable(e) => Err(unreadable("UC2_JOURNAL_EVENTUAL_FSYNC_MS", e.as_str())),
        EnvVar::Value(v) => {
            if durability == Durability::Consistent {
                return Ok(None);
            }
            match parse_u64(v.as_str()) {
                Some(ms) => if ms > 0 {
                    return Ok(Some(ms));
                },
                None => {},
            }
            let mut m = "UC2_JOURNAL_EVENTUAL_FSYNC_MS=".to_owned();
            let q = quote(v.as_str());
            m.append(q.as_str());
            m.append(" invalid (expected a positive integer of milliseconds); refusing to guess");
            Err(m)
        },
    }
}

/// What is printed of an interval that is ignored.
pub fn interval_warning(durability: Durability, var: &EnvVar) -> (w: Option<String>)
    ensures
        match *var {
            EnvVar::Value(v) => if durability is Consistent {
                w matches Some(w) && w@ == "uc2_node: UC2_JOURNAL_EVENTUAL_FSYNC_MS="@ + v@
                    + " ignored — durability is Consistent (interval is Eventual-only)"@
            } else {
                w is None
            },
            _ => w is None,
        },
{
    match var {
        EnvVar::Value(v) => {
            if durability == Durability::Consistent {
                let mut m = "uc2_node: UC2_JOURNAL_EVENTUAL_FSYNC_MS=".to_owned();
                m.append(v.as_str());
                m.append(" ignored — durability is Consistent (interval is Eventual-only)");
                Some(m)
            } else {
                None
            }
        },
        _ => None,
    }
}

/// The posture that a value names.
pub open spec fn posture_named(value: Seq<char>) -> Option<Durability> {
    if text::lower(value) == "consistent"@ {
        Some(Durability::Consistent)
    } else if text::lower(value) == "eventual"@ {
        Some(Durability::Eventual)
    } else {
        None
    }
}

/// The flush interval that a value asks for under a posture: `None` where it
/// is refused, and no interval where the posture has none.
pub open spec fn interval_asked(durability: Durability, value: Seq<char>) -> Option<Option<u64>> {
    if durability is Consistent {
        Some(None)
    } else {
        match text::u64_of(value) {
            Some(ms) => if ms > 0 {
                Some(Some(ms))
            } else {
                None
            },
            None => None,
        }
    }
}

/// A posture is named by one of two words, in whatever case, and each word
/// names its own; nothing else names one, an empty value least of all.
pub proof fn law_postures_are_named_exactly(value: Seq<char>, other: Seq<char>)
    ensures
        posture_named("consistent"@) == Some(Durability::Consistent),
        posture_named("eventual"@) == Some(Durability::Eventual),
        posture_named(value) == Some(Durability::Consistent) <==> text::lower(value)
            == "consistent"@,
        posture_named(value) == Some(Durability::Eventual) <==> text::lower(value) == "eventual"@,
        text::lower(value) == text::lower(other) ==> posture_named(value) == posture_named(other),
        value.len() != 10 && value.len() != 8 ==> posture_named(value) is None,
{
    reveal_strlit("consistent");
    reveal_strlit("eventual");
    assert(text::lower("consistent"@) =~= "consistent"@);
    assert(text::lower("eventual"@) =~= "eventual"@);
    assert(text::lower(value).len() == value.len());
    assert("consistent"@.len() == 10);
    assert("eventual"@.len() == 8);
}

/// An interval is taken as it was written where it is a positive number and
/// flushes are asynchronous; where they are not it is ignored, and anything
/// else is refused.
pub proof fn law_intervals_are_positive(value: Seq<char>)
    ensures
        interval_asked(Durability::Consistent, value) == Some(None::<u64>),
        interval_asked(Durability::Eventual, value) is Some <==> text::u64_of(value) is Some
            && text::u64_of(value)->0 > 0,
        interval_asked(Durability::Eventual, value) matches Some(ms) ==> ms == text::u64_of(value),
{
}

/// Refusals tell the variable and what was wrong with it.
pub proof fn law_environment_refusals_tell_the_variable(
    var: Seq<char>,
    cause: Seq<char>,
    value: Seq<char>,
)
    ensures
        unreadable_text(var, cause) == var + " unreadable: "@ + cause,
        crate::audit::tells(
            unknown_posture_text(value),
            "UC2_JOURNAL_DURABILITY="@ + text::quoted(value),
        ),
        crate::audit::tells(
            bad_interval_text(value),
            "UC2_JOURNAL_EVENTUAL_FSYNC_MS="@ + text::quoted(value),
        ),
{
    let e = Seq::<char>::empty();
    let a = "UC2_JOURNAL_DURABILITY="@ + text::quoted(value);
    let b = "UC2_JOURNAL_EVENTUAL_FSYNC_MS="@ + text::quoted(value);
    let u = unknown_posture_text(value);
    let v = bad_interval_text(value);
    crate::audit::lemma_told(u, e, a, u.skip(a.len() as int));
    crate::audit::lemma_told(v, e, b, v.skip(b.len() as int));
}

} // verus!
