//! Mathematical model of the message grammar.
//!
//! A recognizer is a sequence of literal anchors interleaved with
//! extraction spans (runs of characters up to a stopping delimiter).
//! The spec functions here describe, over `Seq<char>`, exactly which
//! inputs each recognizer accepts and what it extracts; `spec_classify`
//! composes them in the priority order that `parse_msg` implements.

use vstd::prelude::*;

verus! {

/// The Unicode white-space code points, as `char::is_whitespace`
/// counts them.
pub open spec fn is_ws(c: char) -> bool {
    let u = c as u32;
    ||| u == 0x20
    ||| (0x09 <= u && u <= 0x0D)
    ||| u == 0x85
    ||| u == 0xA0
    ||| u == 0x1680
    ||| (0x2000 <= u && u <= 0x200A)
    ||| u == 0x2028
    ||| u == 0x2029
    ||| u == 0x202F
    ||| u == 0x205F
    ||| u == 0x3000
}

pub open spec fn trim_start(s: Seq<char>) -> Seq<char>
    decreases s.len(),
{
    if s.len() > 0 && is_ws(s[0]) {
        trim_start(s.drop_first())
    } else {
        s
    }
}

pub open spec fn trim_end(s: Seq<char>) -> Seq<char>
    decreases s.len(),
{
    if s.len() > 0 && is_ws(s[s.len() - 1]) {
        trim_end(s.drop_last())
    } else {
        s
    }
}

/// The text with white space removed from both ends.
pub open spec fn trimmed(s: Seq<char>) -> Seq<char> {
    trim_end(trim_start(s))
}

/// Position of the first occurrence of a stop character (`a` or `b`) at
/// or after `pos`, or the end of `s` when none occurs.  A one-character
/// stop set is written with `a == b`.
pub open spec fn stop_at(s: Seq<char>, a: char, b: char, pos: int) -> int
    decreases s.len() - pos,
{
    if pos < 0 || pos >= s.len() {
        s.len() as int
    } else if s[pos] == a || s[pos] == b {
        pos
    } else {
        stop_at(s, a, b, pos + 1)
    }
}

/// Consume the literal `lit` at `pos`: the position just after it, or
/// `None` when the input does not carry `lit` there.
pub open spec fn after_lit(s: Seq<char>, pos: int, lit: Seq<char>) -> Option<int> {
    if pos + lit.len() <= s.len() && s.subrange(pos, pos + lit.len()) == lit {
        Some(pos + lit.len())
    } else {
        None
    }
}

/// Consume a non-empty run of characters containing neither stop
/// character: the position of the first stop (or the end of input), or
/// `None` when the run would be empty.
pub open spec fn after_span(s: Seq<char>, pos: int, a: char, b: char) -> Option<int> {
    if stop_at(s, a, b, pos) > pos {
        Some(stop_at(s, a, b, pos))
    } else {
        None
    }
}

pub open spec fn ups_prefix() -> Seq<char> {
    "The UPS device connected to "@
}

pub open spec fn battery_anchor() -> Seq<char> {
    " has entered battery mode."@
}

pub open spec fn low_battery_anchor() -> Seq<char> {
    " has reached low battery."@
}

pub open spec fn ac_anchor() -> Seq<char> {
    " has returned to AC mode."@
}

pub open spec fn lost_anchor() -> Seq<char> {
    " has lost the connection to the UPS."@
}

pub open spec fn connected_anchor() -> Seq<char> {
    " has connected to the UPS device."@
}

pub open spec fn test_prefix() -> Seq<char> {
    "Test Message from "@
}

pub open spec fn period() -> Seq<char> {
    "."@
}

/// The six event kinds, as bare tags for the model.
pub enum EventKind {
    BatteryMode,
    LowBattery,
    AcMode,
    ConnectionLost,
    Connected,
    Test,
}

/// What one successful classification yields: the event kind, the
/// extracted (trimmed) host name, the trimmed battery fragment where the
/// kind carries one, and the number of characters consumed.
pub struct Outcome {
    pub kind: EventKind,
    pub name: Seq<char>,
    pub battery: Option<Seq<char>>,
    pub end: int,
}

/// Battery-mode recognizer: prefix anchor, name up to a space, anchor,
/// battery text up to a line break.
pub open spec fn battery_mode_parse(s: Seq<char>) -> Option<Outcome> {
    match after_lit(s, 0, ups_prefix()) {
        None => None,
        Some(p1) => match after_span(s, p1, ' ', ' ') {
            None => None,
            Some(p2) => match after_lit(s, p2, battery_anchor()) {
                None => None,
                Some(p3) => match after_span(s, p3, '\n', '\n') {
                    None => None,
                    Some(p4) => Some(
                        Outcome {
                            kind: EventKind::BatteryMode,
                            name: trimmed(s.subrange(p1, p2)),
                            battery: Some(trimmed(s.subrange(p3, p4))),
                            end: p4,
                        },
                    ),
                },
            },
        },
    }
}

/// Low-battery recognizer: prefix anchor, name up to a space, anchor.
pub open spec fn low_battery_parse(s: Seq<char>) -> Option<Outcome> {
    match after_lit(s, 0, ups_prefix()) {
        None => None,
        Some(p1) => match after_span(s, p1, ' ', ' ') {
            None => None,
            Some(p2) => match after_lit(s, p2, low_battery_anchor()) {
                None => None,
                Some(p3) => Some(
                    Outcome {
                        kind: EventKind::LowBattery,
                        name: trimmed(s.subrange(p1, p2)),
                        battery: None,
                        end: p3,
                    },
                ),
            },
        },
    }
}

/// Test-message recognizer: prefix anchor, name up to a period or space,
/// closing period.
pub open spec fn test_parse(s: Seq<char>) -> Option<Outcome> {
    match after_lit(s, 0, test_prefix()) {
        None => None,
        Some(p1) => match after_span(s, p1, '.', ' ') {
            None => None,
            Some(p2) => match after_lit(s, p2, period()) {
                None => None,
                Some(p3) => Some(
                    Outcome {
                        kind: EventKind::Test,
                        name: trimmed(s.subrange(p1, p2)),
                        battery: None,
                        end: p3,
                    },
                ),
            },
        },
    }
}

/// AC-mode recognizer: prefix anchor, name up to a space, anchor.
pub open spec fn ac_mode_parse(s: Seq<char>) -> Option<Outcome> {
    match after_lit(s, 0, ups_prefix()) {
        None => None,
        Some(p1) => match after_span(s, p1, ' ', ' ') {
            None => None,
            Some(p2) => match after_lit(s, p2, ac_anchor()) {
                None => None,
                Some(p3) => Some(
                    Outcome {
                        kind: EventKind::AcMode,
                        name: trimmed(s.subrange(p1, p2)),
                        battery: None,
                        end: p3,
                    },
                ),
            },
        },
    }
}

/// Connection-lost recognizer: name up to a space from the very start,
/// then the anchor.
pub open spec fn connection_lost_parse(s: Seq<char>) -> Option<Outcome> {
    match after_span(s, 0, ' ', ' ') {
        None => None,
        Some(p1) => match after_lit(s, p1, lost_anchor()) {
            None => None,
            Some(p2) => Some(
                Outcome {
                    kind: EventKind::ConnectionLost,
                    name: trimmed(s.subrange(0, p1)),
                    battery: None,
                    end: p2,
                },
            ),
        },
    }
}

/// Connected recognizer: name up to a space from the very start, then
/// the anchor.
pub open spec fn connected_parse(s: Seq<char>) -> Option<Outcome> {
    match after_span(s, 0, ' ', ' ') {
        None => None,
        Some(p1) => match after_lit(s, p1, connected_anchor()) {
            None => None,
            Some(p2) => Some(
                Outcome {
                    kind: EventKind::Connected,
                    name: trimmed(s.subrange(0, p1)),
                    battery: None,
                    end: p2,
                },
            ),
        },
    }
}

/// The whole classifier: the recognizers are tried in priority order and
/// the first structural match wins.  The order is load-bearing because
/// the templates share prefixes.
pub open spec fn spec_classify(s: Seq<char>) -> Option<Outcome> {
    if battery_mode_parse(s) is Some {
        battery_mode_parse(s)
    } else if low_battery_parse(s) is Some {
        low_battery_parse(s)
    } else if test_parse(s) is Some {
        test_parse(s)
    } else if ac_mode_parse(s) is Some {
        ac_mode_parse(s)
    } else if connection_lost_parse(s) is Some {
        connection_lost_parse(s)
    } else {
        connected_parse(s)
    }
}

} // verus!
