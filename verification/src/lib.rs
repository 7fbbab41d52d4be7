//! Classifier for the UPS notification messages a NAS operating system
//! emits.  `parse_msg` tries six pattern recognizers in a fixed priority
//! order against the front of the input and returns the first structural
//! match as a typed event together with the unconsumed remainder, or
//! `NoMatch` when no recognizer applies.

use vstd::prelude::*;

pub mod grammar;
pub mod laws;
mod scan;

verus! {

use crate::grammar::{
    ac_mode_parse, battery_mode_parse, connected_parse, connection_lost_parse, low_battery_parse,
    spec_classify, test_parse, EventKind, Outcome,
};
use crate::scan::{match_lit, take_span, trim_to_string};
use vstd::string::StrSliceExecFns;

/// The machine a UPS event pertains to, as extracted from a message.
#[derive(PartialEq, Eq, Debug)]
pub struct Host {
    /// Host identifier exactly as it appears in the message.
    pub name: String,
    /// Battery-status fragment; present only for the battery-mode event.
    pub battery_msg: Option<String>,
}

impl Host {
    /// A host with the given name and no battery message.
    pub fn new(name: String) -> (r: Self)
        ensures
            r.name == name,
            r.battery_msg is None,
    {
        Self { name, battery_msg: None }
    }
}

/// The closed set of classified UPS/test notification kinds.
#[derive(PartialEq, Eq, Debug)]
pub enum DsmEvent {
    UpsBatteryMode(Host),
    UpsLowBattery(Host),
    UpsAcMode(Host),
    UpsConnectionLost(Host),
    UpsConnected(Host),
    Test(Host),
}

/// The sole failure outcome: no recognizer matched the input.
#[derive(PartialEq, Eq, Debug)]
pub struct NoMatch;

/// Whether the event `e` carries exactly the kind and fields of the
/// model outcome `oc`.
pub open spec fn event_matches(e: DsmEvent, oc: Outcome) -> bool {
    match e {
        DsmEvent::UpsBatteryMode(h) => {
            &&& oc.kind == EventKind::BatteryMode
            &&& h.name@ == oc.name
            &&& h.battery_msg matches Some(m) && oc.battery == Some(m@)
        },
        DsmEvent::UpsLowBattery(h) => {
            &&& oc.kind == EventKind::LowBattery
            &&& h.name@ == oc.name
            &&& h.battery_msg is None
            &&& oc.battery is None
        },
        DsmEvent::UpsAcMode(h) => {
            &&& oc.kind == EventKind::AcMode
            &&& h.name@ == oc.name
            &&& h.battery_msg is None
            &&& oc.battery is None
        },
        DsmEvent::UpsConnectionLost(h) => {
            &&& oc.kind == EventKind::ConnectionLost
            &&& h.name@ == oc.name
            &&& h.battery_msg is None
            &&& oc.battery is None
        },
        DsmEvent::UpsConnected(h) => {
            &&& oc.kind == EventKind::Connected
            &&& h.name@ == oc.name
            &&& h.battery_msg is None
            &&& oc.battery is None
        },
        DsmEvent::Test(h) => {
            &&& oc.kind == EventKind::Test
            &&& h.name@ == oc.name
            &&& h.battery_msg is None
            &&& oc.battery is None
        },
    }
}

/// Battery-mode recognizer.
fn recognize_battery_mode(s: &str, n: usize) -> (r: Option<(usize, DsmEvent)>)
    requires
        n == s@.len(),
    ensures
        match battery_mode_parse(s@) {
            Some(oc) => r matches Some((e, ev)) && e as int == oc.end && e <= n && event_matches(
                ev,
                oc,
            ),
            None => r is None,
        },
{
    let p1 = match match_lit(s, n, 0, "The UPS device connected to ") {
        Some(p) => p,
        None => { return None },
    };
    let p2 = match take_span(s, n, p1, ' ', ' ') {
        Some(p) => p,
        None => { return None },
    };
    let p3 = match match_lit(s, n, p2, " has entered battery mode.") {
        Some(p) => p,
        None => { return None },
    };
    let p4 = match take_span(s, n, p3, '\n', '\n') {
        Some(p) => p,
        None => { return None },
    };
    let name = trim_to_string(s.substring_char(p1, p2));
    let battery = trim_to_string(s.substring_char(p3, p4));
    Some((p4, DsmEvent::UpsBatteryMode(Host { name, battery_msg: Some(battery) })))
}

/// Low-battery recognizer.
fn recognize_low_battery(s: &str, n: usize) -> (r: Option<(usize, DsmEvent)>)
    requires
        n == s@.len(),
    ensures
        match low_battery_parse(s@) {
            Some(oc) => r matches Some((e, ev)) && e as int == oc.end && e <= n && event_matches(
                ev,
                oc,
            ),
            None => r is None,
        },
{
    let p1 = match match_lit(s, n, 0, "The UPS device connected to ") {
        Some(p) => p,
        None => { return None },
    };
    let p2 = match take_span(s, n, p1, ' ', ' ') {
        Some(p) => p,
        None => { return None },
    };
    let p3 = match match_lit(s, n, p2, " has reached low battery.") {
        Some(p) => p,
        None => { return None },
    };
    let name = trim_to_string(s.substring_char(p1, p2));
    Some((p3, DsmEvent::UpsLowBattery(Host::new(name))))
}

/// Test-message recognizer.
fn recognize_test(s: &str, n: usize) -> (r: Option<(usize, DsmEvent)>)
    requires
        n == s@.len(),
    ensures
        match test_parse(s@) {
            Some(oc) => r matches Some((e, ev)) && e as int == oc.end && e <= n && event_matches(
                ev,
                oc,
            ),
            None => r is None,
        },
{
    let p1 = match match_lit(s, n, 0, "Test Message from ") {
        Some(p) => p,
        None => { return None },
    };
    let p2 = match take_span(s, n, p1, '.', ' ') {
        Some(p) => p,
        None => { return None },
    };
    let p3 = match match_lit(s, n, p2, ".") {
        Some(p) => p,
        None => { return None },
    };
    let name = trim_to_string(s.substring_char(p1, p2));
    Some((p3, DsmEvent::Test(Host::new(name))))
}

/// AC-mode recognizer.
fn recognize_ac_mode(s: &str, n: usize) -> (r: Option<(usize, DsmEvent)>)
    requires
        n == s@.len(),
    ensures
        match ac_mode_parse(s@) {
            Some(oc) => r matches Some((e, ev)) && e as int == oc.end && e <= n && event_matches(
                ev,
                oc,
            ),
            None => r is None,
        },
{
    let p1 = match match_lit(s, n, 0, "The UPS device connected to ") {
        Some(p) => p,
        None => { return None },
    };
    let p2 = match take_span(s, n, p1, ' ', ' ') {
        Some(p) => p,
        None => { return None },
    };
    let p3 = match match_lit(s, n, p2, " has returned to AC mode.") {
        Some(p) => p,
        None => { return None },
    };
    let name = trim_to_string(s.substring_char(p1, p2));
    Some((p3, DsmEvent::UpsAcMode(Host::new(name))))
}

/// Connection-lost recognizer.
fn recognize_connection_lost(s: &str, n: usize) -> (r: Option<(usize, DsmEvent)>)
    requires
        n == s@.len(),
    ensures
        match connection_lost_parse(s@) {
            Some(oc) => r matches Some((e, ev)) && e as int == oc.end && e <= n && event_matches(
                ev,
                oc,
            ),
            None => r is None,
        },
{
    let p1 = match take_span(s, n, 0, ' ', ' ') {
        Some(p) => p,
        None => { return None },
    };
    let p2 = match match_lit(s, n, p1, " has lost the connection to the UPS.") {
        Some(p) => p,
        None => { return None },
    };
    let name = trim_to_string(s.substring_char(0, p1));
    Some((p2, DsmEvent::UpsConnectionLost(Host::new(name))))
}

/// Connected recognizer.
fn recognize_connected(s: &str, n: usize) -> (r: Option<(usize, DsmEvent)>)
    requires
        n == s@.len(),
    ensures
        match connected_parse(s@) {
            Some(oc) => r matches Some((e, ev)) && e as int == oc.end && e <= n && event_matches(
                ev,
                oc,
            ),
            None => r is None,
        },
{
    let p1 = match take_span(s, n, 0, ' ', ' ') {
        Some(p) => p,
        None => { return None },
    };
    let p2 = match match_lit(s, n, p1, " has connected to the UPS device.") {
        Some(p) => p,
        None => { return None },
    };
    let name = trim_to_string(s.substring_char(0, p1));
    Some((p2, DsmEvent::UpsConnected(Host::new(name))))
}

/// Classify a notification message.
///
/// The six recognizers are tried in priority order — battery mode, low
/// battery, test, AC mode, connection lost, connected — and the first
/// one whose full prefix structure matches wins.  On success the result
/// carries the unconsumed remainder of `msg` and the typed event; when
/// no recognizer matches, the input is rejected with `NoMatch`.
pub fn parse_msg<'a>(msg: &'a str) -> (r: Result<(&'a str, DsmEvent), NoMatch>)
    ensures
        match r {
            Ok(res) => {
                &&& spec_classify(msg@) matches Some(oc)
                &&& event_matches(res.1, oc)
                &&& res.0@ == msg@.skip(oc.end)
            },
            Err(_) => spec_classify(msg@) is None,
        },
{
    let n = msg.unicode_len();
    if let Some((e, ev)) = recognize_battery_mode(msg, n) {
        let rem = msg.substring_char(e, n);
        proof {
            assert(rem@ =~= msg@.skip(e as int));
        }
        return Ok((rem, ev));
    }
    if let Some((e, ev)) = recognize_low_battery(msg, n) {
        let rem = msg.substring_char(e, n);
        proof {
            assert(rem@ =~= msg@.skip(e as int));
        }
        return Ok((rem, ev));
    }
    if let Some((e, ev)) = recognize_test(msg, n) {
        let rem = msg.substring_char(e, n);
        proof {
            assert(rem@ =~= msg@.skip(e as int));
        }
        return Ok((rem, ev));
    }
    if let Some((e, ev)) = recognize_ac_mode(msg, n) {
        let rem = msg.substring_char(e, n);
        proof {
            assert(rem@ =~= msg@.skip(e as int));
        }
        return Ok((rem, ev));
    }
    if let Some((e, ev)) = recognize_connection_lost(msg, n) {
        let rem = msg.substring_char(e, n);
        proof {
            assert(rem@ =~= msg@.skip(e as int));
        }
        return Ok((rem, ev));
    }
    if let Some((e, ev)) = recognize_connected(msg, n) {
        let rem = msg.substring_char(e, n);
        proof {
            assert(rem@ =~= msg@.skip(e as int));
        }
        return Ok((rem, ev));
    }
    Err(NoMatch)
}

} // verus!
