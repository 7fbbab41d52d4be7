//! Laws of the classifier, proved over the grammar model: which event a
//! well-formed message of each kind yields, that priority makes battery
//! mode win over low battery, that only battery-mode outcomes carry a
//! battery fragment, that extracted names never contain the delimiters
//! that bounded them, and that the empty input matches nothing.

use vstd::prelude::*;

verus! {

use crate::grammar::{
    ac_anchor, ac_mode_parse, after_lit, after_span, battery_anchor, battery_mode_parse,
    connected_anchor, connected_parse, connection_lost_parse, is_ws, low_battery_anchor,
    low_battery_parse, lost_anchor, period, spec_classify, stop_at, test_parse, test_prefix,
    trim_end, trim_start, trimmed, ups_prefix, EventKind,
};

/// `stop_at` finds `e` when no stop character stands before `e` and a
/// stop (or the end of input) stands at `e`.
proof fn lemma_stop_at_is(s: Seq<char>, a: char, b: char, pos: int, e: int)
    requires
        0 <= pos <= e <= s.len(),
        forall|i: int| pos <= i < e ==> s[i] != a && s[i] != b,
        e == s.len() || s[e] == a || s[e] == b,
    ensures
        stop_at(s, a, b, pos) == e,
    decreases e - pos,
{
    if pos < e {
        lemma_stop_at_is(s, a, b, pos + 1, e);
    }
}

/// A successfully consumed literal fixes each character under it.
proof fn lemma_after_lit_char(s: Seq<char>, pos: int, lit: Seq<char>, i: int)
    requires
        0 <= pos,
        0 <= i < lit.len(),
        after_lit(s, pos, lit) is Some,
    ensures
        pos + lit.len() <= s.len(),
        s[pos + i] == lit[i],
{
    assert(s.subrange(pos, pos + lit.len())[i] == s[pos + i]);
}

/// A literal cannot be consumed across a position where the input
/// differs from it.
proof fn lemma_lit_mismatch(s: Seq<char>, pos: int, lit: Seq<char>, i: int)
    requires
        0 <= pos,
        0 <= i < lit.len(),
        pos + i < s.len(),
        s[pos + i] != lit[i],
    ensures
        after_lit(s, pos, lit) is None,
{
    if after_lit(s, pos, lit) is Some {
        lemma_after_lit_char(s, pos, lit, i);
    }
}

/// On a message of the shape `ups_prefix + name + anchor + rest`, with
/// a space-free non-empty name and an anchor that opens with a space,
/// the prefix, the name span and the anchor are consumed exactly.
proof fn lemma_prefix_name_anchor(
    msg: Seq<char>,
    name: Seq<char>,
    anchor: Seq<char>,
    rest: Seq<char>,
)
    requires
        msg == ups_prefix() + name + anchor + rest,
        name.len() > 0,
        forall|i: int| 0 <= i < name.len() ==> name[i] != ' ',
        anchor.len() > 0,
        anchor[0] == ' ',
    ensures
        after_lit(msg, 0, ups_prefix()) == Some(ups_prefix().len() as int),
        after_span(msg, ups_prefix().len() as int, ' ', ' ') == Some(
            (ups_prefix().len() + name.len()) as int,
        ),
        msg.subrange(ups_prefix().len() as int, (ups_prefix().len() + name.len()) as int) == name,
        after_lit(msg, (ups_prefix().len() + name.len()) as int, anchor) == Some(
            (ups_prefix().len() + name.len() + anchor.len()) as int,
        ),
        msg.skip((ups_prefix().len() + name.len() + anchor.len()) as int) == rest,
{
    let p = ups_prefix();
    let l0 = p.len() as int;
    let p2 = l0 + name.len();
    let p3 = p2 + anchor.len();
    assert forall|i: int| 0 <= i < msg.len() implies msg[i] == if i < l0 {
        p[i]
    } else if i < p2 {
        name[i - l0]
    } else if i < p3 {
        anchor[i - p2]
    } else {
        rest[i - p3]
    } by {
        assert(msg[i] == (ups_prefix() + name + anchor)[i] || msg[i] == rest[i - p3]);
        assert(i < p3 ==> (ups_prefix() + name + anchor)[i] == (ups_prefix() + name)[i] || (
        ups_prefix() + name + anchor)[i] == anchor[i - p2]);
    }
    assert(msg.subrange(0, l0) =~= p);
    assert(msg.subrange(l0, p2) =~= name);
    assert(msg.subrange(p2, p3) =~= anchor);
    lemma_stop_at_is(msg, ' ', ' ', l0, p2);
    assert(msg.skip(p3) =~= rest);
}

/// On a message of the shape `name + anchor + rest`, with a space-free
/// non-empty name and an anchor that opens with a space, the name span
/// and the anchor are consumed exactly.
proof fn lemma_name_anchor(msg: Seq<char>, name: Seq<char>, anchor: Seq<char>, rest: Seq<char>)
    requires
        msg == name + anchor + rest,
        name.len() > 0,
        forall|i: int| 0 <= i < name.len() ==> name[i] != ' ',
        anchor.len() > 0,
        anchor[0] == ' ',
    ensures
        after_span(msg, 0, ' ', ' ') == Some(name.len() as int),
        msg.subrange(0, name.len() as int) == name,
        after_lit(msg, name.len() as int, anchor) == Some((name.len() + anchor.len()) as int),
        msg.skip((name.len() + anchor.len()) as int) == rest,
{
    let nl = name.len() as int;
    let p2 = nl + anchor.len();
    assert forall|i: int| 0 <= i < msg.len() implies msg[i] == if i < nl {
        name[i]
    } else if i < p2 {
        anchor[i - nl]
    } else {
        rest[i - p2]
    } by {
        assert(msg[i] == (name + anchor)[i] || msg[i] == rest[i - p2]);
    }
    assert(msg.subrange(0, nl) =~= name);
    assert(msg.subrange(nl, p2) =~= anchor);
    lemma_stop_at_is(msg, ' ', ' ', 0, nl);
    assert(msg.skip(p2) =~= rest);
}

/// A well-formed battery-mode message classifies as battery mode, with
/// the name taken verbatim, the battery fragment trimmed, and the
/// remainder exactly the tail.
pub proof fn lemma_classify_battery_mode(name: Seq<char>, btext: Seq<char>, tail: Seq<char>)
    requires
        name.len() > 0,
        forall|i: int| 0 <= i < name.len() ==> name[i] != ' ',
        trimmed(name) == name,
        btext.len() > 0,
        forall|i: int| 0 <= i < btext.len() ==> btext[i] != '\n',
        tail.len() == 0 || tail[0] == '\n',
    ensures
        ({
            let msg = ups_prefix() + name + battery_anchor() + btext + tail;
            &&& spec_classify(msg) matches Some(oc)
            &&& oc.kind == EventKind::BatteryMode
            &&& oc.name == name
            &&& oc.battery == Some(trimmed(btext))
            &&& msg.skip(oc.end) == tail
        }),
{
    reveal_strlit(" has entered battery mode.");
    let msg = ups_prefix() + name + battery_anchor() + btext + tail;
    let rest = btext + tail;
    assert(msg =~= ups_prefix() + name + battery_anchor() + rest);
    lemma_prefix_name_anchor(msg, name, battery_anchor(), rest);
    let p3 = (ups_prefix().len() + name.len() + battery_anchor().len()) as int;
    let p4 = p3 + btext.len();
    assert forall|i: int| p3 <= i < p4 implies msg[i] == btext[i - p3] by {
        assert(msg.skip(p3)[i - p3] == msg[i]);
        assert(rest[i - p3] == btext[i - p3]);
    }
    assert(p4 < msg.len() ==> msg[p4] == tail[0]) by {
        if p4 < msg.len() {
            assert(msg.skip(p3)[p4 - p3] == msg[p4]);
            assert(rest[p4 - p3] == tail[0]);
        }
    }
    lemma_stop_at_is(msg, '\n', '\n', p3, p4);
    assert(msg.subrange(p3, p4) =~= btext);
    assert(msg.skip(p4) =~= tail);
}

/// A well-formed low-battery message classifies as low battery, never
/// as battery mode, with the name taken verbatim and the remainder
/// exactly the tail.
pub proof fn lemma_classify_low_battery(name: Seq<char>, tail: Seq<char>)
    requires
        name.len() > 0,
        forall|i: int| 0 <= i < name.len() ==> name[i] != ' ',
        trimmed(name) == name,
    ensures
        ({
            let msg = ups_prefix() + name + low_battery_anchor() + tail;
            &&& spec_classify(msg) matches Some(oc)
            &&& oc.kind == EventKind::LowBattery
            &&& oc.name == name
            &&& oc.battery is None
            &&& msg.skip(oc.end) == tail
        }),
{
    reveal_strlit(" has entered battery mode.");
    reveal_strlit(" has reached low battery.");
    let msg = ups_prefix() + name + low_battery_anchor() + tail;
    lemma_prefix_name_anchor(msg, name, low_battery_anchor(), tail);
    let p2 = ups_prefix().len() + name.len();
    // battery mode fails: the anchors differ right after " has ".
    assert(battery_anchor()[5] == 'e' && low_battery_anchor()[5] == 'r');
    lemma_after_lit_char(msg, p2 as int, low_battery_anchor(), 5);
    lemma_lit_mismatch(msg, p2 as int, battery_anchor(), 5);
}

/// A well-formed test message classifies as a test event, with the name
/// taken verbatim and the remainder exactly the tail.
pub proof fn lemma_classify_test(name: Seq<char>, tail: Seq<char>)
    requires
        name.len() > 0,
        forall|i: int| 0 <= i < name.len() ==> name[i] != ' ' && name[i] != '.',
        trimmed(name) == name,
    ensures
        ({
            let msg = test_prefix() + name + period() + tail;
            &&& spec_classify(msg) matches Some(oc)
            &&& oc.kind == EventKind::Test
            &&& oc.name == name
            &&& oc.battery is None
            &&& msg.skip(oc.end) == tail
        }),
{
    reveal_strlit("The UPS device connected to ");
    reveal_strlit("Test Message from ");
    reveal_strlit(".");
    let msg = test_prefix() + name + period() + tail;
    let t0 = test_prefix().len() as int;
    let p2 = t0 + name.len();
    let p3 = p2 + 1;
    assert forall|i: int| 0 <= i < msg.len() implies msg[i] == if i < t0 {
        test_prefix()[i]
    } else if i < p2 {
        name[i - t0]
    } else if i < p3 {
        '.'
    } else {
        tail[i - p3]
    } by {
        assert(msg[i] == (test_prefix() + name + period())[i] || msg[i] == tail[i - p3]);
        assert(i < p3 ==> (test_prefix() + name + period())[i] == (test_prefix() + name)[i] || (
        test_prefix() + name + period())[i] == period()[i - p2]);
    }
    // the UPS-prefixed recognizers fail at the second character.
    assert(msg[1] == 'e' && ups_prefix()[1] == 'h');
    lemma_lit_mismatch(msg, 0, ups_prefix(), 1);
    // the test recognizer consumes prefix, name and closing period.
    assert(msg.subrange(0, t0) =~= test_prefix());
    assert(msg.subrange(t0, p2) =~= name);
    assert(msg.subrange(p2, p3) =~= period());
    lemma_stop_at_is(msg, '.', ' ', t0, p2);
    assert(msg.skip(p3) =~= tail);
}

/// A well-formed AC-mode message classifies as AC mode, never as one of
/// the battery events, with the name taken verbatim and the remainder
/// exactly the tail.
pub proof fn lemma_classify_ac_mode(name: Seq<char>, tail: Seq<char>)
    requires
        name.len() > 0,
        forall|i: int| 0 <= i < name.len() ==> name[i] != ' ',
        trimmed(name) == name,
    ensures
        ({
            let msg = ups_prefix() + name + ac_anchor() + tail;
            &&& spec_classify(msg) matches Some(oc)
            &&& oc.kind == EventKind::AcMode
            &&& oc.name == name
            &&& oc.battery is None
            &&& msg.skip(oc.end) == tail
        }),
{
    reveal_strlit("The UPS device connected to ");
    reveal_strlit("Test Message from ");
    reveal_strlit(" has entered battery mode.");
    reveal_strlit(" has reached low battery.");
    reveal_strlit(" has returned to AC mode.");
    let msg = ups_prefix() + name + ac_anchor() + tail;
    lemma_prefix_name_anchor(msg, name, ac_anchor(), tail);
    let p2 = ups_prefix().len() + name.len();
    // battery mode and low battery fail on their anchors.
    assert(ac_anchor()[5] == 'r' && battery_anchor()[5] == 'e');
    assert(ac_anchor()[7] == 't' && low_battery_anchor()[7] == 'a');
    lemma_after_lit_char(msg, p2 as int, ac_anchor(), 5);
    lemma_after_lit_char(msg, p2 as int, ac_anchor(), 7);
    lemma_lit_mismatch(msg, p2 as int, battery_anchor(), 5);
    lemma_lit_mismatch(msg, p2 as int, low_battery_anchor(), 7);
    // the test recognizer fails at the second character.
    lemma_after_lit_char(msg, 0, ups_prefix(), 1);
    assert(ups_prefix()[1] == 'h' && test_prefix()[1] == 'e');
    lemma_lit_mismatch(msg, 0, test_prefix(), 1);
}

/// The UPS-prefixed and test recognizers all fail on a message of the
/// shape `name + anchor + rest` whose anchor opens with " h".
proof fn lemma_name_first_upper_fail(msg: Seq<char>, name: Seq<char>, anchor: Seq<char>)
    requires
        name.len() > 0,
        forall|i: int| 0 <= i < name.len() ==> name[i] != ' ',
        anchor.len() >= 2,
        anchor[0] == ' ',
        anchor[1] == 'h',
        msg.len() == name.len() + anchor.len(),
        forall|i: int| 0 <= i < name.len() ==> msg[i] == name[i],
        forall|i: int| 0 <= i < anchor.len() ==> msg[name.len() + i] == anchor[i],
    ensures
        after_lit(msg, 0, ups_prefix()) is None,
        after_lit(msg, 0, test_prefix()) is None,
{
    reveal_strlit("The UPS device connected to ");
    reveal_strlit("Test Message from ");
    let nl = name.len() as int;
    if after_lit(msg, 0, ups_prefix()) is Some {
        if nl >= 4 {
            lemma_after_lit_char(msg, 0, ups_prefix(), 3);
            assert(msg[3] == name[3]);
        } else if nl == 3 {
            lemma_after_lit_char(msg, 0, ups_prefix(), 4);
            assert(msg[4] == anchor[1]);
        } else if nl == 2 {
            lemma_after_lit_char(msg, 0, ups_prefix(), 2);
            assert(msg[2] == anchor[0]);
        } else {
            lemma_after_lit_char(msg, 0, ups_prefix(), 1);
            assert(msg[1] == anchor[0]);
        }
    }
    if after_lit(msg, 0, test_prefix()) is Some {
        if nl >= 5 {
            lemma_after_lit_char(msg, 0, test_prefix(), 4);
            assert(msg[4] == name[4]);
        } else if nl == 4 {
            lemma_after_lit_char(msg, 0, test_prefix(), 5);
            assert(msg[5] == anchor[1]);
        } else if nl == 3 {
            lemma_after_lit_char(msg, 0, test_prefix(), 3);
            assert(msg[3] == anchor[0]);
        } else if nl == 2 {
            lemma_after_lit_char(msg, 0, test_prefix(), 2);
            assert(msg[2] == anchor[0]);
        } else {
            lemma_after_lit_char(msg, 0, test_prefix(), 1);
            assert(msg[1] == anchor[0]);
        }
    }
}

/// A well-formed connection-lost message classifies as connection lost,
/// with the name taken verbatim and the remainder exactly the tail.
pub proof fn lemma_classify_connection_lost(name: Seq<char>, tail: Seq<char>)
    requires
        name.len() > 0,
        forall|i: int| 0 <= i < name.len() ==> name[i] != ' ',
        trimmed(name) == name,
    ensures
        ({
            let msg = name + lost_anchor() + tail;
            &&& spec_classify(msg) matches Some(oc)
            &&& oc.kind == EventKind::ConnectionLost
            &&& oc.name == name
            &&& oc.battery is None
            &&& msg.skip(oc.end) == tail
        }),
{
    reveal_strlit(" has lost the connection to the UPS.");
    let msg = name + lost_anchor() + tail;
    lemma_name_anchor(msg, name, lost_anchor(), tail);
    let nl = name.len() as int;
    let head = name + lost_anchor();
    assert(head =~= msg.subrange(0, nl + lost_anchor().len()));
    assert forall|i: int| 0 <= i < name.len() implies head[i] == name[i] by {}
    assert forall|i: int| 0 <= i < lost_anchor().len() implies head[nl + i] == lost_anchor()[i] by {}
    lemma_name_first_upper_fail(head, name, lost_anchor());
    assert(after_lit(msg, 0, ups_prefix()) is None) by {
        if after_lit(msg, 0, ups_prefix()) is Some {
            assert(ups_prefix().len() <= head.len()) by {
                reveal_strlit("The UPS device connected to ");
            }
            assert(msg.subrange(0, ups_prefix().len() as int) =~= head.subrange(
                0,
                ups_prefix().len() as int,
            ));
            assert(after_lit(head, 0, ups_prefix()) is Some);
        }
    }
    assert(after_lit(msg, 0, test_prefix()) is None) by {
        if after_lit(msg, 0, test_prefix()) is Some {
            assert(test_prefix().len() <= head.len()) by {
                reveal_strlit("Test Message from ");
            }
            assert(msg.subrange(0, test_prefix().len() as int) =~= head.subrange(
                0,
                test_prefix().len() as int,
            ));
            assert(after_lit(head, 0, test_prefix()) is Some);
        }
    }
}

/// A well-formed connected message classifies as connected, never as
/// connection lost, with the name taken verbatim and the remainder
/// exactly the tail.
pub proof fn lemma_classify_connected(name: Seq<char>, tail: Seq<char>)
    requires
        name.len() > 0,
        forall|i: int| 0 <= i < name.len() ==> name[i] != ' ',
        trimmed(name) == name,
    ensures
        ({
            let msg = name + connected_anchor() + tail;
            &&& spec_classify(msg) matches Some(oc)
            &&& oc.kind == EventKind::Connected
            &&& oc.name == name
            &&& oc.battery is None
            &&& msg.skip(oc.end) == tail
        }),
{
    reveal_strlit(" has lost the connection to the UPS.");
    reveal_strlit(" has connected to the UPS device.");
    let msg = name + connected_anchor() + tail;
    lemma_name_anchor(msg, name, connected_anchor(), tail);
    let nl = name.len() as int;
    let head = name + connected_anchor();
    assert(head =~= msg.subrange(0, nl + connected_anchor().len()));
    assert forall|i: int| 0 <= i < name.len() implies head[i] == name[i] by {}
    assert forall|i: int| 0 <= i < connected_anchor().len() implies head[nl + i]
        == connected_anchor()[i] by {}
    lemma_name_first_upper_fail(head, name, connected_anchor());
    assert(after_lit(msg, 0, ups_prefix()) is None) by {
        if after_lit(msg, 0, ups_prefix()) is Some {
            assert(ups_prefix().len() <= head.len()) by {
                reveal_strlit("The UPS device connected to ");
            }
            assert(msg.subrange(0, ups_prefix().len() as int) =~= head.subrange(
                0,
                ups_prefix().len() as int,
            ));
            assert(after_lit(head, 0, ups_prefix()) is Some);
        }
    }
    assert(after_lit(msg, 0, test_prefix()) is None) by {
        if after_lit(msg, 0, test_prefix()) is Some {
            assert(test_prefix().len() <= head.len()) by {
                reveal_strlit("Test Message from ");
            }
            assert(msg.subrange(0, test_prefix().len() as int) =~= head.subrange(
                0,
                test_prefix().len() as int,
            ));
            assert(after_lit(head, 0, test_prefix()) is Some);
        }
    }
    // connection lost fails: the anchors differ right after " has ".
    assert(connected_anchor()[5] == 'c' && lost_anchor()[5] == 'l');
    lemma_after_lit_char(msg, nl, connected_anchor(), 5);
    lemma_lit_mismatch(msg, nl, lost_anchor(), 5);
}

/// Priority is load-bearing: whenever the battery-mode recognizer
/// matches at all, the classifier yields battery mode, whatever else
/// would also match.
pub proof fn lemma_battery_mode_wins(s: Seq<char>)
    requires
        battery_mode_parse(s) is Some,
    ensures
        spec_classify(s) == battery_mode_parse(s),
        spec_classify(s).unwrap().kind == EventKind::BatteryMode,
{
}

/// A classified outcome carries a battery fragment exactly when its
/// kind is battery mode.
pub proof fn lemma_battery_msg_iff_battery_mode(s: Seq<char>)
    requires
        spec_classify(s) is Some,
    ensures
        spec_classify(s).unwrap().battery is Some <==> spec_classify(s).unwrap().kind
            == EventKind::BatteryMode,
{
}

/// `stop_at` never passes a stop character: everything strictly before
/// it differs from both stops, and it stays within the input.
proof fn lemma_stop_at_range(s: Seq<char>, a: char, b: char, pos: int)
    requires
        0 <= pos <= s.len(),
    ensures
        pos <= stop_at(s, a, b, pos) <= s.len(),
        forall|i: int| pos <= i < stop_at(s, a, b, pos) ==> s[i] != a && s[i] != b,
    decreases s.len() - pos,
{
    if pos < s.len() && s[pos] != a && s[pos] != b {
        lemma_stop_at_range(s, a, b, pos + 1);
    }
}

/// Trimming never introduces a character: one absent from the text is
/// absent from the text's trimmed start.
proof fn lemma_trim_start_absent(s: Seq<char>, c: char)
    requires
        forall|i: int| 0 <= i < s.len() ==> s[i] != c,
    ensures
        forall|i: int| 0 <= i < trim_start(s).len() ==> trim_start(s)[i] != c,
    decreases s.len(),
{
    if s.len() > 0 && is_ws(s[0]) {
        assert forall|i: int| 0 <= i < s.drop_first().len() implies s.drop_first()[i] != c by {
            assert(s.drop_first()[i] == s[i + 1]);
        }
        lemma_trim_start_absent(s.drop_first(), c);
        assert(trim_start(s) == trim_start(s.drop_first()));
        assert forall|i: int| 0 <= i < trim_start(s).len() implies trim_start(s)[i] != c by {
            assert(trim_start(s.drop_first())[i] != c);
        }
    }
}

/// Trimming never introduces a character: one absent from the text is
/// absent from the text's trimmed end.
proof fn lemma_trim_end_absent(s: Seq<char>, c: char)
    requires
        forall|i: int| 0 <= i < s.len() ==> s[i] != c,
    ensures
        forall|i: int| 0 <= i < trim_end(s).len() ==> trim_end(s)[i] != c,
    decreases s.len(),
{
    if s.len() > 0 && is_ws(s[s.len() - 1]) {
        assert forall|i: int| 0 <= i < s.drop_last().len() implies s.drop_last()[i] != c by {
            assert(s.drop_last()[i] == s[i]);
        }
        lemma_trim_end_absent(s.drop_last(), c);
        assert(trim_end(s) == trim_end(s.drop_last()));
        assert forall|i: int| 0 <= i < trim_end(s).len() implies trim_end(s)[i] != c by {
            assert(trim_end(s.drop_last())[i] != c);
        }
    }
}

/// A character absent from the text is absent from its trimmed form.
proof fn lemma_trimmed_absent(s: Seq<char>, c: char)
    requires
        forall|i: int| 0 <= i < s.len() ==> s[i] != c,
    ensures
        forall|i: int| 0 <= i < trimmed(s).len() ==> trimmed(s)[i] != c,
{
    lemma_trim_start_absent(s, c);
    lemma_trim_end_absent(trim_start(s), c);
}

/// A name span delimited by `a`/`b` stops, once trimmed, holds neither
/// stop character.
proof fn lemma_span_name_absent(s: Seq<char>, p1: int, a: char, b: char)
    requires
        0 <= p1 <= s.len(),
        after_span(s, p1, a, b) is Some,
    ensures
        ({
            let p2 = after_span(s, p1, a, b).unwrap();
            forall|i: int|
                0 <= i < trimmed(s.subrange(p1, p2)).len() ==> trimmed(s.subrange(p1, p2))[i] != a
                    && trimmed(s.subrange(p1, p2))[i] != b
        }),
{
    let p2 = after_span(s, p1, a, b).unwrap();
    lemma_stop_at_range(s, a, b, p1);
    let span = s.subrange(p1, p2);
    assert forall|i: int| 0 <= i < span.len() implies span[i] != a && span[i] != b by {
        assert(span[i] == s[p1 + i]);
    }
    lemma_trimmed_absent(span, a);
    lemma_trimmed_absent(span, b);
}

/// The Host invariant: an extracted name never contains the delimiter
/// characters that bounded it in the message — no classified name holds
/// a space, and a test-message name holds no period either.
pub proof fn lemma_name_free_of_delimiters(s: Seq<char>)
    requires
        spec_classify(s) is Some,
    ensures
        forall|i: int|
            0 <= i < spec_classify(s).unwrap().name.len() ==> spec_classify(s).unwrap().name[i]
                != ' ',
        spec_classify(s).unwrap().kind == EventKind::Test ==> forall|i: int|
            0 <= i < spec_classify(s).unwrap().name.len() ==> spec_classify(s).unwrap().name[i]
                != '.',
{
    let oc = spec_classify(s).unwrap();
    if battery_mode_parse(s) is Some {
        let p1 = after_lit(s, 0, ups_prefix()).unwrap();
        lemma_span_name_absent(s, p1, ' ', ' ');
    } else if low_battery_parse(s) is Some {
        let p1 = after_lit(s, 0, ups_prefix()).unwrap();
        lemma_span_name_absent(s, p1, ' ', ' ');
    } else if test_parse(s) is Some {
        let p1 = after_lit(s, 0, test_prefix()).unwrap();
        lemma_span_name_absent(s, p1, '.', ' ');
    } else if ac_mode_parse(s) is Some {
        let p1 = after_lit(s, 0, ups_prefix()).unwrap();
        lemma_span_name_absent(s, p1, ' ', ' ');
    } else if connection_lost_parse(s) is Some {
        lemma_span_name_absent(s, 0, ' ', ' ');
    } else {
        lemma_span_name_absent(s, 0, ' ', ' ');
    }
}

/// The empty input matches no recognizer.
pub proof fn lemma_empty_input_no_match()
    ensures
        spec_classify(Seq::<char>::empty()) is None,
{
    reveal_strlit("The UPS device connected to ");
    reveal_strlit("Test Message from ");
    let s = Seq::<char>::empty();
    assert(after_lit(s, 0, ups_prefix()) is None);
    assert(after_lit(s, 0, test_prefix()) is None);
    assert(stop_at(s, ' ', ' ', 0) == 0);
    assert(after_span(s, 0, ' ', ' ') is None);
}

} // verus!
