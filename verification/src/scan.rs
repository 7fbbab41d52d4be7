//! Verified character-level scanning helpers the recognizers are built
//! from: literal matching, delimiter scanning and trimming, each proved
//! against the corresponding spec function of the grammar model.

use vstd::prelude::*;
use vstd::string::*;

verus! {

use crate::grammar::{after_lit, after_span, is_ws, stop_at, trim_end, trim_start, trimmed};

/// Whether `c` is a white-space character, exactly as the model's
/// `is_ws` counts them.
pub(crate) fn ws_char(c: char) -> (b: bool)
    ensures
        b == is_ws(c),
{
    let u = c as u32;
    u == 0x20 || (0x09 <= u && u <= 0x0D) || u == 0x85 || u == 0xA0 || u == 0x1680 || (0x2000 <= u
        && u <= 0x200A) || u == 0x2028 || u == 0x2029 || u == 0x202F || u == 0x205F || u == 0x3000
}

/// Position of the first stop character (`a` or `b`) at or after `pos`,
/// or `n` when none occurs.
pub(crate) fn scan_to_stop(s: &str, n: usize, pos: usize, a: char, b: char) -> (e: usize)
    requires
        n == s@.len(),
        pos <= n,
    ensures
        e as int == stop_at(s@, a, b, pos as int),
        pos <= e <= n,
{
    let mut i: usize = pos;
    loop
        invariant
            pos <= i <= n,
            n == s@.len(),
            stop_at(s@, a, b, pos as int) == stop_at(s@, a, b, i as int),
        decreases n - i,
    {
        if i == n {
            proof {
                assert(stop_at(s@, a, b, i as int) == n as int);
            }
            return i;
        }
        let c = s.get_char(i);
        if c == a || c == b {
            proof {
                assert(stop_at(s@, a, b, i as int) == i as int);
            }
            return i;
        }
        proof {
            assert(stop_at(s@, a, b, i as int) == stop_at(s@, a, b, i + 1));
        }
        i = i + 1;
    }
}

/// Consume a non-empty run of characters containing neither stop
/// character, as the model's `after_span` describes.
pub(crate) fn take_span(s: &str, n: usize, pos: usize, a: char, b: char) -> (r: Option<usize>)
    requires
        n == s@.len(),
        pos <= n,
    ensures
        match r {
            Some(e) => after_span(s@, pos as int, a, b) == Some(e as int) && pos < e <= n,
            None => after_span(s@, pos as int, a, b) is None,
        },
{
    let e = scan_to_stop(s, n, pos, a, b);
    if e > pos {
        Some(e)
    } else {
        None
    }
}

/// Consume the literal `lit` at `pos`, as the model's `after_lit`
/// describes.
pub(crate) fn match_lit(s: &str, n: usize, pos: usize, lit: &str) -> (r: Option<usize>)
    requires
        n == s@.len(),
        pos <= n,
    ensures
        match r {
            Some(e) => after_lit(s@, pos as int, lit@) == Some(e as int) && pos <= e <= n,
            None => after_lit(s@, pos as int, lit@) is None,
        },
{
    let m = lit.unicode_len();
    if m > n - pos {
        return None;
    }
    let mut j: usize = 0;
    while j < m
        invariant
            j <= m,
            m == lit@.len(),
            n == s@.len(),
            pos <= n,
            m <= n - pos,
            forall|k: int| 0 <= k < j ==> s@[pos + k] == lit@[k],
        decreases m - j,
    {
        if s.get_char(pos + j) != lit.get_char(j) {
            proof {
                assert(after_lit(s@, pos as int, lit@) is None) by {
                    if s@.subrange(pos as int, pos + m) == lit@ {
                        assert(s@.subrange(pos as int, pos + m)[j as int] == s@[pos + j]);
                        assert(false);
                    }
                }
            }
            return None;
        }
        j = j + 1;
    }
    proof {
        assert(s@.subrange(pos as int, pos + m) =~= lit@);
    }
    Some(pos + m)
}

/// A fresh `String` holding `s` with white space removed from both
/// ends, as the model's `trimmed` describes.
pub(crate) fn trim_to_string(s: &str) -> (r: String)
    ensures
        r@ == trimmed(s@),
{
    let n = s.unicode_len();
    proof {
        assert(s@.skip(0) =~= s@);
    }
    let mut a: usize = 0;
    loop
        invariant
            a <= n,
            n == s@.len(),
            trim_start(s@) == trim_start(s@.skip(a as int)),
        ensures
            a <= n,
            trim_start(s@) == s@.skip(a as int),
        decreases n - a,
    {
        if a == n {
            proof {
                assert(trim_start(s@.skip(a as int)) == s@.skip(a as int));
            }
            break ;
        }
        let c = s.get_char(a);
        if !ws_char(c) {
            proof {
                assert(s@.skip(a as int)[0] == s@[a as int]);
                assert(trim_start(s@.skip(a as int)) == s@.skip(a as int));
            }
            break ;
        }
        proof {
            assert(s@.skip(a as int).drop_first() =~= s@.skip(a + 1));
        }
        a = a + 1;
    }
    proof {
        assert(s@.skip(a as int) =~= s@.subrange(a as int, n as int));
    }
    let mut b: usize = n;
    loop
        invariant
            a <= b <= n,
            n == s@.len(),
            trim_end(s@.subrange(a as int, n as int)) == trim_end(s@.subrange(a as int, b as int)),
        ensures
            a <= b <= n,
            trim_end(s@.subrange(a as int, n as int)) == s@.subrange(a as int, b as int),
        decreases b,
    {
        if b == a {
            proof {
                assert(trim_end(s@.subrange(a as int, b as int)) == s@.subrange(a as int, b as int));
            }
            break ;
        }
        let c = s.get_char(b - 1);
        if !ws_char(c) {
            proof {
                assert(s@.subrange(a as int, b as int)[b - 1 - a] == s@[b - 1]);
                assert(trim_end(s@.subrange(a as int, b as int)) == s@.subrange(a as int, b as int));
            }
            break ;
        }
        proof {
            assert(s@.subrange(a as int, b as int).drop_last() =~= s@.subrange(a as int, b - 1));
        }
        b = b - 1;
    }
    proof {
        assert(trimmed(s@) == s@.subrange(a as int, b as int));
    }
    let sub = s.substring_char(a, b);
    String::from_str(sub)
}

} // verus!
