//! Resolutions ("1920x1080"): parsing, formatting, pixel area, and the
//! round-trip law tying parsing and formatting together.
use vstd::prelude::*;

use crate::text::{
    digit_val, find_char, find_idx, is_digit_char, lemma_find_idx_at, push_char, split_seq,
    split_str,
};
use crate::Error;

verus! {

/// A resolution in pixels: a width and a height, both positive when well formed.
#[derive(Clone, Copy, PartialEq, Eq, Structural, Debug)]
pub struct Resolution {
    pub width: u32,
    pub height: u32,
}

/// Every character is a decimal digit.
pub open spec fn all_digits(s: Seq<char>) -> bool {
    forall|k: int| 0 <= k < s.len() ==> is_digit_char(s[k])
}

/// Numeric value of a digit string, most significant digit first.
pub open spec fn digits_val(s: Seq<char>) -> int
    decreases s.len(),
{
    if s.len() == 0 {
        0
    } else {
        digits_val(s.drop_last()) * 10 + digit_val(s.last())
    }
}

/// The value of a decimal token, if it is one and fits in `u32`.
pub open spec fn parse_u32_spec(s: Seq<char>) -> Option<u32> {
    if s.len() > 0 && all_digits(s) && digits_val(s) <= u32::MAX {
        Some(digits_val(s) as u32)
    } else {
        None
    }
}

/// The canonical decimal rendering of a non-negative number.
pub open spec fn dec_str(n: int) -> Seq<char>
    decreases n,
{
    if n < 10 {
        seq![((48 + if n >= 0 { n } else { 0 }) as u32) as char]
    } else {
        dec_str(n / 10) + seq![((48 + n % 10) as u32) as char]
    }
}

/// The canonical string form of a resolution: width, `x`, height.
pub open spec fn format_spec(r: Resolution) -> Seq<char> {
    dec_str(r.width as int) + seq!['x'] + dec_str(r.height as int)
}

/// The resolution a string denotes: two positive decimal tokens split on the
/// first `x`, or nothing.
pub open spec fn parse_spec(s: Seq<char>) -> Option<Resolution> {
    match find_idx(s, 'x') {
        None => None,
        Some(i) => {
            let w = parse_u32_spec(s.subrange(0, i));
            let h = parse_u32_spec(s.subrange(i + 1, s.len() as int));
            if w is Some && h is Some && w->Some_0 > 0 && h->Some_0 > 0 {
                Some(Resolution { width: w->Some_0, height: h->Some_0 })
            } else {
                None
            }
        },
    }
}

impl Resolution {
    /// A resolution is well formed when both sides are positive.
    pub open spec fn wf(self) -> bool {
        self.width > 0 && self.height > 0
    }

    /// The number of pixels covered by this resolution.
    pub fn area(&self) -> (r: u64)
        ensures
            r == self.width * self.height,
    {
        proof {
            assert((self.width as u64) * (self.height as u64) <= u64::MAX) by (nonlinear_arith)
                requires
                    self.width <= u32::MAX,
                    self.height <= u32::MAX,
            ;
        }
        (self.width as u64) * (self.height as u64)
    }

    /// Renders the canonical `"WxH"` string.
    pub fn format(&self) -> (s: String)
        ensures
            s@ == format_spec(*self),
    {
        let mut s = String::new();
        push_dec(&mut s, self.width as u64);
        push_char(&mut s, 'x');
        push_dec(&mut s, self.height as u64);
        s
    }

    /// Reads a `"WxH"` string; a malformed one is a format error.
    pub fn parse(s: &str) -> (r: Result<Resolution, Error>)
        ensures
            match r {
                Ok(res) => parse_spec(s@) == Some(res) && res.wf(),
                Err(e) => parse_spec(s@) is None && e == Error::Format,
            },
    {
        let len = s.unicode_len();
        match find_char(s, 'x') {
            None => Err(Error::Format),
            Some(i) => {
                proof {
                    crate::text::lemma_find_idx(s@, 'x');
                }
                let w_tok = s.substring_char(0, i);
                let h_tok = s.substring_char(i + 1, len);
                proof {
                    assert(w_tok@ =~= s@.subrange(0, i as int));
                    assert(h_tok@ =~= s@.subrange(i + 1, s@.len() as int));
                }
                let w = parse_u32(w_tok);
                let h = parse_u32(h_tok);
                match (w, h) {
                    (Some(w), Some(h)) => {
                        if w > 0 && h > 0 {
                            Ok(Resolution { width: w, height: h })
                        } else {
                            Err(Error::Format)
                        }
                    },
                    _ => Err(Error::Format),
                }
            },
        }
    }
}

/// The digits of a rendered number are digits, and there is at least one.
pub proof fn lemma_dec_str_digits(n: int)
    requires
        0 <= n,
    ensures
        all_digits(dec_str(n)),
        dec_str(n).len() >= 1,
    decreases n,
{
    if n < 10 {
        assert(is_digit_char(dec_str(n)[0]));
    } else {
        lemma_dec_str_digits(n / 10);
        assert(forall|k: int|
            0 <= k < dec_str(n).len() - 1 ==> dec_str(n)[k] == dec_str(n / 10)[k]);
        assert(is_digit_char(dec_str(n).last()));
    }
}

/// Reading back a rendered number gives the number.
pub proof fn lemma_digits_val_dec_str(n: int)
    requires
        0 <= n,
    ensures
        digits_val(dec_str(n)) == n,
    decreases n,
{
    if n < 10 {
        let s = dec_str(n);
        assert(s.drop_last() =~= Seq::<char>::empty());
        assert((((48 + n) as u32) as char) as u32 == (48 + n) as u32);
        assert(digit_val(s.last()) == n);
        assert(digits_val(Seq::<char>::empty()) == 0);
        assert(digits_val(s) == digits_val(s.drop_last()) * 10 + digit_val(s.last()));
    } else {
        lemma_digits_val_dec_str(n / 10);
        let s = dec_str(n);
        assert(s.drop_last() =~= dec_str(n / 10));
        assert((((48 + n % 10) as u32) as char) as u32 == (48 + n % 10) as u32);
        assert(digit_val(s.last()) == n % 10);
        assert(digits_val(s) == digits_val(s.drop_last()) * 10 + digit_val(s.last()));
    }
}

/// A digit string is worth no less than any of its prefixes.
proof fn lemma_digits_val_prefix(s: Seq<char>, j: int)
    requires
        all_digits(s),
        0 <= j <= s.len(),
    ensures
        digits_val(s.take(j)) >= 0,
        digits_val(s) >= digits_val(s.take(j)),
    decreases s.len(),
{
    if s.len() == 0 {
        assert(s.take(j) =~= s);
    } else if j == s.len() {
        assert(s.take(j) =~= s);
        lemma_digits_val_prefix(s.drop_last(), j - 1);
        assert(s.drop_last().take(j - 1) =~= s.drop_last());
    } else {
        let t = s.drop_last();
        assert(all_digits(t));
        assert(s.take(j) =~= t.take(j));
        lemma_digits_val_prefix(t, j);
        assert(digit_val(s.last()) >= 0);
    }
}

/// Appends the decimal rendering of `n`, against `dec_str`.
pub fn push_dec(s: &mut String, n: u64)
    ensures
        final(s)@ == old(s)@ + dec_str(n as int),
    decreases n,
{
    if n >= 10 {
        push_dec(s, n / 10);
        let d: u8 = (48 + (n % 10)) as u8;
        push_char(s, d as char);
        proof {
            assert(s@ =~= old(s)@ + dec_str(n as int));
        }
    } else {
        let d: u8 = (48 + n) as u8;
        push_char(s, d as char);
        proof {
            assert(s@ =~= old(s)@ + dec_str(n as int));
        }
    }
}

/// Reads a decimal token, against `parse_u32_spec`.
pub fn parse_u32(s: &str) -> (r: Option<u32>)
    ensures
        r == parse_u32_spec(s@),
{
    let len = s.unicode_len();
    if len == 0 {
        return None;
    }
    let mut acc: u64 = 0;
    let mut i: usize = 0;
    proof {
        assert(s@.take(0) =~= Seq::<char>::empty());
    }
    while i < len
        invariant
            len == s@.len(),
            i <= len,
            all_digits(s@.take(i as int)),
            acc == digits_val(s@.take(i as int)),
            acc <= u32::MAX,
        decreases len - i,
    {
        let c = s.get_char(i);
        let u: u32 = c as u32;
        if !(48 <= u && u <= 57) {
            proof {
                assert(!is_digit_char(s@[i as int]));
            }
            return None;
        }
        let d: u64 = (u - 48) as u64;
        acc = acc * 10 + d;
        proof {
            assert(s@.take(i + 1).drop_last() =~= s@.take(i as int));
            assert(s@.take(i + 1).last() == s@[i as int]);
            assert(digits_val(s@.take(i + 1)) == acc);
        }
        i += 1;
        if acc > u32::MAX as u64 {
            proof {
                if all_digits(s@) {
                    lemma_digits_val_prefix(s@, i as int);
                    assert(s@.take(i as int) =~= s@.take(i as int));
                    assert(digits_val(s@) >= digits_val(s@.take(i as int)));
                }
            }
            return None;
        }
    }
    proof {
        assert(s@.take(len as int) =~= s@);
    }
    Some(acc as u32)
}

/// Rendering a well-formed resolution and reading it back gives it back
/// unchanged: the canonical string form loses nothing.
pub proof fn lemma_parse_format_roundtrip(r: Resolution)
    requires
        r.wf(),
    ensures
        parse_spec(format_spec(r)) == Some(r),
{
    let w = dec_str(r.width as int);
    let h = dec_str(r.height as int);
    let s = format_spec(r);
    lemma_dec_str_digits(r.width as int);
    lemma_dec_str_digits(r.height as int);
    let i = w.len() as int;
    assert(s[i] == 'x');
    assert(forall|k: int| 0 <= k < i ==> s[k] == w[k]);
    assert(forall|k: int| 0 <= k < i ==> s[k] != 'x') by {
        assert(forall|k: int| 0 <= k < i ==> is_digit_char(#[trigger] s[k]));
    }
    lemma_find_idx_at(s, 'x', i);
    assert(s.subrange(0, i) =~= w);
    assert(s.subrange(i + 1, s.len() as int) =~= h);
    lemma_digits_val_dec_str(r.width as int);
    lemma_digits_val_dec_str(r.height as int);
}

/// The first token of a resolution string: everything before the first `x`,
/// or the whole string when there is none.
pub fn get_width(resolution_string: &str) -> (r: String)
    ensures
        r@ == split_seq(resolution_string@, 'x')[0],
{
    let pieces = split_str(resolution_string, 'x');
    proof {
        crate::text::lemma_split_len(resolution_string@, 'x');
        assert(pieces.deep_view()[0] == pieces@[0]@);
    }
    let r = pieces[0].clone();
    r
}

/// The second token of a resolution string: what stands between the first
/// `x` and the next one or the end.
pub fn get_height(resolution_string: &str) -> (r: String)
    requires
        find_idx(resolution_string@, 'x') is Some,
    ensures
        r@ == split_seq(resolution_string@, 'x')[1],
{
    let pieces = split_str(resolution_string, 'x');
    proof {
        crate::text::lemma_split_len(resolution_string@, 'x');
        assert(pieces.deep_view()[1] == pieces@[1]@);
    }
    let r = pieces[1].clone();
    r
}

/// The pixel area denoted by a resolution string; a malformed string is a
/// format error.
pub fn multiply_resolution(resolution: &str) -> (r: Result<u64, Error>)
    ensures
        match r {
            Ok(v) => parse_spec(resolution@) is Some && v == parse_spec(
                resolution@,
            )->Some_0.width * parse_spec(resolution@)->Some_0.height,
            Err(e) => parse_spec(resolution@) is None && e == Error::Format,
        },
{
    match Resolution::parse(resolution) {
        Ok(res) => Ok(res.area()),
        Err(e) => Err(e),
    }
}

} // verus!
