//! Verified helpers over strings: character classes, search, case folding,
//! trimming, replacement and splitting, each tied to a direct specification
//! over `Seq<char>`.
use vstd::prelude::*;

verus! {

/// Relies on `String::push`: appends exactly the given character at the end.
#[verifier::external_body]
pub fn push_char(s: &mut String, c: char)
    ensures
        final(s)@ == old(s)@.push(c),
{
    s.push(c)
}

/// A decimal digit.
pub open spec fn is_digit_char(c: char) -> bool {
    48 <= c as u32 && c as u32 <= 57
}

/// Numeric value of a decimal digit character.
pub open spec fn digit_val(c: char) -> int {
    c as u32 - 48
}

/// An ASCII upper-case letter.
pub open spec fn is_upper_char(c: char) -> bool {
    65 <= c as u32 && c as u32 <= 90
}

/// ASCII case folding of one character.
pub open spec fn lower_char(c: char) -> char {
    if is_upper_char(c) {
        ((c as u32 + 32) as char)
    } else {
        c
    }
}

/// ASCII case folding of a whole string.
pub open spec fn lower_seq(s: Seq<char>) -> Seq<char> {
    s.map_values(|c: char| lower_char(c))
}

/// Whitespace as far as trimming is concerned.
pub open spec fn is_space_char(c: char) -> bool {
    c == ' ' || c == '\t' || c == '\n' || c == '\r'
}

/// The string without its leading whitespace.
pub open spec fn trim_front(s: Seq<char>) -> Seq<char>
    decreases s.len(),
{
    if s.len() > 0 && is_space_char(s[0]) {
        trim_front(s.drop_first())
    } else {
        s
    }
}

/// The string without its trailing whitespace.
pub open spec fn trim_back(s: Seq<char>) -> Seq<char>
    decreases s.len(),
{
    if s.len() > 0 && is_space_char(s.last()) {
        trim_back(s.drop_last())
    } else {
        s
    }
}

/// The string without leading and trailing whitespace.
pub open spec fn trim_seq(s: Seq<char>) -> Seq<char> {
    trim_back(trim_front(s))
}

/// `needle` occurs in `hay` starting at position `i`.
pub open spec fn match_at(hay: Seq<char>, needle: Seq<char>, i: int) -> bool {
    0 <= i && i + needle.len() <= hay.len() && hay.subrange(i, i + needle.len()) == needle
}

/// `needle` occurs somewhere in `hay`.
pub open spec fn contains_seq(hay: Seq<char>, needle: Seq<char>) -> bool {
    exists|i: int| match_at(hay, needle, i)
}

/// Index of the first occurrence of `c` in `s`, if any.
pub open spec fn find_idx(s: Seq<char>, c: char) -> Option<int>
    decreases s.len(),
{
    if s.len() == 0 {
        None
    } else if s[0] == c {
        Some(0)
    } else {
        match find_idx(s.drop_first(), c) {
            Some(j) => Some(j + 1),
            None => None,
        }
    }
}

/// `find_idx` returns exactly the first position holding `c`.
pub proof fn lemma_find_idx(s: Seq<char>, c: char)
    ensures
        match find_idx(s, c) {
            Some(i) => 0 <= i < s.len() && s[i] == c && forall|k: int| 0 <= k < i ==> s[k] != c,
            None => forall|k: int| 0 <= k < s.len() ==> s[k] != c,
        },
    decreases s.len(),
{
    if s.len() > 0 && s[0] != c {
        let t = s.drop_first();
        lemma_find_idx(t, c);
        assert(forall|k: int| 0 <= k < t.len() ==> t[k] == s[k + 1]);
        match find_idx(t, c) {
            Some(j) => {
                assert(s[j + 1] == t[j]);
                assert(forall|k: int| 1 <= k < j + 1 ==> s[k] == t[k - 1]);
            },
            None => {
                assert(forall|k: int| 1 <= k < s.len() ==> s[k] == t[k - 1]);
            },
        }
    }
}

/// The first position holding `c` determines `find_idx`.
pub proof fn lemma_find_idx_at(s: Seq<char>, c: char, i: int)
    requires
        0 <= i < s.len(),
        s[i] == c,
        forall|k: int| 0 <= k < i ==> s[k] != c,
    ensures
        find_idx(s, c) == Some(i),
    decreases i,
{
    if i > 0 {
        let t = s.drop_first();
        assert(forall|k: int| 0 <= k < i - 1 ==> t[k] == s[k + 1]);
        lemma_find_idx_at(t, c, i - 1);
    }
}

/// A string in which `c` does not occur has no index under `find_idx`.
pub proof fn lemma_find_idx_none(s: Seq<char>, c: char)
    requires
        forall|k: int| 0 <= k < s.len() ==> s[k] != c,
    ensures
        find_idx(s, c) is None,
{
    lemma_find_idx(s, c);
    if find_idx(s, c) is Some {
        let i = find_idx(s, c)->Some_0;
        assert(s[i] == c);
    }
}

/// Index of the last occurrence of `c` in `s`, if any.
pub open spec fn rfind_idx(s: Seq<char>, c: char) -> Option<int>
    decreases s.len(),
{
    if s.len() == 0 {
        None
    } else if s.last() == c {
        Some(s.len() - 1)
    } else {
        rfind_idx(s.drop_last(), c)
    }
}

/// `rfind_idx` returns exactly the last position holding `c`.
pub proof fn lemma_rfind_idx(s: Seq<char>, c: char)
    ensures
        match rfind_idx(s, c) {
            Some(i) => 0 <= i < s.len() && s[i] == c && forall|k: int| i < k < s.len() ==> s[k] != c,
            None => forall|k: int| 0 <= k < s.len() ==> s[k] != c,
        },
    decreases s.len(),
{
    if s.len() > 0 && s.last() != c {
        let t = s.drop_last();
        lemma_rfind_idx(t, c);
        assert(forall|k: int| 0 <= k < t.len() ==> t[k] == s[k]);
    }
}

/// The last position holding `c` determines `rfind_idx`.
pub proof fn lemma_rfind_idx_at(s: Seq<char>, c: char, i: int)
    requires
        0 <= i < s.len(),
        s[i] == c,
        forall|k: int| i < k < s.len() ==> s[k] != c,
    ensures
        rfind_idx(s, c) == Some(i),
    decreases s.len(),
{
    if i < s.len() - 1 {
        let t = s.drop_last();
        assert(forall|k: int| 0 <= k < t.len() ==> t[k] == s[k]);
        lemma_rfind_idx_at(t, c, i);
    }
}

/// A string in which `c` does not occur has no index under `rfind_idx`.
pub proof fn lemma_rfind_idx_none(s: Seq<char>, c: char)
    requires
        forall|k: int| 0 <= k < s.len() ==> s[k] != c,
    ensures
        rfind_idx(s, c) is None,
{
    lemma_rfind_idx(s, c);
    if rfind_idx(s, c) is Some {
        let i = rfind_idx(s, c)->Some_0;
        assert(s[i] == c);
    }
}

/// Index of the last occurrence of `c` in `s`, against `rfind_idx`.
pub fn rfind_char(s: &str, c: char) -> (r: Option<usize>)
    ensures
        match r {
            Some(i) => rfind_idx(s@, c) == Some(i as int),
            None => rfind_idx(s@, c) is None,
        },
{
    let len = s.unicode_len();
    let mut i: usize = len;
    while i > 0
        invariant
            len == s@.len(),
            i <= len,
            forall|k: int| i <= k < len ==> s@[k] != c,
        decreases i,
    {
        if s.get_char(i - 1) == c {
            proof {
                lemma_rfind_idx_at(s@, c, i - 1);
            }
            return Some(i - 1);
        }
        i -= 1;
    }
    proof {
        lemma_rfind_idx_none(s@, c);
    }
    None
}

/// Every occurrence of `pat` in `s`, leftmost first and without overlap,
/// replaced by `rep`.
pub open spec fn replace_seq(s: Seq<char>, pat: Seq<char>, rep: Seq<char>) -> Seq<char>
    decreases s.len(),
    when pat.len() > 0
{
    if s.len() < pat.len() {
        s
    } else if match_at(s, pat, 0) {
        rep + replace_seq(s.skip(pat.len() as int), pat, rep)
    } else {
        seq![s[0]] + replace_seq(s.drop_first(), pat, rep)
    }
}

/// The pieces of `s` between occurrences of the separator `c`.
pub open spec fn split_seq(s: Seq<char>, c: char) -> Seq<Seq<char>>
    decreases s.len(),
    via split_seq_dec
{
    match find_idx(s, c) {
        None => seq![s],
        Some(i) => seq![s.subrange(0, i)] + split_seq(s.skip(i + 1), c),
    }
}

#[via_fn]
proof fn split_seq_dec(s: Seq<char>, c: char) {
    lemma_find_idx(s, c);
}

/// A split has at least one piece, and at least two when the separator occurs.
pub proof fn lemma_split_len(s: Seq<char>, c: char)
    ensures
        split_seq(s, c).len() >= 1,
        find_idx(s, c) is Some ==> split_seq(s, c).len() >= 2,
    decreases s.len(),
{
    lemma_find_idx(s, c);
    if find_idx(s, c) is Some {
        let i = find_idx(s, c)->Some_0;
        lemma_split_len(s.skip(i + 1), c);
    }
}

/// Case folding maps no character into or out of whitespace.
pub proof fn lemma_lower_char_space(c: char)
    ensures
        is_space_char(lower_char(c)) == is_space_char(c),
{
    if is_upper_char(c) {
        let u = c as u32 + 32;
        assert((u as char) as u32 == u);
    }
}

/// Case folding is idempotent.
pub proof fn lemma_lower_idem(s: Seq<char>)
    ensures
        lower_seq(lower_seq(s)) == lower_seq(s),
{
    assert forall|i: int| 0 <= i < s.len() implies lower_char(lower_char(s[i])) == lower_char(
        s[i],
    ) by {
        let c = s[i];
        if is_upper_char(c) {
            let u = c as u32 + 32;
            assert((u as char) as u32 == u);
        }
    }
    assert(lower_seq(lower_seq(s)) =~= lower_seq(s));
}

/// Case folding commutes with trimming leading whitespace.
pub proof fn lemma_lower_trim_front(s: Seq<char>)
    ensures
        trim_front(lower_seq(s)) == lower_seq(trim_front(s)),
    decreases s.len(),
{
    if s.len() > 0 {
        lemma_lower_char_space(s[0]);
        assert(lower_seq(s)[0] == lower_char(s[0]));
        if is_space_char(s[0]) {
            lemma_lower_trim_front(s.drop_first());
            assert(lower_seq(s).drop_first() =~= lower_seq(s.drop_first()));
        }
    } else {
        assert(lower_seq(s) =~= s);
    }
}

/// Case folding commutes with trimming trailing whitespace.
pub proof fn lemma_lower_trim_back(s: Seq<char>)
    ensures
        trim_back(lower_seq(s)) == lower_seq(trim_back(s)),
    decreases s.len(),
{
    if s.len() > 0 {
        lemma_lower_char_space(s.last());
        assert(lower_seq(s).last() == lower_char(s.last()));
        if is_space_char(s.last()) {
            lemma_lower_trim_back(s.drop_last());
            assert(lower_seq(s).drop_last() =~= lower_seq(s.drop_last()));
        }
    } else {
        assert(lower_seq(s) =~= s);
    }
}

/// Case folding commutes with trimming.
pub proof fn lemma_lower_trim(s: Seq<char>)
    ensures
        trim_seq(lower_seq(s)) == lower_seq(trim_seq(s)),
{
    lemma_lower_trim_front(s);
    lemma_lower_trim_back(trim_front(s));
}

/// A front-trimmed string is empty or starts with non-whitespace.
proof fn lemma_trim_front_head(s: Seq<char>)
    ensures
        trim_front(s).len() > 0 ==> !is_space_char(trim_front(s)[0]),
    decreases s.len(),
{
    if s.len() > 0 && is_space_char(s[0]) {
        lemma_trim_front_head(s.drop_first());
    }
}

/// A back-trimmed string is empty or ends with non-whitespace.
proof fn lemma_trim_back_tail(s: Seq<char>)
    ensures
        trim_back(s).len() > 0 ==> !is_space_char(trim_back(s).last()),
    decreases s.len(),
{
    if s.len() > 0 && is_space_char(s.last()) {
        lemma_trim_back_tail(s.drop_last());
    }
}

/// Trimming the back keeps the first character of what remains.
proof fn lemma_trim_back_head(s: Seq<char>)
    ensures
        trim_back(s).len() > 0 ==> trim_back(s)[0] == s[0],
    decreases s.len(),
{
    if s.len() > 0 && is_space_char(s.last()) {
        lemma_trim_back_head(s.drop_last());
    }
}

/// Trimming is idempotent.
pub proof fn lemma_trim_idem(s: Seq<char>)
    ensures
        trim_seq(trim_seq(s)) == trim_seq(s),
{
    let f = trim_front(s);
    let t = trim_back(f);
    lemma_trim_front_head(s);
    lemma_trim_back_head(f);
    lemma_trim_back_tail(f);
    assert(trim_front(t) == t);
    assert(trim_back(t) == t);
}

/// `pat` occurs in `s` at position `i`.
fn matches_here(s: &str, i: usize, pat: &str) -> (r: bool)
    requires
        i + pat@.len() <= s@.len(),
    ensures
        r == match_at(s@, pat@, i as int),
{
    let s_len = s.unicode_len();
    let pat_len = pat.unicode_len();
    let mut j: usize = 0;
    while j < pat_len
        invariant
            s_len == s@.len(),
            pat_len == pat@.len(),
            i + pat_len <= s_len,
            j <= pat_len,
            forall|k: int| 0 <= k < j ==> s@[i + k] == pat@[k],
        decreases pat_len - j,
    {
        if s.get_char(i + j) != pat.get_char(j) {
            proof {
                assert(s@.subrange(i as int, i + pat@.len())[j as int] != pat@[j as int]);
            }
            return false;
        }
        j += 1;
    }
    proof {
        assert(s@.subrange(i as int, i + pat@.len()) =~= pat@);
    }
    true
}

/// Reports whether `needle` occurs in `hay`, against `contains_seq`.
pub fn contains_str(hay: &str, needle: &str) -> (r: bool)
    ensures
        r == contains_seq(hay@, needle@),
{
    let hay_len = hay.unicode_len();
    let needle_len = needle.unicode_len();
    if needle_len > hay_len {
        proof {
            assert(forall|i: int| !match_at(hay@, needle@, i));
        }
        return false;
    }
    if needle_len == 0 {
        proof {
            assert(hay@.subrange(0, 0) =~= needle@);
            assert(match_at(hay@, needle@, 0));
        }
        return true;
    }
    let mut i: usize = 0;
    while i <= hay_len - needle_len
        invariant
            needle_len == needle@.len(),
            hay_len == hay@.len(),
            1 <= needle_len <= hay_len,
            i <= hay_len - needle_len + 1,
            forall|k: int| 0 <= k < i ==> !match_at(hay@, needle@, k),
        decreases hay_len - needle_len - i + 1,
    {
        if matches_here(hay, i, needle) {
            proof {
                assert(match_at(hay@, needle@, i as int));
            }
            return true;
        }
        i += 1;
    }
    proof {
        assert(forall|k: int|
            match_at(hay@, needle@, k) ==> 0 <= k <= hay@.len() - needle@.len());
    }
    false
}

/// Reports whether `s` starts with `prefix`.
pub fn starts_with_str(s: &str, prefix: &str) -> (r: bool)
    ensures
        r == match_at(s@, prefix@, 0),
{
    let s_len = s.unicode_len();
    let p_len = prefix.unicode_len();
    if p_len > s_len {
        return false;
    }
    matches_here(s, 0, prefix)
}

/// ASCII lower-casing of a string, against `lower_seq`.
pub fn to_lower(s: &str) -> (r: String)
    ensures
        r@ == lower_seq(s@),
{
    let len = s.unicode_len();
    let mut r = String::new();
    let mut i: usize = 0;
    while i < len
        invariant
            len == s@.len(),
            i <= len,
            r@ =~= lower_seq(s@.take(i as int)),
        decreases len - i,
    {
        let c = s.get_char(i);
        let u: u32 = c as u32;
        let low: char = if 65 <= u && u <= 90 {
            ((u + 32) as u8) as char
        } else {
            c
        };
        push_char(&mut r, low);
        proof {
            assert(low == lower_char(s@[i as int]));
            assert(lower_seq(s@.take(i + 1)) =~= lower_seq(s@.take(i as int)).push(
                lower_char(s@[i as int]),
            ));
        }
        i += 1;
    }
    proof {
        assert(s@.take(len as int) =~= s@);
    }
    r
}

/// Index of the first character of `s` that is not whitespace, or the length.
fn first_non_space(s: &str) -> (r: usize)
    ensures
        r <= s@.len(),
        trim_front(s@) == s@.skip(r as int),
{
    let len = s.unicode_len();
    let mut i: usize = 0;
    proof {
        assert(s@.skip(0) =~= s@);
    }
    while i < len
        invariant
            len == s@.len(),
            i <= len,
            trim_front(s@) == trim_front(s@.skip(i as int)),
        decreases len - i,
    {
        let c = s.get_char(i);
        if !(c == ' ' || c == '\t' || c == '\n' || c == '\r') {
            proof {
                assert(!is_space_char(s@.skip(i as int)[0]));
            }
            return i;
        }
        proof {
            assert(is_space_char(s@.skip(i as int)[0]));
            assert(s@.skip(i as int).drop_first() =~= s@.skip(i + 1));
        }
        i += 1;
    }
    proof {
        assert(s@.skip(len as int) =~= Seq::<char>::empty());
    }
    len
}

/// One past the last non-whitespace character at or after `start`, or `start`.
fn last_non_space(s: &str, start: usize) -> (end: usize)
    requires
        start <= s@.len(),
    ensures
        start <= end <= s@.len(),
        trim_back(s@.skip(start as int)) == s@.subrange(start as int, end as int),
{
    let len = s.unicode_len();
    let mut end: usize = len;
    proof {
        assert(s@.skip(start as int).take((len - start) as int) =~= s@.skip(start as int));
    }
    while end > start
        invariant
            len == s@.len(),
            start <= end <= len,
            trim_back(s@.skip(start as int)) == trim_back(
                s@.skip(start as int).take((end - start) as int),
            ),
        decreases end,
    {
        let ghost t = s@.skip(start as int).take((end - start) as int);
        let c = s.get_char(end - 1);
        if !(c == ' ' || c == '\t' || c == '\n' || c == '\r') {
            proof {
                assert(t.last() == s@[end - 1]);
                assert(!is_space_char(t.last()));
                assert(t =~= s@.subrange(start as int, end as int));
            }
            return end;
        }
        proof {
            assert(t.last() == s@[end - 1]);
            assert(is_space_char(t.last()));
            assert(t.drop_last() =~= s@.skip(start as int).take((end - 1 - start) as int));
        }
        end -= 1;
    }
    proof {
        let t = s@.skip(start as int).take(0);
        assert(t =~= Seq::<char>::empty());
        assert(t =~= s@.subrange(start as int, start as int));
    }
    start
}

/// Trimming whitespace from both ends, against `trim_seq`.
pub fn trim_str(s: &str) -> (r: String)
    ensures
        r@ == trim_seq(s@),
{
    let start = first_non_space(s);
    let end = last_non_space(s, start);
    let piece = s.substring_char(start, end);
    proof {
        assert(piece@ =~= s@.subrange(start as int, end as int));
    }
    piece.to_owned()
}

/// Replacement of every occurrence of `pat` by `rep`, against `replace_seq`.
pub fn replace_str(s: &str, pat: &str, rep: &str) -> (r: String)
    requires
        pat@.len() > 0,
    ensures
        r@ == replace_seq(s@, pat@, rep@),
{
    let len = s.unicode_len();
    let pat_len = pat.unicode_len();
    let mut r = String::new();
    let mut i: usize = 0;
    proof {
        assert(s@.skip(0) =~= s@);
    }
    while i < len
        invariant
            len == s@.len(),
            pat_len == pat@.len(),
            pat_len > 0,
            i <= len,
            replace_seq(s@, pat@, rep@) == r@ + replace_seq(s@.skip(i as int), pat@, rep@),
        decreases len - i,
    {
        let ghost rest = s@.skip(i as int);
        let ghost r_old = r@;
        if pat_len <= len - i && matches_here(s, i, pat) {
            proof {
                assert(rest.subrange(0, pat@.len() as int) =~= s@.subrange(
                    i as int,
                    i + pat@.len(),
                ));
                assert(match_at(rest, pat@, 0));
                assert(rest.skip(pat@.len() as int) =~= s@.skip(i + pat@.len()));
                assert(replace_seq(rest, pat@, rep@) == rep@ + replace_seq(
                    s@.skip(i + pat@.len()),
                    pat@,
                    rep@,
                ));
            }
            r.append(rep);
            proof {
                assert(r_old + (rep@ + replace_seq(s@.skip(i + pat@.len()), pat@, rep@)) =~= (
                r_old + rep@) + replace_seq(s@.skip(i + pat@.len()), pat@, rep@));
            }
            i += pat_len;
        } else {
            proof {
                if i + pat@.len() <= s@.len() {
                    assert(rest.subrange(0, pat@.len() as int) =~= s@.subrange(
                        i as int,
                        i + pat@.len(),
                    ));
                    assert(!match_at(rest, pat@, 0));
                    assert(rest.drop_first() =~= s@.skip(i + 1));
                    assert(replace_seq(rest, pat@, rep@) == seq![rest[0]] + replace_seq(
                        s@.skip(i + 1),
                        pat@,
                        rep@,
                    ));
                } else {
                    assert(rest.len() < pat@.len());
                    assert(replace_seq(rest, pat@, rep@) == rest);
                    assert(s@.skip(i + 1).len() < pat@.len());
                    assert(replace_seq(s@.skip(i + 1), pat@, rep@) == s@.skip(i + 1));
                    assert(rest =~= seq![rest[0]] + s@.skip(i + 1));
                }
            }
            let c = s.get_char(i);
            push_char(&mut r, c);
            proof {
                assert(r@ =~= r_old + seq![s@[i as int]]);
                assert(r_old + (seq![rest[0]] + replace_seq(s@.skip(i + 1), pat@, rep@)) =~= (
                r_old + seq![rest[0]]) + replace_seq(s@.skip(i + 1), pat@, rep@));
            }
            i += 1;
        }
    }
    proof {
        assert(s@.skip(len as int) =~= Seq::<char>::empty());
        assert(replace_seq(Seq::<char>::empty(), pat@, rep@) == Seq::<char>::empty());
        assert(r@ + Seq::<char>::empty() =~= r@);
    }
    r
}

/// Index of the first occurrence of `c` in `s`, against `find_idx`.
pub fn find_char(s: &str, c: char) -> (r: Option<usize>)
    ensures
        match r {
            Some(i) => find_idx(s@, c) == Some(i as int),
            None => find_idx(s@, c) is None,
        },
{
    let len = s.unicode_len();
    let mut i: usize = 0;
    while i < len
        invariant
            len == s@.len(),
            i <= len,
            forall|k: int| 0 <= k < i ==> s@[k] != c,
        decreases len - i,
    {
        if s.get_char(i) == c {
            proof {
                lemma_find_idx_at(s@, c, i as int);
            }
            return Some(i);
        }
        i += 1;
    }
    proof {
        lemma_find_idx_none(s@, c);
    }
    None
}

/// The pieces of `s` between occurrences of `c`, against `split_seq`.
pub fn split_str(s: &str, c: char) -> (r: Vec<String>)
    ensures
        r.deep_view() == split_seq(s@, c),
{
    let mut pieces: Vec<String> = Vec::new();
    let mut start: usize = 0;
    let len = s.unicode_len();
    let mut i: usize = 0;
    proof {
        assert(s@.skip(0) =~= s@);
        assert(pieces.deep_view() =~= Seq::<Seq<char>>::empty());
    }
    while i < len
        invariant
            len == s@.len(),
            start <= i <= len,
            forall|k: int| start <= k < i ==> s@[k] != c,
            split_seq(s@, c) == pieces.deep_view() + split_seq(s@.skip(start as int), c),
        decreases len - i,
    {
        if s.get_char(i) == c {
            let piece = s.substring_char(start, i).to_owned();
            let ghost prev = pieces.deep_view();
            proof {
                let rest = s@.skip(start as int);
                assert(forall|k: int| 0 <= k < i - start ==> rest[k] == s@[start + k]);
                lemma_find_idx_at(rest, c, i - start);
                assert(rest.subrange(0, i - start) =~= s@.subrange(start as int, i as int));
                assert(rest.skip(i - start + 1) =~= s@.skip(i + 1));
                assert(split_seq(rest, c) == seq![s@.subrange(start as int, i as int)]
                    + split_seq(s@.skip(i + 1), c));
            }
            pieces.push(piece);
            proof {
                assert(pieces.deep_view() =~= prev.push(piece@));
                assert(prev + (seq![piece@] + split_seq(s@.skip(i + 1), c)) =~= prev.push(piece@)
                    + split_seq(s@.skip(i + 1), c));
            }
            start = i + 1;
        }
        i += 1;
    }
    let piece = s.substring_char(start, len).to_owned();
    let ghost prev = pieces.deep_view();
    proof {
        let rest = s@.skip(start as int);
        assert(forall|k: int| 0 <= k < rest.len() ==> rest[k] == s@[start + k]);
        lemma_find_idx_none(rest, c);
        assert(split_seq(rest, c) == seq![rest]);
        assert(rest =~= s@.subrange(start as int, len as int));
    }
    pieces.push(piece);
    proof {
        assert(pieces.deep_view() =~= prev.push(piece@));
        assert(prev + seq![piece@] =~= prev.push(piece@));
    }
    pieces
}

} // verus!
