//! Character-level string operations with exact sequence specifications:
//! equality, prefix/suffix/containment tests, trimming and comma splitting.
//! These back the identifier and configuration parsing contracts.

use vstd::prelude::*;

verus! {

/// `p` is a prefix of `s`.
pub open spec fn seq_starts_with(s: Seq<char>, p: Seq<char>) -> bool {
    p.len() <= s.len() && s.subrange(0, p.len() as int) == p
}

/// `p` is a suffix of `s`.
pub open spec fn seq_ends_with(s: Seq<char>, p: Seq<char>) -> bool {
    p.len() <= s.len() && s.subrange(s.len() - p.len(), s.len() as int) == p
}

/// `p` occurs in `s` at position `i`.
pub open spec fn occurs_at(s: Seq<char>, p: Seq<char>, i: int) -> bool {
    0 <= i && i + p.len() <= s.len() && s.subrange(i, i + p.len()) == p
}

/// `p` occurs somewhere in `s`.
pub open spec fn seq_contains(s: Seq<char>, p: Seq<char>) -> bool {
    exists|i: int| occurs_at(s, p, i)
}

/// The characters the configuration parser treats as blank.
pub open spec fn is_space_char(c: char) -> bool {
    c == ' ' || c == '\t' || c == '\n' || c == '\r'
}

/// `s` with leading blank characters removed.
pub open spec fn trim_start_spec(s: Seq<char>) -> Seq<char>
    decreases s.len(),
{
    if s.len() > 0 && is_space_char(s[0]) {
        trim_start_spec(s.drop_first())
    } else {
        s
    }
}

/// `s` with trailing blank characters removed.
pub open spec fn trim_end_spec(s: Seq<char>) -> Seq<char>
    decreases s.len(),
{
    if s.len() > 0 && is_space_char(s.last()) {
        trim_end_spec(s.drop_last())
    } else {
        s
    }
}

/// `s` with blank characters removed from both ends.
pub open spec fn trim_spec(s: Seq<char>) -> Seq<char> {
    trim_end_spec(trim_start_spec(s))
}

/// Index of the first occurrence of `c` in `s`, or -1 if absent.
pub open spec fn find_char(s: Seq<char>, c: char) -> int
    decreases s.len(),
{
    if s.len() == 0 {
        -1
    } else if s[0] == c {
        0
    } else {
        let r = find_char(s.drop_first(), c);
        if r < 0 {
            -1
        } else {
            r + 1
        }
    }
}

pub proof fn lemma_find_char(s: Seq<char>, c: char)
    ensures
        find_char(s, c) == -1 ==> forall|i: int| 0 <= i < s.len() ==> s[i] != c,
        find_char(s, c) >= 0 ==> find_char(s, c) < s.len() && s[find_char(s, c)] == c && forall|
            i: int,
        | 0 <= i < find_char(s, c) ==> s[i] != c,
    decreases s.len(),
{
    if s.len() > 0 && s[0] != c {
        lemma_find_char(s.drop_first(), c);
        let r = find_char(s.drop_first(), c);
        if r == -1 {
            assert forall|i: int| 0 <= i < s.len() implies s[i] != c by {
                if i > 0 {
                    assert(s.drop_first()[i - 1] == s[i]);
                }
            }
        } else {
            assert(s.drop_first()[r] == s[r + 1]);
            assert forall|i: int| 0 <= i < r + 1 implies s[i] != c by {
                if i > 0 {
                    assert(s.drop_first()[i - 1] == s[i]);
                }
            }
        }
    }
}

/// The segments of `s` between commas, in order; a string without commas is
/// one segment, and every comma separates two (possibly empty) segments.
pub open spec fn split_commas(s: Seq<char>) -> Seq<Seq<char>>
    decreases s.len(),
{
    let i = find_char(s, ',');
    if i < 0 {
        seq![s]
    } else if i < s.len() {
        seq![s.subrange(0, i)] + split_commas(s.subrange(i + 1, s.len() as int))
    } else {
        seq![s]
    }
}

/// Character-by-character equality of two strings.
pub fn str_eq(a: &str, b: &str) -> (r: bool)
    ensures
        r == (a@ == b@),
{
    let alen = a.unicode_len();
    let blen = b.unicode_len();
    if alen != blen {
        proof {
            assert(a@ != b@);
        }
        return false;
    }
    let mut i: usize = 0;
    while i < alen
        invariant
            i <= alen,
            alen == a@.len(),
            alen == b@.len(),
            forall|j: int| 0 <= j < i ==> a@[j] == b@[j],
        decreases alen - i,
    {
        if a.get_char(i) != b.get_char(i) {
            return false;
        }
        i += 1;
    }
    proof {
        assert(a@ =~= b@);
    }
    true
}

/// Whether `s` begins with `p`, by characters.
pub fn str_starts_with(s: &str, p: &str) -> (r: bool)
    ensures
        r == seq_starts_with(s@, p@),
{
    let slen = s.unicode_len();
    let plen = p.unicode_len();
    if plen > slen {
        return false;
    }
    let mut i: usize = 0;
    while i < plen
        invariant
            i <= plen,
            plen <= slen,
            slen == s@.len(),
            plen == p@.len(),
            forall|j: int| 0 <= j < i ==> s@[j] == p@[j],
        decreases plen - i,
    {
        if s.get_char(i) != p.get_char(i) {
            proof {
                assert(s@.subrange(0, p@.len() as int)[i as int] == s@[i as int]);
            }
            return false;
        }
        i += 1;
    }
    proof {
        assert(s@.subrange(0, p@.len() as int) =~= p@);
    }
    true
}

/// Whether `s` ends with `p`, by characters.
pub fn str_ends_with(s: &str, p: &str) -> (r: bool)
    ensures
        r == seq_ends_with(s@, p@),
{
    let slen = s.unicode_len();
    let plen = p.unicode_len();
    if plen > slen {
        return false;
    }
    let off = slen - plen;
    let mut i: usize = 0;
    while i < plen
        invariant
            i <= plen,
            plen <= slen,
            off == slen - plen,
            slen == s@.len(),
            plen == p@.len(),
            forall|j: int| 0 <= j < i ==> s@[off + j] == p@[j],
        decreases plen - i,
    {
        if s.get_char(off + i) != p.get_char(i) {
            proof {
                assert(s@.subrange(s@.len() - p@.len(), s@.len() as int)[i as int] == s@[
                    off + i
                ]);
            }
            return false;
        }
        i += 1;
    }
    proof {
        assert(s@.subrange(s@.len() - p@.len(), s@.len() as int) =~= p@);
    }
    true
}

/// Whether `p` occurs anywhere in `s`, by characters.
pub fn str_contains(s: &str, p: &str) -> (r: bool)
    ensures
        r == seq_contains(s@, p@),
{
    let slen = s.unicode_len();
    let plen = p.unicode_len();
    if plen > slen {
        return false;
    }
    if plen == 0 {
        proof {
            assert(s@.subrange(0, 0) =~= p@);
            assert(occurs_at(s@, p@, 0));
        }
        return true;
    }
    let bound = slen - plen;
    let mut start: usize = 0;
    while start <= bound
        invariant
            0 < plen <= slen,
            bound == slen - plen,
            slen == s@.len(),
            plen == p@.len(),
            start <= bound + 1,
            forall|i: int| 0 <= i < start ==> !occurs_at(s@, p@, i),
        decreases bound + 1 - start,
    {
        let mut i: usize = 0;
        let mut matched = true;
        while matched && i < plen
            invariant
                i <= plen,
                start + plen <= slen,
                slen == s@.len(),
                plen == p@.len(),
                matched ==> forall|j: int| 0 <= j < i ==> s@[start + j] == p@[j],
                !matched ==> s@.subrange(start as int, start + p@.len()) != p@,
            decreases plen - i + (if matched { 1int } else { 0int }),
        {
            if s.get_char(start + i) != p.get_char(i) {
                proof {
                    assert(s@.subrange(start as int, start + p@.len())[i as int] == s@[
                        start + i
                    ]);
                }
                matched = false;
            } else {
                i += 1;
            }
        }
        if matched {
            proof {
                assert(s@.subrange(start as int, start + p@.len()) =~= p@);
                assert(occurs_at(s@, p@, start as int));
            }
            return true;
        }
        start += 1;
    }
    proof {
        assert forall|i: int| !occurs_at(s@, p@, i) by {
            if 0 <= i && i + p@.len() <= s@.len() {
                assert(!occurs_at(s@, p@, i));
            }
        }
    }
    false
}

proof fn lemma_trim_start_at(s: Seq<char>, k: int)
    requires
        0 <= k <= s.len(),
        forall|j: int| 0 <= j < k ==> is_space_char(s[j]),
        k == s.len() || !is_space_char(s[k]),
    ensures
        trim_start_spec(s) == s.subrange(k, s.len() as int),
    decreases k,
{
    if k == 0 {
        assert(s.subrange(0, s.len() as int) =~= s);
    } else {
        let d = s.drop_first();
        assert forall|j: int| 0 <= j < k - 1 implies is_space_char(d[j]) by {
            assert(d[j] == s[j + 1]);
        }
        if k - 1 < d.len() {
            assert(d[k - 1] == s[k]);
        }
        lemma_trim_start_at(d, k - 1);
        assert(d.subrange(k - 1, d.len() as int) =~= s.subrange(k, s.len() as int));
    }
}

proof fn lemma_trim_end_at(s: Seq<char>, k: int)
    requires
        0 <= k <= s.len(),
        forall|j: int| k <= j < s.len() ==> is_space_char(s[j]),
        k == 0 || !is_space_char(s[k - 1]),
    ensures
        trim_end_spec(s) == s.subrange(0, k),
    decreases s.len() - k,
{
    if k == s.len() {
        assert(s.subrange(0, s.len() as int) =~= s);
    } else {
        let d = s.drop_last();
        assert forall|j: int| k <= j < d.len() implies is_space_char(d[j]) by {
            assert(d[j] == s[j]);
        }
        lemma_trim_end_at(d, k);
        assert(d.subrange(0, k) =~= s.subrange(0, k));
    }
}

/// `s` with blank characters removed from both ends.
pub fn str_trim(s: &str) -> (r: &str)
    ensures
        r@ == trim_spec(s@),
{
    let len = s.unicode_len();
    let mut lo: usize = 0;
    let mut lo_done = false;
    while !lo_done && lo < len
        invariant
            lo <= len,
            len == s@.len(),
            forall|j: int| 0 <= j < lo ==> is_space_char(s@[j]),
            lo_done ==> lo < len && !is_space_char(s@[lo as int]),
        decreases len - lo + (if lo_done { 0int } else { 1int }),
    {
        let c = s.get_char(lo);
        if c == ' ' || c == '\t' || c == '\n' || c == '\r' {
            lo += 1;
        } else {
            lo_done = true;
        }
    }
    let mut hi: usize = len;
    let mut hi_done = false;
    while !hi_done && hi > lo
        invariant
            lo <= hi <= len,
            len == s@.len(),
            forall|j: int| 0 <= j < lo ==> is_space_char(s@[j]),
            lo == len || !is_space_char(s@[lo as int]),
            forall|j: int| hi <= j < len ==> is_space_char(s@[j]),
            hi_done ==> hi > lo && !is_space_char(s@[hi - 1]),
        decreases hi + (if hi_done { 0int } else { 1int }),
    {
        let c = s.get_char(hi - 1);
        if c == ' ' || c == '\t' || c == '\n' || c == '\r' {
            hi -= 1;
        } else {
            hi_done = true;
        }
    }
    let r = s.substring_char(lo, hi);
    proof {
        lemma_trim_start_at(s@, lo as int);
        let t = s@.subrange(lo as int, s@.len() as int);
        let k = hi - lo;
        assert forall|j: int| k <= j < t.len() implies is_space_char(t[j]) by {
            assert(t[j] == s@[lo + j]);
        }
        if k > 0 {
            assert(t[k - 1] == s@[hi - 1]);
        }
        lemma_trim_end_at(t, k as int);
        assert(t.subrange(0, k as int) =~= s@.subrange(lo as int, hi as int));
    }
    r
}

/// Index of the first comma in `s`, if any.
pub fn find_comma(s: &str) -> (r: Option<usize>)
    ensures
        match r {
            Some(i) => find_char(s@, ',') == i as int,
            None => find_char(s@, ',') == -1,
        },
{
    let len = s.unicode_len();
    let mut i: usize = 0;
    while i < len
        invariant
            i <= len,
            len == s@.len(),
            forall|j: int| 0 <= j < i ==> s@[j] != ',',
        decreases len - i,
    {
        if s.get_char(i) == ',' {
            proof {
                lemma_find_char(s@, ',');
            }
            return Some(i);
        }
        i += 1;
    }
    proof {
        lemma_find_char(s@, ',');
    }
    None
}

/// Splits `s` at commas; each comma separates two segments.
pub fn split_commas_exec(s: &str) -> (r: Vec<String>)
    ensures
        r.deep_view() == split_commas(s@),
    decreases s@.len(),
{
    let len = s.unicode_len();
    match find_comma(s) {
        None => {
            let mut r: Vec<String> = Vec::new();
            r.push(String::from_str(s));
            proof {
                assert(r.deep_view() =~= split_commas(s@));
            }
            r
        },
        Some(i) => {
            proof {
                lemma_find_char(s@, ',');
            }
            let head = s.substring_char(0, i);
            let tail = s.substring_char(i + 1, len);
            let mut rest = split_commas_exec(tail);
            let ghost rest_view = rest.deep_view();
            let mut r: Vec<String> = Vec::new();
            r.push(String::from_str(head));
            r.append(&mut rest);
            proof {
                assert(r.deep_view() =~= seq![head@] + rest_view);
                assert(r.deep_view() =~= split_commas(s@));
            }
            r
        },
    }
}

/// Strict lexicographic order on character sequences: the order `ORDER BY`
/// gives text columns, compared code point by code point.
pub open spec fn lex_lt(a: Seq<char>, b: Seq<char>) -> bool
    decreases a.len(),
{
    if b.len() == 0 {
        false
    } else if a.len() == 0 {
        true
    } else if a[0] != b[0] {
        a[0] < b[0]
    } else {
        lex_lt(a.drop_first(), b.drop_first())
    }
}

/// Dropping a common prefix does not change the order.
pub proof fn lemma_lex_lt_skip(a: Seq<char>, b: Seq<char>, i: int)
    requires
        0 <= i <= a.len(),
        i <= b.len(),
        forall|j: int| 0 <= j < i ==> a[j] == b[j],
    ensures
        lex_lt(a, b) == lex_lt(a.skip(i), b.skip(i)),
    decreases i,
{
    if i > 0 {
        let da = a.drop_first();
        let db = b.drop_first();
        assert forall|j: int| 0 <= j < i - 1 implies da[j] == db[j] by {
            assert(da[j] == a[j + 1] && db[j] == b[j + 1]);
        }
        lemma_lex_lt_skip(da, db, i - 1);
        assert(da.skip(i - 1) =~= a.skip(i));
        assert(db.skip(i - 1) =~= b.skip(i));
    } else {
        assert(a.skip(0) =~= a);
        assert(b.skip(0) =~= b);
    }
}

/// Whether `a` comes strictly before `b` in lexicographic order.
#[verifier::loop_isolation(false)]
pub fn str_lt(a: &str, b: &str) -> (r: bool)
    ensures
        r == lex_lt(a@, b@),
{
    let alen = a.unicode_len();
    let blen = b.unicode_len();
    let m = if alen < blen {
        alen
    } else {
        blen
    };
    let mut i: usize = 0;
    while i < m
        invariant
            i <= m,
            m == (if alen < blen {
                alen as int
            } else {
                blen as int
            }),
            alen == a@.len(),
            blen == b@.len(),
            forall|j: int| 0 <= j < i ==> a@[j] == b@[j],
        decreases m - i,
    {
        let ca = a.get_char(i);
        let cb = b.get_char(i);
        if ca != cb {
            proof {
                lemma_lex_lt_skip(a@, b@, i as int);
                assert(a@.skip(i as int)[0] == a@[i as int]);
                assert(b@.skip(i as int)[0] == b@[i as int]);
            }
            return ca < cb;
        }
        i += 1;
    }
    proof {
        lemma_lex_lt_skip(a@, b@, m as int);
        if alen < blen {
            assert(a@.skip(m as int).len() == 0);
            assert(b@.skip(m as int).len() > 0);
        } else {
            assert(b@.skip(m as int).len() == 0);
        }
    }
    alen < blen
}

} // verus!
