//! Byte-level text helpers.
//!
//! The bridge tool prints plain (mostly ASCII) text; every parser in this
//! crate works on the UTF-8 bytes of that text.  This module gives the small
//! set of verified primitives the parsers are built from: trimming, line and
//! token splitting, searching, and decimal conversion, each specified against
//! a spec-level function on `Seq<u8>`.

use vstd::prelude::*;

verus! {

/// ASCII whitespace: space, tab, line feed, vertical tab, form feed,
/// carriage return.
pub open spec fn is_space(b: u8) -> bool {
    b == 32 || (9 <= b && b <= 13)
}

fn is_space_byte(b: u8) -> (r: bool)
    ensures
        r == is_space(b),
{
    b == 32 || (9 <= b && b <= 13)
}

/// Copy of `s[from..to]`.
pub fn subrange_vec(s: &[u8], from: usize, to: usize) -> (r: Vec<u8>)
    requires
        from <= to <= s@.len(),
    ensures
        r@ == s@.subrange(from as int, to as int),
{
    let mut r: Vec<u8> = Vec::new();
    let mut i: usize = from;
    while i < to
        invariant
            from <= i <= to <= s@.len(),
            r@ == s@.subrange(from as int, i as int),
        decreases to - i,
    {
        r.push(s[i]);
        i = i + 1;
        proof {
            assert(r@ =~= s@.subrange(from as int, i as int));
        }
    }
    r
}

/// Byte-for-byte equality of two byte strings.
pub fn bytes_eq(a: &[u8], b: &[u8]) -> (r: bool)
    ensures
        r == (a@ == b@),
{
    if a.len() != b.len() {
        proof {
            assert(a@ != b@);
        }
        return false;
    }
    let mut i: usize = 0;
    while i < a.len()
        invariant
            i <= a@.len(),
            a@.len() == b@.len(),
            forall|j: int| 0 <= j < i ==> a@[j] == b@[j],
        decreases a@.len() - i,
    {
        if a[i] != b[i] {
            return false;
        }
        i = i + 1;
    }
    proof {
        assert(a@ =~= b@);
    }
    true
}

/// Index of the first occurrence of `b` in `s`, if any.
pub open spec fn spec_find(s: Seq<u8>, b: u8) -> Option<int>
    decreases s.len(),
{
    if s.len() == 0 {
        None
    } else if s[0] == b {
        Some(0int)
    } else {
        match spec_find(s.drop_first(), b) {
            Some(i) => Some(i + 1),
            None => None,
        }
    }
}

pub proof fn lemma_find_props(s: Seq<u8>, b: u8)
    ensures
        match spec_find(s, b) {
            Some(i) => 0 <= i < s.len() && s[i] == b && (forall|j: int| 0 <= j < i ==> s[j] != b),
            None => forall|j: int| 0 <= j < s.len() ==> s[j] != b,
        },
    decreases s.len(),
{
    if s.len() > 0 && s[0] != b {
        let t = s.drop_first();
        lemma_find_props(t, b);
        assert(forall|j: int| 0 <= j < t.len() ==> t[j] == s[j + 1]);
        match spec_find(t, b) {
            Some(i) => {
                assert(s[i + 1] == t[i]);
                assert(forall|j: int| 1 <= j < i + 1 ==> s[j] == t[j - 1]);
            },
            None => {
                assert(forall|j: int| 1 <= j < s.len() ==> s[j] == t[j - 1]);
            },
        }
    }
}

/// First index of `b` in `s`.
pub fn find_byte(s: &[u8], b: u8) -> (r: Option<usize>)
    ensures
        match r {
            Some(i) => spec_find(s@, b) == Some(i as int),
            None => spec_find(s@, b) is None,
        },
{
    proof {
        lemma_find_props(s@, b);
    }
    let mut i: usize = 0;
    while i < s.len()
        invariant
            i <= s@.len(),
            forall|j: int| 0 <= j < i ==> s@[j] != b,
            match spec_find(s@, b) {
                Some(k) => 0 <= k < s@.len() && s@[k] == b && (forall|j: int| 0 <= j < k ==> s@[j] != b),
                None => forall|j: int| 0 <= j < s@.len() ==> s@[j] != b,
            },
        decreases s@.len() - i,
    {
        if s[i] == b {
            proof {
                let k = spec_find(s@, b)->Some_0;
                assert(spec_find(s@, b) is Some);
                assert(k <= i && i <= k);
            }
            return Some(i);
        }
        i = i + 1;
    }
    None
}

/// Whether `s` contains the byte `b`.
pub fn contains_byte(s: &[u8], b: u8) -> (r: bool)
    ensures
        r == s@.contains(b),
{
    proof {
        lemma_find_props(s@, b);
    }
    let r = find_byte(s, b);
    proof {
        if r is Some {
            assert(s@[spec_find(s@, b)->Some_0] == b);
        }
        if s@.contains(b) {
            let w = choose|w: int| 0 <= w < s@.len() && s@[w] == b;
            assert(s@[w] == b);
        }
    }
    r.is_some()
}

/// `p` is a prefix of `s`.
pub open spec fn spec_starts_with(s: Seq<u8>, p: Seq<u8>) -> bool {
    p.len() <= s.len() && s.subrange(0, p.len() as int) == p
}

pub fn starts_with(s: &[u8], p: &[u8]) -> (r: bool)
    ensures
        r == spec_starts_with(s@, p@),
{
    if p.len() > s.len() {
        return false;
    }
    let mut i: usize = 0;
    while i < p.len()
        invariant
            i <= p@.len() <= s@.len(),
            forall|j: int| 0 <= j < i ==> s@[j] == p@[j],
        decreases p@.len() - i,
    {
        if s[i] != p[i] {
            proof {
                assert(s@.subrange(0, p@.len() as int)[i as int] != p@[i as int]);
            }
            return false;
        }
        i = i + 1;
    }
    proof {
        assert(s@.subrange(0, p@.len() as int) =~= p@);
    }
    true
}

/// What is left of `s` after a prefix `p`, when `p` is indeed a prefix.
pub open spec fn spec_strip_prefix(s: Seq<u8>, p: Seq<u8>) -> Option<Seq<u8>> {
    if spec_starts_with(s, p) {
        Some(s.subrange(p.len() as int, s.len() as int))
    } else {
        None
    }
}

pub fn strip_prefix(s: &[u8], p: &[u8]) -> (r: Option<Vec<u8>>)
    ensures
        match r {
            Some(v) => spec_strip_prefix(s@, p@) == Some(v@),
            None => spec_strip_prefix(s@, p@) is None,
        },
{
    if starts_with(s, p) {
        Some(subrange_vec(s, p.len(), s.len()))
    } else {
        None
    }
}

/// `p` is a suffix of `s`.
pub open spec fn spec_ends_with(s: Seq<u8>, p: Seq<u8>) -> bool {
    p.len() <= s.len() && s.subrange(s.len() - p.len(), s.len() as int) == p
}

/// What is left of `s` before a suffix `p`, when `p` is indeed a suffix.
pub open spec fn spec_strip_suffix(s: Seq<u8>, p: Seq<u8>) -> Option<Seq<u8>> {
    if spec_ends_with(s, p) {
        Some(s.subrange(0, s.len() - p.len()))
    } else {
        None
    }
}

pub fn strip_suffix(s: &[u8], p: &[u8]) -> (r: Option<Vec<u8>>)
    ensures
        match r {
            Some(v) => spec_strip_suffix(s@, p@) == Some(v@),
            None => spec_strip_suffix(s@, p@) is None,
        },
{
    if p.len() > s.len() {
        return None;
    }
    let cut = s.len() - p.len();
    let tail = subrange_vec(s, cut, s.len());
    if bytes_eq(tail.as_slice(), p) {
        Some(subrange_vec(s, 0, cut))
    } else {
        None
    }
}

/// `s` with leading ASCII whitespace removed.
pub open spec fn spec_trim_start(s: Seq<u8>) -> Seq<u8>
    decreases s.len(),
{
    if s.len() > 0 && is_space(s[0]) {
        spec_trim_start(s.drop_first())
    } else {
        s
    }
}

/// `s` with trailing ASCII whitespace removed.
pub open spec fn spec_trim_end(s: Seq<u8>) -> Seq<u8>
    decreases s.len(),
{
    if s.len() > 0 && is_space(s[s.len() - 1]) {
        spec_trim_end(s.drop_last())
    } else {
        s
    }
}

/// `s` with ASCII whitespace removed at both ends.
pub open spec fn spec_trim(s: Seq<u8>) -> Seq<u8> {
    spec_trim_end(spec_trim_start(s))
}

proof fn lemma_trim_start_subrange(s: Seq<u8>, lo: int)
    requires
        0 <= lo <= s.len(),
        forall|j: int| 0 <= j < lo ==> is_space(s[j]),
        lo == s.len() || !is_space(s[lo]),
    ensures
        spec_trim_start(s) == s.subrange(lo, s.len() as int),
    decreases lo,
{
    if lo == 0 {
        assert(s.subrange(0, s.len() as int) =~= s);
    } else {
        assert(is_space(s[0]));
        lemma_trim_start_subrange(s.drop_first(), lo - 1);
        assert(s.drop_first().subrange(lo - 1, s.drop_first().len() as int) =~= s.subrange(
            lo,
            s.len() as int,
        ));
    }
}

proof fn lemma_trim_end_subrange(s: Seq<u8>, hi: int)
    requires
        0 <= hi <= s.len(),
        forall|j: int| hi <= j < s.len() ==> is_space(s[j]),
        hi == 0 || !is_space(s[hi - 1]),
    ensures
        spec_trim_end(s) == s.subrange(0, hi),
    decreases s.len() - hi,
{
    if hi == s.len() {
        assert(s.subrange(0, s.len() as int) =~= s);
    } else {
        assert(is_space(s[s.len() - 1]));
        lemma_trim_end_subrange(s.drop_last(), hi);
        assert(s.drop_last().subrange(0, hi) =~= s.subrange(0, hi));
    }
}

/// Copy of `s` with ASCII whitespace removed at both ends.
pub fn trim(s: &[u8]) -> (r: Vec<u8>)
    ensures
        r@ == spec_trim(s@),
{
    let mut lo: usize = 0;
    while lo < s.len() && is_space_byte(s[lo])
        invariant
            lo <= s@.len(),
            forall|j: int| 0 <= j < lo ==> is_space(s@[j]),
        decreases s@.len() - lo,
    {
        lo = lo + 1;
    }
    let mut hi: usize = s.len();
    while hi > lo && is_space_byte(s[hi - 1])
        invariant
            lo <= hi <= s@.len(),
            forall|j: int| 0 <= j < lo ==> is_space(s@[j]),
            forall|j: int| hi <= j < s@.len() ==> is_space(s@[j]),
        decreases hi,
    {
        hi = hi - 1;
    }
    proof {
        lemma_trim_start_subrange(s@, lo as int);
        let t = s@.subrange(lo as int, s@.len() as int);
        lemma_trim_end_subrange(t, hi - lo);
        assert(t.subrange(0, hi - lo) =~= s@.subrange(lo as int, hi as int));
    }
    subrange_vec(s, lo, hi)
}

/// One trailing carriage return removed, as a `\r\n` line ending leaves one.
pub open spec fn spec_strip_cr(s: Seq<u8>) -> Seq<u8> {
    if s.len() > 0 && s[s.len() - 1] == 13 {
        s.drop_last()
    } else {
        s
    }
}

/// The lines of `s`: split at each line feed, dropping one carriage return
/// just before it; a final line ending is optional and adds no empty line.
pub open spec fn spec_lines(s: Seq<u8>) -> Seq<Seq<u8>>
    decreases s.len(),
{
    if s.len() == 0 {
        Seq::empty()
    } else {
        match spec_find(s, 10) {
            Some(i) => {
                proof {
                    lemma_find_props(s, 10);
                }
                seq![spec_strip_cr(s.subrange(0, i))] + spec_lines(
                    s.subrange(i + 1, s.len() as int),
                )
            },
            None => seq![s],
        }
    }
}

fn lines_from(s: &[u8], start: usize) -> (r: Vec<Vec<u8>>)
    requires
        start <= s@.len(),
    ensures
        r@.len() == spec_lines(s@.subrange(start as int, s@.len() as int)).len(),
        forall|k: int|
            0 <= k < r@.len() ==> r@[k]@ == spec_lines(s@.subrange(start as int, s@.len() as int))[k],
    decreases s@.len() - start,
{
    let ghost t = s@.subrange(start as int, s@.len() as int);
    if start == s.len() {
        let r: Vec<Vec<u8>> = Vec::new();
        proof {
            assert(t.len() == 0);
        }
        return r;
    }
    let mut i: usize = start;
    while i < s.len() && s[i] != 10
        invariant
            start <= i <= s@.len(),
            forall|j: int| start <= j < i ==> s@[j] != 10,
        decreases s@.len() - i,
    {
        i = i + 1;
    }
    proof {
        lemma_find_props(t, 10);
        assert(forall|j: int| 0 <= j < t.len() ==> t[j] == s@[start + j]);
    }
    if i == s.len() {
        proof {
            assert(forall|j: int| 0 <= j < t.len() ==> t[j] != 10);
            assert(spec_find(t, 10) is None);
        }
        let line = subrange_vec(s, start, s.len());
        let mut r: Vec<Vec<u8>> = Vec::new();
        r.push(line);
        proof {
            assert(line@ =~= t);
            assert(spec_lines(t) == seq![t]);
        }
        r
    } else {
        proof {
            assert(t[i - start] == 10);
            assert(spec_find(t, 10) is Some);
            let k = spec_find(t, 10)->Some_0;
            assert(t[k] == 10);
            assert(k >= i - start) by {
                if k < i - start {
                    assert(s@[start + k] != 10);
                }
            }
            assert(k == i - start);
        }
        let line_end = if i > start && s[i - 1] == 13 {
            i - 1
        } else {
            i
        };
        let line = subrange_vec(s, start, line_end);
        let mut r = lines_from(s, i + 1);
        r.insert(0, line);
        proof {
            let k = (i - start) as int;
            assert(t.subrange(0, k) =~= s@.subrange(start as int, i as int));
            assert(line@ =~= spec_strip_cr(t.subrange(0, k))) by {
                if i > start && s@[i - 1] == 13 {
                    assert(t.subrange(0, k).drop_last() =~= s@.subrange(start as int, i - 1));
                }
            }
            assert(t.subrange(k + 1, t.len() as int) =~= s@.subrange(i + 1, s@.len() as int));
            assert(spec_lines(t) == seq![spec_strip_cr(t.subrange(0, k))] + spec_lines(
                t.subrange(k + 1, t.len() as int),
            ));
        }
        r
    }
}

/// The lines of `s`, as `str::lines` splits them.
pub fn lines(s: &[u8]) -> (r: Vec<Vec<u8>>)
    ensures
        r@.len() == spec_lines(s@).len(),
        forall|k: int| 0 <= k < r@.len() ==> r@[k]@ == spec_lines(s@)[k],
{
    proof {
        assert(s@.subrange(0, s@.len() as int) =~= s@);
    }
    lines_from(s, 0)
}

/// Index of the first ASCII whitespace byte in `s`, if any.
pub open spec fn spec_find_space(s: Seq<u8>) -> Option<int>
    decreases s.len(),
{
    if s.len() == 0 {
        None
    } else if is_space(s[0]) {
        Some(0int)
    } else {
        match spec_find_space(s.drop_first()) {
            Some(i) => Some(i + 1),
            None => None,
        }
    }
}

pub proof fn lemma_find_space_props(s: Seq<u8>)
    ensures
        match spec_find_space(s) {
            Some(i) => 0 <= i < s.len() && is_space(s[i]) && (forall|j: int|
                0 <= j < i ==> !is_space(s[j])),
            None => forall|j: int| 0 <= j < s.len() ==> !is_space(s[j]),
        },
    decreases s.len(),
{
    if s.len() > 0 && !is_space(s[0]) {
        let t = s.drop_first();
        lemma_find_space_props(t);
        assert(forall|j: int| 0 <= j < t.len() ==> t[j] == s[j + 1]);
        match spec_find_space(t) {
            Some(i) => {
                assert(s[i + 1] == t[i]);
                assert(forall|j: int| 1 <= j < i + 1 ==> s[j] == t[j - 1]);
            },
            None => {
                assert(forall|j: int| 1 <= j < s.len() ==> s[j] == t[j - 1]);
            },
        }
    }
}

/// The whitespace-separated tokens of `s`, in order.
pub open spec fn spec_tokens(s: Seq<u8>) -> Seq<Seq<u8>>
    decreases s.len(),
{
    if s.len() == 0 {
        Seq::empty()
    } else if is_space(s[0]) {
        spec_tokens(s.drop_first())
    } else {
        match spec_find_space(s) {
            Some(i) => {
                proof {
                    lemma_find_space_props(s);
                }
                seq![s.subrange(0, i)] + spec_tokens(s.subrange(i, s.len() as int))
            },
            None => seq![s],
        }
    }
}

proof fn lemma_tokens_skip_spaces(s: Seq<u8>, k: int)
    requires
        0 <= k <= s.len(),
        forall|j: int| 0 <= j < k ==> is_space(s[j]),
    ensures
        spec_tokens(s) == spec_tokens(s.subrange(k, s.len() as int)),
    decreases k,
{
    if k == 0 {
        assert(s.subrange(0, s.len() as int) =~= s);
    } else {
        assert(is_space(s[0]));
        let t = s.drop_first();
        assert(forall|j: int| 0 <= j < t.len() ==> t[j] == s[j + 1]);
        lemma_tokens_skip_spaces(t, k - 1);
        assert(t.subrange(k - 1, t.len() as int) =~= s.subrange(k, s.len() as int));
    }
}

fn tokens_from(s: &[u8], start: usize) -> (r: Vec<Vec<u8>>)
    requires
        start <= s@.len(),
    ensures
        r@.len() == spec_tokens(s@.subrange(start as int, s@.len() as int)).len(),
        forall|k: int|
            0 <= k < r@.len() ==> r@[k]@ == spec_tokens(
                s@.subrange(start as int, s@.len() as int),
            )[k],
    decreases s@.len() - start,
{
    let ghost t = s@.subrange(start as int, s@.len() as int);
    let mut i: usize = start;
    while i < s.len() && is_space_byte(s[i])
        invariant
            start <= i <= s@.len(),
            forall|j: int| start <= j < i ==> is_space(s@[j]),
        decreases s@.len() - i,
    {
        i = i + 1;
    }
    proof {
        assert(forall|j: int| 0 <= j < t.len() ==> t[j] == s@[start + j]);
        lemma_tokens_skip_spaces(t, i - start);
        assert(t.subrange(i - start, t.len() as int) =~= s@.subrange(i as int, s@.len() as int));
    }
    let ghost u = s@.subrange(i as int, s@.len() as int);
    if i == s.len() {
        let r: Vec<Vec<u8>> = Vec::new();
        return r;
    }
    let mut j: usize = i;
    while j < s.len() && !is_space_byte(s[j])
        invariant
            i <= j <= s@.len(),
            forall|m: int| i <= m < j ==> !is_space(s@[m]),
        decreases s@.len() - j,
    {
        j = j + 1;
    }
    proof {
        assert(forall|m: int| 0 <= m < u.len() ==> u[m] == s@[i + m]);
        lemma_find_space_props(u);
        assert(!is_space(u[0]));
    }
    let tok = subrange_vec(s, i, j);
    proof {
        if j == s.len() {
            assert(forall|m: int| 0 <= m < u.len() ==> !is_space(u[m]));
            assert(spec_find_space(u) is None);
            assert(spec_tokens(u) == seq![u]);
            assert(tok@ =~= u);
        } else {
            assert(is_space(u[j - i]));
            assert(spec_find_space(u) is Some);
            let k = spec_find_space(u)->Some_0;
            assert(k >= j - i) by {
                if k < j - i {
                    assert(!is_space(s@[i + k]));
                }
            }
            assert(k == j - i);
            assert(tok@ =~= u.subrange(0, k));
        }
    }
    if j == s.len() {
        let mut r: Vec<Vec<u8>> = Vec::new();
        r.push(tok);
        r
    } else {
        let mut r = tokens_from(s, j);
        r.insert(0, tok);
        proof {
            let k = (j - i) as int;
            assert(u.subrange(k, u.len() as int) =~= s@.subrange(j as int, s@.len() as int));
            assert(spec_tokens(u) == seq![u.subrange(0, k)] + spec_tokens(
                u.subrange(k, u.len() as int),
            ));
        }
        r
    }
}

/// The whitespace-separated tokens of `s`, as `str::split_whitespace`
/// yields them.
pub fn tokens(s: &[u8]) -> (r: Vec<Vec<u8>>)
    ensures
        r@.len() == spec_tokens(s@).len(),
        forall|k: int| 0 <= k < r@.len() ==> r@[k]@ == spec_tokens(s@)[k],
{
    proof {
        assert(s@.subrange(0, s@.len() as int) =~= s@);
    }
    tokens_from(s, 0)
}

/// The pattern `p` occurs in `s` at position `i`.
pub open spec fn spec_match_at(s: Seq<u8>, p: Seq<u8>, i: int) -> bool {
    0 <= i && i + p.len() <= s.len() && s.subrange(i, i + p.len() as int) == p
}

/// Position of the first occurrence of `p` in `s`, if any.
pub open spec fn spec_find_sub(s: Seq<u8>, p: Seq<u8>) -> Option<int>
    decreases s.len(),
{
    if spec_match_at(s, p, 0) {
        Some(0int)
    } else if s.len() == 0 {
        None
    } else {
        match spec_find_sub(s.drop_first(), p) {
            Some(i) => Some(i + 1),
            None => None,
        }
    }
}

pub proof fn lemma_find_sub_props(s: Seq<u8>, p: Seq<u8>)
    ensures
        match spec_find_sub(s, p) {
            Some(i) => spec_match_at(s, p, i) && (forall|j: int| 0 <= j < i ==> !spec_match_at(s, p, j)),
            None => forall|j: int| !spec_match_at(s, p, j),
        },
    decreases s.len(),
{
    if !spec_match_at(s, p, 0) && s.len() > 0 {
        let t = s.drop_first();
        lemma_find_sub_props(t, p);
        assert forall|j: int| 1 <= j && spec_match_at(s, p, j) implies spec_match_at(t, p, j - 1) by {
            assert(t.subrange(j - 1, j - 1 + p.len() as int) =~= s.subrange(j, j + p.len() as int));
        }
        assert forall|j: int| 0 <= j && spec_match_at(t, p, j) implies spec_match_at(s, p, j + 1) by {
            assert(s.subrange(j + 1, j + 1 + p.len() as int) =~= t.subrange(j, j + p.len() as int));
        }
    }
}

/// First position where the byte pattern `p` occurs in `s`.
pub fn find_sub(s: &[u8], p: &[u8]) -> (r: Option<usize>)
    ensures
        match r {
            Some(i) => spec_find_sub(s@, p@) == Some(i as int),
            None => spec_find_sub(s@, p@) is None,
        },
{
    proof {
        lemma_find_sub_props(s@, p@);
    }
    if p.len() > s.len() {
        return None;
    }
    let n = s.len();
    let mut i: usize = 0;
    while i <= n - p.len()
        invariant
            p@.len() <= s@.len(),
            n == s@.len(),
            i <= s@.len() - p@.len() + 1,
            forall|j: int| 0 <= j < i ==> !spec_match_at(s@, p@, j),
        decreases s@.len() - p@.len() - i + 1,
    {
        let mut k: usize = 0;
        let mut hit = true;
        while k < p.len()
            invariant
                i + p@.len() <= s@.len(),
                n == s@.len(),
                k <= p@.len(),
                hit == (forall|m: int| 0 <= m < k ==> s@[i + m] == p@[m]),
            decreases p@.len() - k,
        {
            if s[i + k] != p[k] {
                hit = false;
                k = p.len();
            } else {
                k = k + 1;
            }
        }
        if hit {
            proof {
                assert(s@.subrange(i as int, i + p@.len() as int) =~= p@);
                assert(spec_match_at(s@, p@, i as int));
                lemma_find_sub_props(s@, p@);
                match spec_find_sub(s@, p@) {
                    Some(w) => {
                        assert(w <= i && i <= w);
                    },
                    None => {
                        assert(false);
                    },
                }
            }
            return Some(i);
        }
        proof {
            assert(!(forall|m: int| 0 <= m < p@.len() ==> s@[i + m] == p@[m]));
            if spec_match_at(s@, p@, i as int) {
                let w = choose|m: int| 0 <= m < p@.len() && s@[i + m] != p@[m];
                assert(s@.subrange(i as int, i + p@.len() as int)[w] == s@[i + w]);
            }
        }
        i = i + 1;
    }
    proof {
        if spec_find_sub(s@, p@) is Some {
            let w = spec_find_sub(s@, p@)->Some_0;
            assert(!spec_match_at(s@, p@, w));
        }
    }
    None
}

/// A decimal digit.
pub open spec fn is_digit(b: u8) -> bool {
    48 <= b <= 57
}

/// Every byte of `s` is a decimal digit.
pub open spec fn all_digits(s: Seq<u8>) -> bool {
    forall|i: int| 0 <= i < s.len() ==> is_digit(s[i])
}

/// The number a digit string denotes, most significant digit first.
pub open spec fn dec_value(s: Seq<u8>) -> nat
    decreases s.len(),
{
    if s.len() == 0 {
        0
    } else {
        dec_value(s.drop_last()) * 10 + (s[s.len() - 1] - 48) as nat
    }
}

/// What `str::parse::<u64>` returns on a digit string: the denoted value,
/// or nothing when the string is empty, holds a non-digit, or overflows.
pub open spec fn spec_parse_u64(s: Seq<u8>) -> Option<u64> {
    if s.len() > 0 && all_digits(s) && dec_value(s) <= u64::MAX {
        Some(dec_value(s) as u64)
    } else {
        None
    }
}

proof fn lemma_dec_value_prefix_le(s: Seq<u8>, j: int)
    requires
        0 <= j <= s.len(),
    ensures
        dec_value(s.subrange(0, j)) <= dec_value(s),
    decreases s.len() - j,
{
    if j == s.len() {
        assert(s.subrange(0, j) =~= s);
    } else {
        lemma_dec_value_prefix_le(s.drop_last(), j);
        assert(s.drop_last().subrange(0, j) =~= s.subrange(0, j));
    }
}

/// Decimal parse of `s` into a `u64`.
pub fn parse_u64(s: &[u8]) -> (r: Option<u64>)
    ensures
        r == spec_parse_u64(s@),
{
    if s.len() == 0 {
        return None;
    }
    let mut acc: u64 = 0;
    let mut i: usize = 0;
    while i < s.len()
        invariant
            0 < s@.len(),
            i <= s@.len(),
            all_digits(s@.subrange(0, i as int)),
            acc as nat == dec_value(s@.subrange(0, i as int)),
        decreases s@.len() - i,
    {
        let b = s[i];
        if b < 48 || b > 57 {
            proof {
                assert(!is_digit(s@[i as int]));
            }
            return None;
        }
        let d = (b - 48) as u64;
        proof {
            assert(s@.subrange(0, i + 1).drop_last() =~= s@.subrange(0, i as int));
            assert(dec_value(s@.subrange(0, i + 1)) == acc as nat * 10 + d as nat);
        }
        if acc > (u64::MAX - d) / 10 {
            proof {
                assert(acc as nat * 10 + d as nat > u64::MAX) by (nonlinear_arith)
                    requires
                        acc > (u64::MAX - d) / 10,
                        d <= 9,
                ;
                lemma_dec_value_prefix_le(s@, i + 1);
            }
            return None;
        }
        proof {
            assert(acc as nat * 10 + d as nat <= u64::MAX) by (nonlinear_arith)
                requires
                    acc <= (u64::MAX - d) / 10,
                    d <= 9,
            ;
        }
        acc = acc * 10 + d;
        i = i + 1;
    }
    proof {
        assert(s@.subrange(0, s@.len() as int) =~= s@);
    }
    Some(acc)
}

/// The decimal digits of `v`, most significant first, no leading zero.
pub open spec fn spec_dec_digits(v: nat) -> Seq<u8>
    decreases v,
{
    if v < 10 {
        seq![(48 + v) as u8]
    } else {
        spec_dec_digits(v / 10).push((48 + v % 10) as u8)
    }
}

/// Decimal rendering of `v`.
pub fn u64_to_dec(v: u64) -> (r: Vec<u8>)
    ensures
        r@ == spec_dec_digits(v as nat),
    decreases v,
{
    if v < 10 {
        let mut r: Vec<u8> = Vec::new();
        r.push(48 + v as u8);
        r
    } else {
        let mut r = u64_to_dec(v / 10);
        r.push(48 + (v % 10) as u8);
        r
    }
}

/// `s` with every leading and trailing occurrence of the byte `q` removed.
pub open spec fn spec_trim_byte_start(s: Seq<u8>, q: u8) -> Seq<u8>
    decreases s.len(),
{
    if s.len() > 0 && s[0] == q {
        spec_trim_byte_start(s.drop_first(), q)
    } else {
        s
    }
}

pub open spec fn spec_trim_byte_end(s: Seq<u8>, q: u8) -> Seq<u8>
    decreases s.len(),
{
    if s.len() > 0 && s[s.len() - 1] == q {
        spec_trim_byte_end(s.drop_last(), q)
    } else {
        s
    }
}

pub open spec fn spec_trim_byte(s: Seq<u8>, q: u8) -> Seq<u8> {
    spec_trim_byte_end(spec_trim_byte_start(s, q), q)
}

proof fn lemma_trim_byte_start_subrange(s: Seq<u8>, q: u8, lo: int)
    requires
        0 <= lo <= s.len(),
        forall|j: int| 0 <= j < lo ==> s[j] == q,
        lo == s.len() || s[lo] != q,
    ensures
        spec_trim_byte_start(s, q) == s.subrange(lo, s.len() as int),
    decreases lo,
{
    if lo == 0 {
        assert(s.subrange(0, s.len() as int) =~= s);
    } else {
        lemma_trim_byte_start_subrange(s.drop_first(), q, lo - 1);
        assert(s.drop_first().subrange(lo - 1, s.drop_first().len() as int) =~= s.subrange(
            lo,
            s.len() as int,
        ));
    }
}

proof fn lemma_trim_byte_end_subrange(s: Seq<u8>, q: u8, hi: int)
    requires
        0 <= hi <= s.len(),
        forall|j: int| hi <= j < s.len() ==> s[j] == q,
        hi == 0 || s[hi - 1] != q,
    ensures
        spec_trim_byte_end(s, q) == s.subrange(0, hi),
    decreases s.len() - hi,
{
    if hi == s.len() {
        assert(s.subrange(0, s.len() as int) =~= s);
    } else {
        lemma_trim_byte_end_subrange(s.drop_last(), q, hi);
        assert(s.drop_last().subrange(0, hi) =~= s.subrange(0, hi));
    }
}

/// Copy of `s` with every leading and trailing `q` byte removed, as
/// `str::trim_matches` does for a single-character pattern.
pub fn trim_byte(s: &[u8], q: u8) -> (r: Vec<u8>)
    ensures
        r@ == spec_trim_byte(s@, q),
{
    let mut lo: usize = 0;
    while lo < s.len() && s[lo] == q
        invariant
            lo <= s@.len(),
            forall|j: int| 0 <= j < lo ==> s@[j] == q,
        decreases s@.len() - lo,
    {
        lo = lo + 1;
    }
    let mut hi: usize = s.len();
    while hi > lo && s[hi - 1] == q
        invariant
            lo <= hi <= s@.len(),
            forall|j: int| 0 <= j < lo ==> s@[j] == q,
            forall|j: int| hi <= j < s@.len() ==> s@[j] == q,
        decreases hi,
    {
        hi = hi - 1;
    }
    proof {
        lemma_trim_byte_start_subrange(s@, q, lo as int);
        let t = s@.subrange(lo as int, s@.len() as int);
        lemma_trim_byte_end_subrange(t, q, hi - lo);
        assert(t.subrange(0, hi - lo) =~= s@.subrange(lo as int, hi as int));
    }
    subrange_vec(s, lo, hi)
}

/// `s` with every repetition of the suffix `p` removed, as
/// `str::trim_end_matches` does.
pub open spec fn spec_strip_suffix_all(s: Seq<u8>, p: Seq<u8>) -> Seq<u8>
    decreases s.len(),
{
    if p.len() > 0 && spec_ends_with(s, p) {
        spec_strip_suffix_all(s.subrange(0, s.len() - p.len()), p)
    } else {
        s
    }
}

/// Copy of `s` with every repetition of the suffix `p` removed.
pub fn strip_suffix_all(s: &[u8], p: &[u8]) -> (r: Vec<u8>)
    ensures
        r@ == spec_strip_suffix_all(s@, p@),
{
    let mut cur = subrange_vec(s, 0, s.len());
    proof {
        assert(cur@ =~= s@);
    }
    if p.len() == 0 {
        return cur;
    }
    loop
        invariant
            p@.len() > 0,
            spec_strip_suffix_all(cur@, p@) == spec_strip_suffix_all(s@, p@),
        decreases cur@.len(),
    {
        match strip_suffix(cur.as_slice(), p) {
            Some(next) => {
                cur = next;
            },
            None => {
                return cur;
            },
        }
    }
}

/// Prefix of `s` up to (not including) the first occurrence of `a` or `b`;
/// all of `s` when neither occurs.  This is the first piece
/// `str::split([a, b])` yields.
pub open spec fn spec_prefix_until_either(s: Seq<u8>, a: u8, b: u8) -> Seq<u8>
    decreases s.len(),
{
    if s.len() == 0 {
        s
    } else if s[0] == a || s[0] == b {
        Seq::empty()
    } else {
        seq![s[0]] + spec_prefix_until_either(s.drop_first(), a, b)
    }
}

proof fn lemma_prefix_until_either_subrange(s: Seq<u8>, a: u8, b: u8, k: int)
    requires
        0 <= k <= s.len(),
        forall|j: int| 0 <= j < k ==> s[j] != a && s[j] != b,
        k == s.len() || s[k] == a || s[k] == b,
    ensures
        spec_prefix_until_either(s, a, b) == s.subrange(0, k),
    decreases k,
{
    if s.len() == 0 {
        assert(s.subrange(0, 0) =~= s);
    } else if k == 0 {
        assert(s.subrange(0, 0) =~= Seq::<u8>::empty());
    } else {
        let t = s.drop_first();
        assert(forall|j: int| 0 <= j < t.len() ==> t[j] == s[j + 1]);
        lemma_prefix_until_either_subrange(t, a, b, k - 1);
        assert(seq![s[0]] + t.subrange(0, k - 1) =~= s.subrange(0, k));
    }
}

/// Copy of the prefix of `s` before the first `a` or `b` byte.
pub fn prefix_until_either(s: &[u8], a: u8, b: u8) -> (r: Vec<u8>)
    ensures
        r@ == spec_prefix_until_either(s@, a, b),
{
    let mut k: usize = 0;
    while k < s.len() && s[k] != a && s[k] != b
        invariant
            k <= s@.len(),
            forall|j: int| 0 <= j < k ==> s@[j] != a && s@[j] != b,
        decreases s@.len() - k,
    {
        k = k + 1;
    }
    proof {
        lemma_prefix_until_either_subrange(s@, a, b, k as int);
    }
    subrange_vec(s, 0, k)
}

} // verus!
