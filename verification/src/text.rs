//! Verified text utilities: character search, trimming, line splitting and
//! related helpers used by the network-service listing parser and by the
//! DNS output normalizer.

use vstd::prelude::*;

verus! {

/// The whitespace characters recognized by `trim`.
pub open spec fn is_ws(c: char) -> bool {
    c == ' ' || c == '\t' || c == '\r' || c == '\n'
}

/// Executable form of `is_ws`.
pub fn is_ws_char(c: char) -> (r: bool)
    ensures
        r == is_ws(c),
{
    c == ' ' || c == '\t' || c == '\r' || c == '\n'
}

/// True when `pat` occurs in `s` at position `i`.
pub open spec fn matches_at(s: Seq<char>, pat: Seq<char>, i: int) -> bool {
    0 <= i && i + pat.len() <= s.len() && s.subrange(i, i + pat.len() as int) == pat
}

/// Position of the first occurrence of `pat` in `s` at or after `i`.
pub open spec fn spec_find_at(s: Seq<char>, pat: Seq<char>, i: int) -> Option<int>
    decreases s.len() - i,
    when 0 <= i <= s.len()
{
    if pat.len() == 0 {
        Some(i)
    } else if i + pat.len() > s.len() {
        None
    } else if s.subrange(i, i + pat.len() as int) == pat {
        Some(i)
    } else {
        spec_find_at(s, pat, i + 1)
    }
}

/// Position of the first occurrence of `pat` in `s`, if any.
pub open spec fn spec_find(s: Seq<char>, pat: Seq<char>) -> Option<int> {
    spec_find_at(s, pat, 0)
}

/// `spec_find_at` returns the first match at or after `i`, or `None` when
/// there is no match at or after `i`.
pub proof fn lemma_find_at(s: Seq<char>, pat: Seq<char>, i: int)
    requires
        0 <= i <= s.len(),
    ensures
        match spec_find_at(s, pat, i) {
            Some(k) => i <= k && matches_at(s, pat, k) && (forall|j: int|
                i <= j < k ==> !matches_at(s, pat, j)),
            None => forall|j: int| j >= i ==> !matches_at(s, pat, j),
        },
    decreases s.len() - i,
{
    if pat.len() == 0 {
        assert(s.subrange(i, i + pat.len() as int) =~= pat);
    } else if i + pat.len() > s.len() {
        assert(forall|j: int| j >= i ==> !matches_at(s, pat, j));
    } else if s.subrange(i, i + pat.len() as int) == pat {
    } else {
        lemma_find_at(s, pat, i + 1);
    }
}

/// Finds the first occurrence of `pat` in `s`.
pub fn find_sub(s: &str, pat: &str) -> (r: Option<usize>)
    ensures
        match r {
            Some(i) => spec_find(s@, pat@) == Some(i as int),
            None => spec_find(s@, pat@) is None,
        },
{
    let slen = s.unicode_len();
    let plen = pat.unicode_len();
    if plen == 0 {
        return Some(0);
    }
    if plen > slen {
        proof {
            lemma_find_at(s@, pat@, 0);
        }
        return None;
    }
    let mut i: usize = 0;
    while i <= slen - plen
        invariant
            slen == s@.len(),
            plen == pat@.len(),
            1 <= plen <= slen,
            i <= slen - plen + 1,
            forall|j: int| 0 <= j < i ==> !matches_at(s@, pat@, j),
        decreases slen - plen + 1 - i,
    {
        let piece = s.substring_char(i, i + plen);
        let ok = eq_str(piece, pat);
        if ok {
            assert(matches_at(s@, pat@, i as int));
            proof {
                lemma_find_at(s@, pat@, 0);
                if spec_find(s@, pat@) is None {
                    assert(!matches_at(s@, pat@, i as int));
                } else {
                    let k = spec_find(s@, pat@)->Some_0;
                    if k < i {
                        assert(!matches_at(s@, pat@, k));
                    } else if k > i {
                        assert(!matches_at(s@, pat@, i as int));
                    }
                }
            }
            return Some(i);
        }
        assert(!matches_at(s@, pat@, i as int));
        i = i + 1;
    }
    proof {
        lemma_find_at(s@, pat@, 0);
        if spec_find(s@, pat@) is Some {
            let k = spec_find(s@, pat@)->Some_0;
            assert(!matches_at(s@, pat@, k));
        }
    }
    None
}

/// Index of the first non-whitespace character at or after `i`.
pub open spec fn trim_start_idx(s: Seq<char>, i: int) -> int
    decreases s.len() - i,
    when 0 <= i <= s.len()
{
    if i < s.len() && is_ws(s[i]) {
        trim_start_idx(s, i + 1)
    } else {
        i
    }
}

/// One past the last non-whitespace character at or before `j - 1`.
pub open spec fn trim_end_idx(s: Seq<char>, j: int) -> int
    decreases j,
    when 0 <= j <= s.len()
{
    if j > 0 && is_ws(s[j - 1]) {
        trim_end_idx(s, j - 1)
    } else {
        j
    }
}

/// `s` with leading and trailing whitespace removed.
pub open spec fn spec_trim(s: Seq<char>) -> Seq<char> {
    let a = trim_start_idx(s, 0);
    let b = trim_end_idx(s, s.len() as int);
    if a < b {
        s.subrange(a, b)
    } else {
        Seq::empty()
    }
}

pub proof fn lemma_trim_start_idx(s: Seq<char>, i: int)
    requires
        0 <= i <= s.len(),
    ensures
        i <= trim_start_idx(s, i) <= s.len(),
    decreases s.len() - i,
{
    if i < s.len() && is_ws(s[i]) {
        lemma_trim_start_idx(s, i + 1);
    }
}

pub proof fn lemma_trim_end_idx(s: Seq<char>, j: int)
    requires
        0 <= j <= s.len(),
    ensures
        0 <= trim_end_idx(s, j) <= j,
    decreases j,
{
    if j > 0 && is_ws(s[j - 1]) {
        lemma_trim_end_idx(s, j - 1);
    }
}

/// Removes leading and trailing whitespace.
pub fn trim_str(s: &str) -> (r: String)
    ensures
        r@ == spec_trim(s@),
{
    let len = s.unicode_len();
    proof {
        lemma_trim_start_idx(s@, 0);
        lemma_trim_end_idx(s@, s@.len() as int);
    }
    let mut a: usize = 0;
    while a < len && is_ws_char(s.get_char(a))
        invariant
            len == s@.len(),
            0 <= a <= len,
            trim_start_idx(s@, 0) == trim_start_idx(s@, a as int),
        decreases len - a,
    {
        a = a + 1;
    }
    assert(trim_start_idx(s@, 0) == a as int);
    if a == len {
        let r = String::new();
        assert(r@ =~= spec_trim(s@));
        return r;
    }
    let mut b: usize = len;
    while b > a && is_ws_char(s.get_char(b - 1))
        invariant
            len == s@.len(),
            a < len,
            !is_ws(s@[a as int]),
            a < b <= len,
            trim_end_idx(s@, len as int) == trim_end_idx(s@, b as int),
        decreases b,
    {
        assert(b - 1 != a) by {
            if b - 1 == a {
                assert(is_ws(s@[a as int]));
            }
        }
        b = b - 1;
    }
    assert(trim_end_idx(s@, len as int) == b as int);
    let piece = s.substring_char(a, b);
    let r = piece.to_owned();
    assert(r@ == spec_trim(s@));
    r
}

/// True when `p` is a prefix of `s`.
pub open spec fn spec_starts_with(s: Seq<char>, p: Seq<char>) -> bool {
    s.len() >= p.len() && s.subrange(0, p.len() as int) == p
}

/// Prefix test on string slices.
pub fn starts_with(s: &str, p: &str) -> (r: bool)
    ensures
        r == spec_starts_with(s@, p@),
{
    let slen = s.unicode_len();
    let plen = p.unicode_len();
    if plen > slen {
        return false;
    }
    let mut j: usize = 0;
    while j < plen
        invariant
            slen == s@.len(),
            plen == p@.len(),
            plen <= slen,
            j <= plen,
            forall|k: int| 0 <= k < j ==> s@[k] == p@[k],
        decreases plen - j,
    {
        if s.get_char(j) != p.get_char(j) {
            assert(s@.subrange(0, p@.len() as int)[j as int] != p@[j as int]);
            return false;
        }
        j = j + 1;
    }
    assert(s@.subrange(0, p@.len() as int) =~= p@);
    true
}

/// Equality of two string slices.
pub fn eq_str(a: &str, b: &str) -> (r: bool)
    ensures
        r == (a@ == b@),
{
    let alen = a.unicode_len();
    let blen = b.unicode_len();
    if alen != blen {
        assert(a@ != b@);
        return false;
    }
    let mut i: usize = 0;
    while i < alen
        invariant
            alen == a@.len(),
            blen == b@.len(),
            alen == blen,
            i <= alen,
            forall|j: int| 0 <= j < i ==> a@[j] == b@[j],
        decreases alen - i,
    {
        if a.get_char(i) != b.get_char(i) {
            assert(a@ != b@);
            return false;
        }
        i = i + 1;
    }
    assert(a@ =~= b@);
    true
}

/// `s` with every newline replaced by a space.
pub open spec fn spec_replace_newlines(s: Seq<char>) -> Seq<char> {
    Seq::new(s.len(), |k: int| if s[k] == '\n' { ' ' } else { s[k] })
}

/// Replaces every newline in `s` by a space.
pub fn replace_newlines(s: &str) -> (r: String)
    ensures
        r@ == spec_replace_newlines(s@),
{
    let len = s.unicode_len();
    let mut r = String::new();
    let mut i: usize = 0;
    while i < len
        invariant
            len == s@.len(),
            i <= len,
            r@ =~= spec_replace_newlines(s@).take(i as int),
        decreases len - i,
    {
        let c = s.get_char(i);
        if c == '\n' {
            r.append(" ");
            proof {
                reveal_strlit(" ");
            }
        } else {
            let piece = s.substring_char(i, i + 1);
            r.append(piece);
        }
        assert(r@ =~= spec_replace_newlines(s@).take(i + 1));
        i = i + 1;
    }
    assert(r@ =~= spec_replace_newlines(s@));
    r
}

/// The lines of `s`, in the sense of splitting at every newline: splitting
/// the empty sequence gives one empty line, and every newline ends the line
/// before it.
pub open spec fn spec_split_lines(s: Seq<char>) -> Seq<Seq<char>>
    decreases s.len(),
{
    if s.len() == 0 {
        seq![Seq::<char>::empty()]
    } else if s[0] == '\n' {
        seq![Seq::<char>::empty()] + spec_split_lines(s.skip(1))
    } else {
        let rest = spec_split_lines(s.skip(1));
        seq![seq![s[0]] + rest[0]] + rest.skip(1)
    }
}

pub proof fn lemma_split_lines_len(s: Seq<char>)
    ensures
        spec_split_lines(s).len() >= 1,
    decreases s.len(),
{
    if s.len() != 0 {
        lemma_split_lines_len(s.skip(1));
    }
}

/// Splits `s` at every newline.  The result always holds at least one
/// element; the newlines themselves are not kept.
pub fn split_lines(s: &str) -> (r: Vec<String>)
    ensures
        r.deep_view() == spec_split_lines(s@),
{
    let len = s.unicode_len();
    let mut out: Vec<String> = Vec::new();
    let mut cur = String::new();
    let mut i: usize = 0;
    proof {
        assert(s@.skip(0) =~= s@);
        lemma_split_lines_len(s@);
        assert(out.deep_view() =~= Seq::<Seq<char>>::empty());
        assert(cur@ + spec_split_lines(s@)[0] =~= spec_split_lines(s@)[0]);
        assert(out.deep_view() + seq![cur@ + spec_split_lines(s@.skip(0))[0]]
            + spec_split_lines(s@.skip(0)).skip(1) =~= spec_split_lines(s@));
    }
    while i < len
        invariant
            len == s@.len(),
            i <= len,
            spec_split_lines(s@.skip(i as int)).len() >= 1,
            out.deep_view() + seq![cur@ + spec_split_lines(s@.skip(i as int))[0]]
                + spec_split_lines(s@.skip(i as int)).skip(1) =~= spec_split_lines(s@),
        decreases len - i,
    {
        let c = s.get_char(i);
        proof {
            assert(s@.skip(i as int).len() > 0);
            assert(s@.skip(i as int)[0] == s@[i as int]);
            assert(s@.skip(i as int).skip(1) =~= s@.skip(i + 1));
            lemma_split_lines_len(s@.skip(i + 1));
        }
        let ghost prev = spec_split_lines(s@.skip(i as int));
        let ghost next = spec_split_lines(s@.skip(i + 1));
        if c == '\n' {
            assert(prev =~= seq![Seq::<char>::empty()] + next);
            let ghost old_out = out.deep_view();
            let ghost old_cur = cur@;
            out.push(cur);
            proof {
                assert(out.deep_view() =~= old_out.push(old_cur));
            }
            cur = String::new();
            proof {
                assert(prev[0] =~= Seq::<char>::empty());
                assert(prev.skip(1) =~= next);
                assert(out.deep_view() + seq![cur@ + next[0]] + next.skip(1)
                    =~= old_out + seq![old_cur + prev[0]] + prev.skip(1));
            }
        } else {
            assert(prev =~= seq![seq![s@[i as int]] + next[0]] + next.skip(1));
            let piece = s.substring_char(i, i + 1);
            let ghost old_cur = cur@;
            cur.append(piece);
            proof {
                assert(cur@ =~= old_cur + seq![s@[i as int]]);
                assert(cur@ + next[0] =~= old_cur + prev[0]);
                assert(prev.skip(1) =~= next.skip(1));
                assert(out.deep_view() + seq![cur@ + next[0]] + next.skip(1)
                    =~= out.deep_view() + seq![old_cur + prev[0]] + prev.skip(1));
            }
        }
        i = i + 1;
    }
    proof {
        assert(s@.skip(len as int) =~= Seq::<char>::empty());
        assert(spec_split_lines(s@.skip(len as int)) =~= seq![Seq::<char>::empty()]);
    }
    let ghost old_out = out.deep_view();
    let ghost last = cur@;
    out.push(cur);
    proof {
        assert(out.deep_view() =~= old_out.push(last));
        assert(last + Seq::<char>::empty() =~= last);
        assert(old_out + seq![last] + Seq::<Seq<char>>::empty() =~= old_out.push(last));
        assert(out.deep_view() =~= spec_split_lines(s@));
    }
    out
}

} // verus!
