//! Parsing of a control-plane discovery response: one line of text that
//! either contains `null` (no backends) or carries a comma-separated list of
//! quoted addresses after a leading wrapper field.

use vstd::prelude::*;
use crate::backend::{Backend, BackendModel};

verus! {

/// `pat` occurs in `s` starting at position `i`.
pub open spec fn occurs_at(s: Seq<char>, pat: Seq<char>, i: int) -> bool {
    0 <= i && i + pat.len() <= s.len() && s.subrange(i, i + pat.len()) == pat
}

/// First position at or after `from` where `c` stands in `s`; `s.len()` when
/// it stands nowhere at or after `from`.
pub open spec fn find_char(s: Seq<char>, c: char, from: int) -> int
    decreases s.len() - from when 0 <= from <= s.len()
{
    if from >= s.len() {
        s.len() as int
    } else if s[from] == c {
        from
    } else {
        find_char(s, c, from + 1)
    }
}

/// First position at or after `from` where `pat` occurs in `s`; `s.len()`
/// when it occurs nowhere at or after `from`.
pub open spec fn find_pat(s: Seq<char>, pat: Seq<char>, from: int) -> int
    decreases s.len() - from when 0 <= from <= s.len()
{
    if from + pat.len() > s.len() {
        s.len() as int
    } else if s.subrange(from, from + pat.len()) == pat {
        from
    } else {
        proof {
            if pat.len() == 0 {
                assert(s.subrange(from, from) =~= pat);
            }
        }
        find_pat(s, pat, from + 1)
    }
}

/// `find_char` stays within `[from, s.len()]`, lands on `c` when it lands
/// inside `s`, and skips no earlier occurrence.
pub proof fn lemma_find_char(s: Seq<char>, c: char, from: int)
    requires
        0 <= from <= s.len(),
    ensures
        from <= find_char(s, c, from) <= s.len(),
        find_char(s, c, from) < s.len() ==> s[find_char(s, c, from)] == c,
        forall|k: int| from <= k < find_char(s, c, from) ==> s[k] != c,
    decreases s.len() - from,
{
    if from >= s.len() {
    } else if s[from] == c {
    } else {
        lemma_find_char(s, c, from + 1);
    }
}

/// `find_pat` stays within `[from, s.len()]`, lands on an occurrence of `pat`
/// when it lands inside `s`, and skips no earlier occurrence.
pub proof fn lemma_find_pat(s: Seq<char>, pat: Seq<char>, from: int)
    requires
        0 <= from <= s.len(),
        pat.len() >= 1,
    ensures
        from <= find_pat(s, pat, from) <= s.len(),
        find_pat(s, pat, from) < s.len() ==> occurs_at(s, pat, find_pat(s, pat, from)),
        forall|k: int| from <= k < find_pat(s, pat, from) ==> !occurs_at(s, pat, k),
    decreases s.len() - from,
{
    if from + pat.len() > s.len() {
        assert forall|k: int| from <= k < s.len() implies !occurs_at(s, pat, k) by {
            assert(k + pat.len() >= from + pat.len());
        }
    } else if s.subrange(from, from + pat.len()) == pat {
    } else {
        lemma_find_pat(s, pat, from + 1);
    }
}

/// The four characters whose presence anywhere in the response means that no
/// backends are known.
pub open spec fn null_marker() -> Seq<char> {
    seq!['n', 'u', 'l', 'l']
}

/// The raw text contains the literal `null` somewhere.
pub open spec fn has_null(s: Seq<char>) -> bool {
    find_pat(s, null_marker(), 0) < s.len()
}

/// `has_null` is exactly substring occurrence: the text contains `null` at
/// some position iff `has_null` holds of it.
pub proof fn lemma_has_null_characterization(s: Seq<char>)
    ensures
        has_null(s) <==> (exists|i: int| occurs_at(s, null_marker(), i)),
{
    lemma_find_pat(s, null_marker(), 0);
    if find_pat(s, null_marker(), 0) < s.len() {
        assert(occurs_at(s, null_marker(), find_pat(s, null_marker(), 0)));
    } else {
        if exists|i: int| occurs_at(s, null_marker(), i) {
            let i = choose|i: int| occurs_at(s, null_marker(), i);
            assert(0 <= i < s.len());
            assert(!occurs_at(s, null_marker(), i));
        }
    }
}

/// The two characters that separate the wrapper prefix of the first address
/// token from the address list proper.
pub open spec fn ip_marker() -> Seq<char> {
    seq![':', '[']
}

/// The tokens of `s` between commas, from position `from` on: the text up to
/// the next comma, then the tokens of the rest. A text without commas is one
/// token, so the result is never empty.
pub open spec fn split_at_commas(s: Seq<char>, from: int) -> Seq<Seq<char>>
    decreases s.len() - from when 0 <= from <= s.len()
{
    let j = find_char(s, ',', from);
    if j >= s.len() {
        seq![s.subrange(from, s.len() as int)]
    } else {
        proof {
            lemma_find_char(s, ',', from);
        }
        seq![s.subrange(from, j)].add(split_at_commas(s, j + 1))
    }
}

/// The comma-separated tokens of the whole text.
pub open spec fn split_commas(s: Seq<char>) -> Seq<Seq<char>> {
    split_at_commas(s, 0)
}

/// The part of a token after its first `:[` marker, or the token unchanged
/// when it holds no such marker.
pub open spec fn after_ip_marker(t: Seq<char>) -> Seq<char> {
    let j = find_pat(t, ip_marker(), 0);
    if j >= t.len() {
        t
    } else {
        t.subrange(j + 2, t.len() as int)
    }
}

/// The part of a token between its first and second double quote, or the
/// token unchanged when no second quote exists.
pub open spec fn quoted_part(t: Seq<char>) -> Seq<char> {
    let q1 = find_char(t, '"', 0);
    if q1 >= t.len() {
        t
    } else {
        let q2 = find_char(t, '"', q1 + 1);
        if q2 >= t.len() {
            t
        } else {
            t.subrange(q1 + 1, q2)
        }
    }
}

/// The address list encoded by a discovery response: `None` when the text
/// contains `null`; otherwise the comma-separated tokens after the first,
/// with the new first token cut after its `:[` marker and every token reduced
/// to the part between its first two double quotes.
pub open spec fn addresses_of(s: Seq<char>) -> Option<Seq<Seq<char>>> {
    if has_null(s) {
        None
    } else {
        let toks = split_commas(s).drop_first();
        if toks.len() == 0 {
            Some(Seq::<Seq<char>>::empty())
        } else {
            let fixed = toks.update(0, after_ip_marker(toks[0]));
            Some(Seq::new(fixed.len(), |i: int| quoted_part(fixed[i])))
        }
    }
}

/// First position at or after `from` holding the character `c`.
pub(crate) fn find_char_at(s: &str, c: char, from: usize) -> (r: usize)
    requires
        from <= s@.len(),
    ensures
        r == find_char(s@, c, from as int),
{
    let n = s.unicode_len();
    let mut i = from;
    while i < n
        invariant
            from <= i <= n,
            n == s@.len(),
            find_char(s@, c, from as int) == find_char(s@, c, i as int),
        decreases n - i,
    {
        if s.get_char(i) == c {
            return i;
        }
        i = i + 1;
    }
    i
}

/// Whether `pat` occurs in `s` at position `i`.
fn matches_at(s: &str, pat: &str, i: usize) -> (r: bool)
    requires
        i <= s@.len(),
    ensures
        r == occurs_at(s@, pat@, i as int),
{
    let n = s.unicode_len();
    let m = pat.unicode_len();
    if m > n - i {
        return false;
    }
    let mut k: usize = 0;
    while k < m
        invariant
            0 <= k <= m,
            i + m <= n,
            n == s@.len(),
            m == pat@.len(),
            forall|l: int| 0 <= l < k ==> s@[i + l] == pat@[l],
        decreases m - k,
    {
        if s.get_char(i + k) != pat.get_char(k) {
            assert(s@.subrange(i as int, i + m) != pat@) by {
                assert(s@.subrange(i as int, i + m)[k as int] == s@[i + k]);
            }
            return false;
        }
        k = k + 1;
    }
    assert(s@.subrange(i as int, i + m) =~= pat@);
    true
}

/// First position at or after `from` where `pat` occurs.
fn find_pat_at(s: &str, pat: &str, from: usize) -> (r: usize)
    requires
        from <= s@.len(),
    ensures
        r == find_pat(s@, pat@, from as int),
{
    let n = s.unicode_len();
    let m = pat.unicode_len();
    let mut i = from;
    loop
        invariant
            from <= i <= n,
            n == s@.len(),
            m == pat@.len(),
            find_pat(s@, pat@, from as int) == find_pat(s@, pat@, i as int),
        decreases n - i,
    {
        if m > n - i {
            return n;
        }
        if matches_at(s, pat, i) {
            return i;
        }
        proof {
            if m == 0 {
                assert(s@.subrange(i as int, i as int) =~= pat@);
            }
        }
        i = i + 1;
    }
}

/// The comma-separated tokens of `s`, each as its own `String`.
fn split_commas_exec(s: &str) -> (r: Vec<String>)
    ensures
        r.deep_view() == split_commas(s@),
        r.len() >= 1,
{
    let n = s.unicode_len();
    let mut out: Vec<String> = Vec::new();
    let mut pos: usize = 0;
    loop
        invariant
            0 <= pos <= n,
            n == s@.len(),
            split_commas(s@) == out.deep_view().add(split_at_commas(s@, pos as int)),
        decreases n - pos,
    {
        let j = find_char_at(s, ',', pos);
        proof {
            lemma_find_char(s@, ',', pos as int);
        }
        let ghost prev = out.deep_view();
        if j == n {
            let tok = s.substring_char(pos, n).to_owned();
            out.push(tok);
            proof {
                assert(out.deep_view() =~= prev.push(s@.subrange(pos as int, n as int)));
                assert(split_at_commas(s@, pos as int) =~= seq![
                    s@.subrange(pos as int, n as int),
                ]);
                assert(out.deep_view() =~= prev.add(split_at_commas(s@, pos as int)));
            }
            return out;
        } else {
            let tok = s.substring_char(pos, j).to_owned();
            out.push(tok);
            proof {
                assert(out.deep_view() =~= prev.push(s@.subrange(pos as int, j as int)));
                assert(split_at_commas(s@, pos as int) == seq![
                    s@.subrange(pos as int, j as int),
                ].add(split_at_commas(s@, j + 1)));
                assert(out.deep_view().add(split_at_commas(s@, j + 1)) =~= prev.add(
                    split_at_commas(s@, pos as int),
                ));
            }
            pos = j + 1;
        }
    }
}

/// The token with everything up to and including its first `:[` marker cut
/// away, or the token unchanged when it holds no such marker.
fn strip_ip_marker(t: &str) -> (r: &str)
    ensures
        r@ == after_ip_marker(t@),
{
    let n = t.unicode_len();
    let j = find_pat_at(t, ":[", 0);
    proof {
        reveal_strlit(":[");
        assert(":["@ =~= ip_marker());
        lemma_find_pat(t@, ip_marker(), 0);
    }
    if j < n {
        t.substring_char(j + 2, n)
    } else {
        t
    }
}

/// The part of the token between its first two double quotes, or the token
/// unchanged when no second quote exists.
fn quoted_piece(t: &str) -> (r: &str)
    ensures
        r@ == quoted_part(t@),
{
    let n = t.unicode_len();
    let q1 = find_char_at(t, '"', 0);
    proof {
        lemma_find_char(t@, '"', 0);
    }
    if q1 == n {
        return t;
    }
    let q2 = find_char_at(t, '"', q1 + 1);
    proof {
        lemma_find_char(t@, '"', q1 + 1);
    }
    if q2 == n {
        return t;
    }
    t.substring_char(q1 + 1, q2)
}

/// Parses the text of a discovery response into a backend list: `None` when
/// the text contains `null` anywhere or encodes no address tokens at all,
/// never otherwise; each parsed address becomes one backend with all
/// counters zero.
pub fn parse_backends(text: &str) -> (r: Option<Vec<Backend>>)
    ensures
        (exists|i: int| occurs_at(text@, null_marker(), i)) ==> r is None,
        r is None <==> addresses_of(text@) is None,
        (match r {
            None => addresses_of(text@) is None,
            Some(v) => addresses_of(text@) matches Some(a) && v.len() == a.len()
                && (forall|k: int|
                0 <= k < a.len() ==> v@[k]@ == (BackendModel {
                    ip: a[k],
                    reqs: 0,
                    count: 0,
                    rtt: 0,
                    rtt_mean: 0,
                })),
        }),
{
    proof {
        lemma_has_null_characterization(text@);
    }
    let n = text.unicode_len();
    let nul = find_pat_at(text, "null", 0);
    proof {
        reveal_strlit("null");
        assert("null"@ =~= null_marker());
    }
    if nul < n {
        return None;
    }
    let toks = split_commas_exec(text);
    let mut out: Vec<Backend> = Vec::new();
    if toks.len() == 1 {
        return Some(out);
    }
    let ghost rest = split_commas(text@).drop_first();
    let ghost fixed = rest.update(0, after_ip_marker(rest[0]));
    let m = toks.len();
    let mut i: usize = 1;
    while i < m
        invariant
            1 <= i <= m,
            m == toks.len(),
            m >= 2,
            toks.deep_view() == split_commas(text@),
            rest == split_commas(text@).drop_first(),
            fixed == rest.update(0, after_ip_marker(rest[0])),
            out.len() == i - 1,
            forall|k: int|
                0 <= k < i - 1 ==> out@[k]@ == (BackendModel {
                    ip: quoted_part(fixed[k]),
                    reqs: 0,
                    count: 0,
                    rtt: 0,
                    rtt_mean: 0,
                }),
        decreases m - i,
    {
        let tok: &String = &toks[i];
        assert(tok@ == toks.deep_view()[i as int]);
        let piece: &str = if i == 1 {
            strip_ip_marker(tok.as_str())
        } else {
            tok.as_str()
        };
        assert(piece@ == fixed[i - 1]);
        let addr: &str = quoted_piece(piece);
        out.push(Backend::new(addr));
        i = i + 1;
    }
    Some(out)
}

} // verus!
