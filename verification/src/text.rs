//! Verified text utilities for the tool-output parsers.
//!
//! The platform toolchains speak in loosely structured text: line-based
//! tables, whitespace-separated columns, comma-separated process listings.
//! Everything here works over `Seq<char>` views, so the parser contracts
//! in the rest of the crate can be stated exactly.

use vstd::prelude::*;
use vstd::string::*;

verus! {

/// Characters treated as whitespace when tool output is trimmed or tokenized.
pub open spec fn is_space_char(c: char) -> bool {
    c == ' ' || c == '\t' || c == '\r' || c == '\n'
}

/// Runtime test for [`is_space_char`].
pub fn is_space(c: char) -> (r: bool)
    ensures
        r == is_space_char(c),
{
    c == ' ' || c == '\t' || c == '\r' || c == '\n'
}

/// The view of each string in a sequence of strings.
pub open spec fn views(v: Seq<String>) -> Seq<Seq<char>> {
    v.map_values(|t: String| t@)
}

/// A separator for [`split_by`]: one fixed character, or any whitespace.
pub enum Separator {
    Exact(char),
    Whitespace,
}

/// Whether `c` separates fields under `sep`.
pub open spec fn is_sep_char(sep: Separator, c: char) -> bool {
    match sep {
        Separator::Exact(s) => c == s,
        Separator::Whitespace => is_space_char(c),
    }
}

/// Splitting `s` at every separator character, keeping empty fields.
/// An empty input yields one empty field, as `str::split` does.
pub open spec fn split_by_spec(s: Seq<char>, sep: Separator) -> Seq<Seq<char>>
    decreases s.len(),
{
    if s.len() == 0 {
        seq![Seq::<char>::empty()]
    } else if is_sep_char(sep, s[0]) {
        seq![Seq::<char>::empty()] + split_by_spec(s.skip(1), sep)
    } else {
        let rest = split_by_spec(s.skip(1), sep);
        seq![seq![s[0]] + rest[0]] + rest.skip(1)
    }
}

pub proof fn lemma_split_by_nonempty(s: Seq<char>, sep: Separator)
    ensures
        split_by_spec(s, sep).len() >= 1,
    decreases s.len(),
{
    if s.len() > 0 {
        lemma_split_by_nonempty(s.skip(1), sep);
    }
}

/// The first field of `s.skip(st)` is exactly `s[st..i]` when no separator
/// occurs in that range and `i` is the end of the input or a separator.
proof fn lemma_split_by_token(s: Seq<char>, sep: Separator, st: int, i: int)
    requires
        0 <= st <= i <= s.len(),
        forall|k: int| st <= k < i ==> !is_sep_char(sep, s[k]),
        i < s.len() ==> is_sep_char(sep, s[i]),
    ensures
        split_by_spec(s.skip(st), sep) == seq![s.subrange(st, i)] + (if i < s.len() {
            split_by_spec(s.skip(i + 1), sep)
        } else {
            Seq::<Seq<char>>::empty()
        }),
    decreases i - st,
{
    let tail = s.skip(st);
    if st == i {
        if i < s.len() {
            assert(tail[0] == s[st]);
            assert(tail.skip(1) =~= s.skip(i + 1));
            assert(s.subrange(st, i) =~= Seq::<char>::empty());
        } else {
            assert(tail.len() == 0);
            assert(s.subrange(st, i) =~= Seq::<char>::empty());
            assert(split_by_spec(tail, sep) =~= seq![s.subrange(st, i)] + Seq::<Seq<
                char,
            >>::empty());
        }
    } else {
        assert(tail[0] == s[st]);
        assert(!is_sep_char(sep, tail[0]));
        assert(tail.skip(1) =~= s.skip(st + 1));
        lemma_split_by_token(s, sep, st + 1, i);
        let rest = split_by_spec(s.skip(st + 1), sep);
        lemma_split_by_nonempty(s.skip(st + 1), sep);
        assert(rest[0] == s.subrange(st + 1, i));
        assert(seq![s[st]] + rest[0] =~= s.subrange(st, i));
        if i < s.len() {
            assert(rest.skip(1) =~= split_by_spec(s.skip(i + 1), sep));
        } else {
            assert(rest.skip(1) =~= Seq::<Seq<char>>::empty());
        }
        assert(split_by_spec(tail, sep) =~= seq![s.subrange(st, i)] + (if i < s.len() {
            split_by_spec(s.skip(i + 1), sep)
        } else {
            Seq::<Seq<char>>::empty()
        }));
    }
}

/// Splits `s` at every separator character, keeping empty fields.
pub fn split_by(s: &str, sep: Separator) -> (r: Vec<String>)
    ensures
        views(r@) == split_by_spec(s@, sep),
{
    let n = s.unicode_len();
    let mut out: Vec<String> = Vec::new();
    let mut st: usize = 0;
    let mut i: usize = 0;
    proof {
        assert(s@.skip(0) =~= s@);
    }
    while i < n
        invariant
            0 <= st <= i <= n == s@.len(),
            forall|k: int| st <= k < i ==> !is_sep_char(sep, s@[k]),
            views(out@) + split_by_spec(s@.skip(st as int), sep) == split_by_spec(s@, sep),
        decreases n - i,
    {
        let c = s.get_char(i);
        let hit = match sep {
            Separator::Exact(x) => c == x,
            Separator::Whitespace => is_space(c),
        };
        if hit {
            let tok = s.substring_char(st, i).to_owned();
            proof {
                lemma_split_by_token(s@, sep, st as int, i as int);
                assert(views(out@.push(tok)) =~= views(out@) + seq![s@.subrange(
                    st as int,
                    i as int,
                )]);
                assert(views(out@.push(tok)) + split_by_spec(s@.skip(i + 1), sep) =~= views(out@)
                    + split_by_spec(s@.skip(st as int), sep));
            }
            out.push(tok);
            st = i + 1;
        }
        i = i + 1;
    }
    let tok = s.substring_char(st, n).to_owned();
    proof {
        lemma_split_by_token(s@, sep, st as int, n as int);
        assert(views(out@.push(tok)) =~= views(out@) + seq![s@.subrange(st as int, n as int)]);
        assert(views(out@.push(tok)) =~= views(out@) + split_by_spec(s@.skip(st as int), sep));
    }
    out.push(tok);
    out
}

/// A line list with the empty fields removed.
pub open spec fn drop_empty_spec(ts: Seq<Seq<char>>) -> Seq<Seq<char>>
    decreases ts.len(),
{
    if ts.len() == 0 {
        Seq::empty()
    } else if ts[0].len() == 0 {
        drop_empty_spec(ts.skip(1))
    } else {
        seq![ts[0]] + drop_empty_spec(ts.skip(1))
    }
}

/// The whitespace-separated tokens of `s`, in order.
pub open spec fn tokens_spec(s: Seq<char>) -> Seq<Seq<char>> {
    drop_empty_spec(split_by_spec(s, Separator::Whitespace))
}

/// Splits `s` into its whitespace-separated tokens.
pub fn split_tokens(s: &str) -> (r: Vec<String>)
    ensures
        views(r@) == tokens_spec(s@),
{
    let parts = split_by(s, Separator::Whitespace);
    let mut out: Vec<String> = Vec::new();
    let pv = Ghost(views(parts@));
    let mut i: usize = 0;
    proof {
        assert(pv@.skip(0) =~= pv@);
    }
    while i < parts.len()
        invariant
            0 <= i <= parts.len(),
            pv@ == views(parts@),
            views(out@) + drop_empty_spec(pv@.skip(i as int)) == drop_empty_spec(pv@),
        decreases parts.len() - i,
    {
        proof {
            assert(pv@.skip(i as int)[0] == parts@[i as int]@);
            assert(pv@.skip(i as int).skip(1) =~= pv@.skip(i + 1));
        }
        if !parts[i].as_str().is_empty() {
            let tok = parts[i].clone();
            proof {
                assert(views(out@.push(tok)) =~= views(out@) + seq![pv@.skip(i as int)[0]]);
            }
            out.push(tok);
        }
        i = i + 1;
    }
    out
}

/// A line with one trailing carriage return removed.
pub open spec fn strip_cr_spec(l: Seq<char>) -> Seq<char> {
    if l.len() > 0 && l[l.len() - 1] == '\r' {
        l.take(l.len() - 1)
    } else {
        l
    }
}

/// Removes one trailing carriage return, if present.
pub fn strip_cr(l: &str) -> (r: String)
    ensures
        r@ == strip_cr_spec(l@),
{
    let n = l.unicode_len();
    if n > 0 && l.get_char(n - 1) == '\r' {
        proof {
            assert(l@.subrange(0, n - 1) =~= l@.take(n - 1));
        }
        l.substring_char(0, n - 1).to_owned()
    } else {
        l.to_owned()
    }
}

/// The lines of `s`: fields split at line feeds, each with one trailing
/// carriage return removed, and without a final empty field when the
/// input ends in a line feed.
pub open spec fn lines_spec(s: Seq<char>) -> Seq<Seq<char>> {
    let parts = split_by_spec(s, Separator::Exact('\n'));
    let main = parts.take(parts.len() - 1).map_values(|t: Seq<char>| strip_cr_spec(t));
    if parts.last().len() == 0 {
        main
    } else {
        main.push(parts.last())
    }
}

/// Splits `s` into lines.
pub fn split_lines(s: &str) -> (r: Vec<String>)
    ensures
        views(r@) == lines_spec(s@),
{
    let parts = split_by(s, Separator::Exact('\n'));
    let pv = Ghost(views(parts@));
    proof {
        lemma_split_by_nonempty(s@, Separator::Exact('\n'));
    }
    let last = parts.len() - 1;
    let mut out: Vec<String> = Vec::new();
    let mut i: usize = 0;
    while i < last
        invariant
            0 <= i <= last == parts.len() - 1,
            pv@ == views(parts@),
            views(out@) == pv@.take(i as int).map_values(|t: Seq<char>| strip_cr_spec(t)),
        decreases last - i,
    {
        let stripped = strip_cr(parts[i].as_str());
        proof {
            let lhs = views(out@.push(stripped));
            let rhs = pv@.take(i + 1).map_values(|t: Seq<char>| strip_cr_spec(t));
            assert(pv@.len() == parts@.len());
            assert(views(out@).len() == pv@.take(i as int).map_values(
                |t: Seq<char>| strip_cr_spec(t),
            ).len());
            assert(lhs.len() == rhs.len());
            assert forall|k: int| 0 <= k < lhs.len() implies lhs[k] == rhs[k] by {
                assert(rhs[k] == strip_cr_spec(pv@.take(i + 1)[k]));
                if k < i {
                    assert(lhs[k] == views(out@)[k]);
                    assert(views(out@)[k] == pv@.take(i as int).map_values(
                        |t: Seq<char>| strip_cr_spec(t),
                    )[k]);
                } else {
                    assert(lhs[k] == stripped@);
                    assert(pv@.take(i + 1)[k] == parts@[i as int]@);
                }
            }
            assert(lhs =~= rhs);
        }
        out.push(stripped);
        i = i + 1;
    }
    proof {
        assert(pv@.take(last as int) =~= pv@.take(pv@.len() - 1));
    }
    if !parts[last].as_str().is_empty() {
        let tail = parts[last].clone();
        proof {
            assert(pv@.last() == parts@[last as int]@);
            assert(views(out@.push(tail)) =~= views(out@).push(pv@.last()));
        }
        out.push(tail);
    }
    out
}

/// Whether `nd` occurs as a contiguous run inside `hay`.
pub open spec fn contains_seq(hay: Seq<char>, nd: Seq<char>) -> bool {
    exists|i: int|
        0 <= i && i + nd.len() <= hay.len() && #[trigger] hay.subrange(i, i + nd.len()) == nd
}

/// Whether the characters of `a` starting at `at` equal `b`.
fn matches_at(a: &str, at: usize, b: &str, bn: usize) -> (r: bool)
    requires
        bn == b@.len(),
        at + bn <= a@.len(),
        at + bn <= usize::MAX,
    ensures
        r == (a@.subrange(at as int, at + bn) == b@),
{
    let mut j: usize = 0;
    while j < bn
        invariant
            0 <= j <= bn == b@.len(),
            at + bn <= a@.len(),
            at + bn <= usize::MAX,
            forall|k: int| 0 <= k < j ==> a@[at + k] == b@[k],
        decreases bn - j,
    {
        if a.get_char(at + j) != b.get_char(j) {
            proof {
                assert(a@.subrange(at as int, at + bn)[j as int] != b@[j as int]);
            }
            return false;
        }
        j = j + 1;
    }
    proof {
        assert(a@.subrange(at as int, at + bn) =~= b@);
    }
    true
}

/// Substring search: whether `nd` occurs anywhere in `hay`.
pub fn str_contains(hay: &str, nd: &str) -> (r: bool)
    ensures
        r == contains_seq(hay@, nd@),
{
    let hn = hay.unicode_len();
    let nn = nd.unicode_len();
    if nn > hn {
        return false;
    }
    if nn == 0 {
        proof {
            assert(hay@.subrange(0, 0 + nd@.len() as int) =~= nd@);
            assert(contains_seq(hay@, nd@));
        }
        return true;
    }
    let mut i: usize = 0;
    while i <= hn - nn
        invariant
            nn <= hn == hay@.len(),
            1 <= nn == nd@.len(),
            0 <= i <= hn - nn + 1,
            forall|k: int| 0 <= k < i ==> #[trigger] hay@.subrange(k, k + nd@.len()) != nd@,
        decreases hn - i,
    {
        if matches_at(hay, i, nd, nn) {
            return true;
        }
        i = i + 1;
    }
    false
}

/// Whether `p` is a prefix of `s`.
pub open spec fn has_prefix(s: Seq<char>, p: Seq<char>) -> bool {
    p.len() <= s.len() && s.subrange(0, p.len() as int) == p
}

/// Runtime prefix test.
pub fn starts_with(s: &str, p: &str) -> (r: bool)
    ensures
        r == has_prefix(s@, p@),
{
    let pn = p.unicode_len();
    if pn > s.unicode_len() {
        return false;
    }
    matches_at(s, 0, p, pn)
}

/// The text after a known prefix.
pub fn after_prefix(s: &str, p: &str) -> (r: String)
    requires
        has_prefix(s@, p@),
    ensures
        r@ == s@.skip(p@.len() as int),
{
    let pn = p.unicode_len();
    let sn = s.unicode_len();
    proof {
        assert(s@.subrange(pn as int, sn as int) =~= s@.skip(pn as int));
    }
    s.substring_char(pn, sn).to_owned()
}

/// How many whitespace characters `s` begins with.
pub open spec fn count_leading_spaces(s: Seq<char>) -> int
    decreases s.len(),
{
    if s.len() == 0 || !is_space_char(s[0]) {
        0
    } else {
        1 + count_leading_spaces(s.skip(1))
    }
}

/// How many whitespace characters `s` ends with.
pub open spec fn count_trailing_spaces(s: Seq<char>) -> int
    decreases s.len(),
{
    if s.len() == 0 || !is_space_char(s[s.len() - 1]) {
        0
    } else {
        1 + count_trailing_spaces(s.take(s.len() - 1))
    }
}

/// `s` with leading and trailing whitespace removed.
pub open spec fn trim_spec(s: Seq<char>) -> Seq<char> {
    let a = count_leading_spaces(s);
    if a == s.len() {
        Seq::empty()
    } else {
        s.subrange(a, s.len() - count_trailing_spaces(s))
    }
}

proof fn lemma_count_leading(s: Seq<char>, i: int)
    requires
        0 <= i <= s.len(),
        forall|k: int| 0 <= k < i ==> is_space_char(s[k]),
        i < s.len() ==> !is_space_char(s[i]),
    ensures
        count_leading_spaces(s) == i,
    decreases i,
{
    if i == 0 {
    } else {
        assert(is_space_char(s[0]));
        assert forall|k: int| 0 <= k < i - 1 implies is_space_char(s.skip(1)[k]) by {
            assert(s.skip(1)[k] == s[k + 1]);
        }
        if i - 1 < s.skip(1).len() {
            assert(s.skip(1)[i - 1] == s[i]);
        }
        lemma_count_leading(s.skip(1), i - 1);
    }
}

proof fn lemma_count_trailing(s: Seq<char>, j: int)
    requires
        0 <= j <= s.len(),
        forall|k: int| j <= k < s.len() ==> is_space_char(s[k]),
        j > 0 ==> !is_space_char(s[j - 1]),
    ensures
        count_trailing_spaces(s) == s.len() - j,
    decreases s.len() - j,
{
    if j == s.len() {
    } else {
        assert(is_space_char(s[s.len() - 1]));
        lemma_count_trailing(s.take(s.len() - 1), j);
    }
}

/// Removes leading and trailing whitespace.
pub fn trim(s: &str) -> (r: String)
    ensures
        r@ == trim_spec(s@),
{
    let n = s.unicode_len();
    let mut a: usize = 0;
    while a < n && is_space(s.get_char(a))
        invariant
            0 <= a <= n == s@.len(),
            forall|k: int| 0 <= k < a ==> is_space_char(s@[k]),
        decreases n - a,
    {
        a = a + 1;
    }
    proof {
        lemma_count_leading(s@, a as int);
    }
    if a == n {
        proof {
            assert(trim_spec(s@) =~= Seq::<char>::empty());
            reveal_strlit("");
            assert(""@ =~= Seq::<char>::empty());
        }
        return "".to_owned();
    }
    let mut b: usize = n;
    while b > a && is_space(s.get_char(b - 1))
        invariant
            a <= b <= n == s@.len(),
            a < n,
            !is_space_char(s@[a as int]),
            forall|k: int| b <= k < n ==> is_space_char(s@[k]),
        decreases b,
    {
        b = b - 1;
    }
    proof {
        if b > a {
            lemma_count_trailing(s@, b as int);
        } else {
            assert(b == a);
            assert(!is_space_char(s@[b as int]));
            lemma_count_trailing(s@, b + 1);
            assert(false);
        }
    }
    s.substring_char(a, b).to_owned()
}

/// `s` with every non-overlapping occurrence of `pat` removed, found
/// left to right. An empty pattern removes nothing.
pub open spec fn remove_all_spec(s: Seq<char>, pat: Seq<char>) -> Seq<char>
    decreases s.len(),
{
    if pat.len() == 0 || s.len() < pat.len() {
        s
    } else if s.subrange(0, pat.len() as int) == pat {
        remove_all_spec(s.skip(pat.len() as int), pat)
    } else {
        seq![s[0]] + remove_all_spec(s.skip(1), pat)
    }
}

/// Removes every non-overlapping occurrence of `pat` from `s`.
pub fn remove_all(s: &str, pat: &str) -> (r: String)
    ensures
        r@ == remove_all_spec(s@, pat@),
{
    let n = s.unicode_len();
    let pn = pat.unicode_len();
    if pn == 0 {
        return s.to_owned();
    }
    if pn > n {
        return s.to_owned();
    }
    let mut out = String::new();
    let mut seg: usize = 0;
    let mut i: usize = 0;
    proof {
        assert(s@.skip(0) =~= s@);
        assert(out@ + s@.subrange(0, 0) + remove_all_spec(s@, pat@) =~= remove_all_spec(s@, pat@));
    }
    while i <= n - pn
        invariant
            0 < pn == pat@.len(),
            pn <= n,
            0 <= seg <= i <= n == s@.len(),
            out@ + s@.subrange(seg as int, i as int) + remove_all_spec(s@.skip(i as int), pat@)
                == remove_all_spec(s@, pat@),
        decreases n - i,
    {
        if matches_at(s, i, pat, pn) {
            let piece = s.substring_char(seg, i);
            proof {
                assert(s@.skip(i as int).subrange(0, pat@.len() as int) =~= s@.subrange(
                    i as int,
                    i + pn,
                ));
                assert(s@.skip(i as int).skip(pn as int) =~= s@.skip(i + pn));
                assert((out@ + piece@) + s@.subrange(i + pn, i + pn) =~= out@ + s@.subrange(
                    seg as int,
                    i as int,
                ));
            }
            out.append(piece);
            i = i + pn;
            seg = i;
        } else {
            proof {
                assert(s@.skip(i as int).subrange(0, pat@.len() as int) =~= s@.subrange(
                    i as int,
                    i + pn,
                ));
                assert(s@.skip(i as int)[0] == s@[i as int]);
                assert(s@.skip(i as int).skip(1) =~= s@.skip(i + 1));
                assert(out@ + s@.subrange(seg as int, i + 1) =~= out@ + s@.subrange(
                    seg as int,
                    i as int,
                ) + seq![s@[i as int]]);
            }
            i = i + 1;
        }
    }
    let tail = s.substring_char(seg, n);
    proof {
        assert(s@.skip(i as int).len() < pat@.len());
        assert(remove_all_spec(s@.skip(i as int), pat@) == s@.skip(i as int));
        assert(out@ + tail@ =~= out@ + s@.subrange(seg as int, i as int) + s@.skip(i as int));
    }
    out.append(tail);
    out
}

/// Whether some string in `v` has the same characters as `s`.
pub fn contains_string(v: &Vec<String>, s: &str) -> (r: bool)
    ensures
        r == views(v@).contains(s@),
{
    let mut i: usize = 0;
    while i < v.len()
        invariant
            0 <= i <= v@.len(),
            forall|k: int| 0 <= k < i ==> views(v@)[k] != s@,
        decreases v@.len() - i,
    {
        if str_eq(v[i].as_str(), s) {
            proof {
                assert(views(v@)[i as int] == s@);
            }
            return true;
        }
        i = i + 1;
    }
    proof {
        assert(forall|k: int| 0 <= k < views(v@).len() ==> views(v@)[k] != s@);
    }
    false
}

/// Runtime character-sequence equality of two string slices.
pub fn str_eq(a: &str, b: &str) -> (r: bool)
    ensures
        r == (a@ == b@),
{
    let an = a.unicode_len();
    let bn = b.unicode_len();
    if an != bn {
        return false;
    }
    let r = matches_at(a, 0, b, bn);
    proof {
        assert(a@.subrange(0, bn as int) =~= a@);
    }
    r
}

} // verus!
