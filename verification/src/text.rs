//! Character-level text operations the parser is built from: whitespace,
//! searching, trimming, prefix tests, line splitting and joining.

use vstd::prelude::*;

verus! {

/// The characters with the Unicode `White_Space` property: the set that
/// trimming removes.
pub open spec fn spec_is_whitespace(c: char) -> bool {
    let u = c as u32;
    u == 0x20 || (0x09 <= u && u <= 0x0D) || u == 0x85 || u == 0xA0 || u == 0x1680 || (0x2000
        <= u && u <= 0x200A) || u == 0x2028 || u == 0x2029 || u == 0x202F || u == 0x205F || u
        == 0x3000
}

pub fn is_whitespace(c: char) -> (r: bool)
    ensures
        r == spec_is_whitespace(c),
{
    let u = c as u32;
    u == 0x20 || (0x09 <= u && u <= 0x0D) || u == 0x85 || u == 0xA0 || u == 0x1680 || (0x2000
        <= u && u <= 0x200A) || u == 0x2028 || u == 0x2029 || u == 0x202F || u == 0x205F || u
        == 0x3000
}

/// Index of the first occurrence of `c` in `s`; `s.len()` when `c` is absent.
pub open spec fn first_at(s: Seq<char>, c: char) -> int
    decreases s.len(),
{
    if s.len() == 0 {
        0
    } else if s[0] == c {
        0
    } else {
        1 + first_at(s.drop_first(), c)
    }
}

/// Index of the last occurrence of `c` in `s`; `-1` when `c` is absent.
pub open spec fn last_at(s: Seq<char>, c: char) -> int
    decreases s.len(),
{
    if s.len() == 0 {
        -1
    } else if s[s.len() - 1] == c {
        s.len() - 1
    } else {
        last_at(s.drop_last(), c)
    }
}

pub proof fn lemma_first_at(s: Seq<char>, c: char)
    ensures
        0 <= first_at(s, c) <= s.len(),
        first_at(s, c) < s.len() ==> s[first_at(s, c)] == c,
        forall|j: int| 0 <= j < first_at(s, c) ==> s[j] != c,
    decreases s.len(),
{
    if s.len() == 0 {
    } else if s[0] == c {
    } else {
        lemma_first_at(s.drop_first(), c);
        assert forall|j: int| 0 <= j < first_at(s, c) implies s[j] != c by {
            if j > 0 {
                assert(s.drop_first()[j - 1] == s[j]);
            }
        }
    }
}

/// `first_at` is the one index that has no occurrence before it and an
/// occurrence (or the end) at it.
pub proof fn lemma_first_at_is(s: Seq<char>, c: char, i: int)
    requires
        0 <= i <= s.len(),
        forall|j: int| 0 <= j < i ==> s[j] != c,
        i < s.len() ==> s[i] == c,
    ensures
        first_at(s, c) == i,
{
    lemma_first_at(s, c);
    let f = first_at(s, c);
    if f < i {
        assert(s[f] == c);
        assert(false);
    }
    if i < f {
        assert(s[i] != c);
        assert(false);
    }
}

pub proof fn lemma_last_at(s: Seq<char>, c: char)
    ensures
        -1 <= last_at(s, c) < s.len(),
        last_at(s, c) >= 0 ==> s[last_at(s, c)] == c,
        forall|j: int| last_at(s, c) < j < s.len() ==> s[j] != c,
    decreases s.len(),
{
    if s.len() == 0 {
    } else if s[s.len() - 1] == c {
    } else {
        lemma_last_at(s.drop_last(), c);
        assert forall|j: int| last_at(s, c) < j < s.len() implies s[j] != c by {
            if j < s.len() - 1 {
                assert(s.drop_last()[j] == s[j]);
            }
        }
    }
}

/// `last_at` is the one index that has no occurrence after it and an
/// occurrence (or none at all) at it.
pub proof fn lemma_last_at_is(s: Seq<char>, c: char, i: int)
    requires
        -1 <= i < s.len(),
        forall|j: int| i < j < s.len() ==> s[j] != c,
        i >= 0 ==> s[i] == c,
    ensures
        last_at(s, c) == i,
{
    lemma_last_at(s, c);
    let l = last_at(s, c);
    if l > i {
        assert(s[l] == c);
        assert(false);
    }
    if i > l {
        assert(s[i] != c);
        assert(false);
    }
}

/// `s` without its leading whitespace.
pub open spec fn spec_trim_start(s: Seq<char>) -> Seq<char>
    decreases s.len(),
{
    if s.len() > 0 && spec_is_whitespace(s[0]) {
        spec_trim_start(s.drop_first())
    } else {
        s
    }
}

/// `s` without its trailing whitespace.
pub open spec fn spec_trim_end(s: Seq<char>) -> Seq<char>
    decreases s.len(),
{
    if s.len() > 0 && spec_is_whitespace(s[s.len() - 1]) {
        spec_trim_end(s.drop_last())
    } else {
        s
    }
}

/// `s` without leading and trailing whitespace.
pub open spec fn spec_trim(s: Seq<char>) -> Seq<char> {
    spec_trim_end(spec_trim_start(s))
}

pub proof fn lemma_trim_start_skip(s: Seq<char>, lo: int)
    requires
        0 <= lo <= s.len(),
        forall|j: int| 0 <= j < lo ==> spec_is_whitespace(s[j]),
        lo < s.len() ==> !spec_is_whitespace(s[lo]),
    ensures
        spec_trim_start(s) == s.skip(lo),
    decreases lo,
{
    if lo == 0 {
        assert(s.skip(0) =~= s);
    } else {
        assert(spec_is_whitespace(s[0]));
        lemma_trim_start_skip(s.drop_first(), lo - 1);
        assert(s.drop_first().skip(lo - 1) =~= s.skip(lo));
    }
}

pub proof fn lemma_trim_end_take(s: Seq<char>, hi: int)
    requires
        0 <= hi <= s.len(),
        forall|j: int| hi <= j < s.len() ==> spec_is_whitespace(s[j]),
        hi > 0 ==> !spec_is_whitespace(s[hi - 1]),
    ensures
        spec_trim_end(s) == s.take(hi),
    decreases s.len(),
{
    if hi == s.len() {
        assert(s.take(hi) =~= s);
    } else {
        assert(spec_is_whitespace(s[s.len() - 1]));
        lemma_trim_end_take(s.drop_last(), hi);
        assert(s.drop_last().take(hi) =~= s.take(hi));
    }
}

/// A copy of `s` with leading and trailing whitespace removed.
pub fn trim(s: &str) -> (r: String)
    ensures
        r@ == spec_trim(s@),
{
    let n = s.unicode_len();
    let mut lo: usize = 0;
    while lo < n && is_whitespace(s.get_char(lo))
        invariant
            lo <= n,
            n == s@.len(),
            forall|j: int| 0 <= j < lo ==> spec_is_whitespace(s@[j]),
        decreases n - lo,
    {
        lo += 1;
    }
    let mut hi: usize = n;
    while hi > lo && is_whitespace(s.get_char(hi - 1))
        invariant
            lo <= hi <= n,
            n == s@.len(),
            forall|j: int| hi <= j < n ==> spec_is_whitespace(s@[j]),
        decreases hi,
    {
        hi -= 1;
    }
    let part = s.substring_char(lo, hi);
    proof {
        lemma_trim_start_skip(s@, lo as int);
        let t = s@.skip(lo as int);
        lemma_trim_end_take(t, hi - lo);
        assert(t.take(hi - lo) =~= s@.subrange(lo as int, hi as int));
    }
    String::from_str(part)
}

/// Whether the views of two strings are the same character sequence.
pub fn str_eq(a: &str, b: &str) -> (r: bool)
    ensures
        r == (a@ == b@),
{
    let n = a.unicode_len();
    if n != b.unicode_len() {
        return false;
    }
    let mut i: usize = 0;
    while i < n
        invariant
            i <= n,
            n == a@.len(),
            n == b@.len(),
            forall|j: int| 0 <= j < i ==> a@[j] == b@[j],
        decreases n - i,
    {
        if a.get_char(i) != b.get_char(i) {
            return false;
        }
        i += 1;
    }
    proof {
        assert(a@ =~= b@);
    }
    true
}

/// Whether `p` is a prefix of `s`.
pub open spec fn spec_has_prefix(s: Seq<char>, p: Seq<char>) -> bool {
    p.len() <= s.len() && s.take(p.len() as int) == p
}

pub fn has_prefix(s: &str, p: &str) -> (r: bool)
    ensures
        r == spec_has_prefix(s@, p@),
{
    let m = p.unicode_len();
    if m > s.unicode_len() {
        return false;
    }
    let mut i: usize = 0;
    while i < m
        invariant
            i <= m,
            m == p@.len(),
            m <= s@.len(),
            forall|j: int| 0 <= j < i ==> s@[j] == p@[j],
        decreases m - i,
    {
        if s.get_char(i) != p.get_char(i) {
            proof {
                assert(s@.take(m as int)[i as int] != p@[i as int]);
            }
            return false;
        }
        i += 1;
    }
    proof {
        assert(s@.take(m as int) =~= p@);
    }
    true
}

/// The rest of `s` after a prefix `p` it is known to carry.
pub fn strip_prefix(s: &str, p: &str) -> (r: String)
    requires
        spec_has_prefix(s@, p@),
    ensures
        r@ == s@.skip(p@.len() as int),
{
    let part = s.substring_char(p.unicode_len(), s.unicode_len());
    String::from_str(part)
}

/// A line's content with one carriage return stripped from its end, as line
/// splitting does before a line feed.
pub open spec fn spec_strip_cr(s: Seq<char>) -> Seq<char> {
    if s.len() > 0 && s[s.len() - 1] == '\r' {
        s.drop_last()
    } else {
        s
    }
}

/// The lines of `s`: segments separated by `'\n'`, a `'\r'` directly before
/// the separator stripped, and an optional final unterminated segment.
pub open spec fn spec_lines(s: Seq<char>) -> Seq<Seq<char>>
    decreases s.len(),
{
    if s.len() == 0 {
        Seq::empty()
    } else {
        let i = first_at(s, '\n');
        if 0 <= i < s.len() {
            seq![spec_strip_cr(s.take(i))] + spec_lines(s.skip(i + 1))
        } else {
            seq![s]
        }
    }
}

/// Splits a string into its lines.
pub fn lines_of(s: &str) -> (r: Vec<String>)
    ensures
        r.deep_view() == spec_lines(s@),
{
    let n = s.unicode_len();
    let mut r: Vec<String> = Vec::new();
    let mut start: usize = 0;
    let mut i: usize = 0;
    proof {
        assert(s@.skip(0) =~= s@);
        assert(r.deep_view() =~= Seq::<Seq<char>>::empty());
        assert(r.deep_view() + spec_lines(s@) =~= spec_lines(s@));
    }
    while i < n
        invariant
            start <= i <= n,
            n == s@.len(),
            forall|j: int| start <= j < i ==> s@[j] != '\n',
            spec_lines(s@) == r.deep_view() + spec_lines(s@.skip(start as int)),
        decreases n - i,
    {
        if s.get_char(i) == '\n' {
            let end = if i > start && s.get_char(i - 1) == '\r' {
                i - 1
            } else {
                i
            };
            let line = s.substring_char(start, end);
            let ghost old_dv = r.deep_view();
            r.push(String::from_str(line));
            proof {
                let t = s@.skip(start as int);
                lemma_first_at_is(t, '\n', i - start);
                assert(t.take(i - start) =~= s@.subrange(start as int, i as int));
                assert(spec_strip_cr(t.take(i - start)) =~= s@.subrange(
                    start as int,
                    end as int,
                ));
                assert(t.skip(i - start + 1) =~= s@.skip(i + 1));
                assert(r.deep_view() =~= old_dv.push(line@));
                assert(r.deep_view() + spec_lines(s@.skip(i + 1)) =~= old_dv + spec_lines(t));
            }
            start = i + 1;
        }
        i += 1;
    }
    if start < n {
        let line = s.substring_char(start, n);
        let ghost old_dv = r.deep_view();
        r.push(String::from_str(line));
        proof {
            let t = s@.skip(start as int);
            lemma_first_at_is(t, '\n', t.len() as int);
            assert(line@ =~= t);
            assert(r.deep_view() =~= old_dv.push(line@));
            assert(r.deep_view() =~= old_dv + spec_lines(t));
        }
    } else {
        proof {
            assert(s@.skip(start as int) =~= Seq::<char>::empty());
            assert(r.deep_view() =~= r.deep_view() + spec_lines(s@.skip(start as int)));
        }
    }
    r
}

/// The given lines joined with a single `'\n'` between them.
pub open spec fn spec_join_nl(ls: Seq<Seq<char>>) -> Seq<char>
    decreases ls.len(),
{
    if ls.len() == 0 {
        Seq::empty()
    } else if ls.len() == 1 {
        ls[0]
    } else {
        ls[0] + seq!['\n'] + spec_join_nl(ls.drop_first())
    }
}

pub proof fn lemma_join_nl_push(ls: Seq<Seq<char>>, x: Seq<char>)
    ensures
        ls.len() == 0 ==> spec_join_nl(ls.push(x)) == x,
        ls.len() > 0 ==> spec_join_nl(ls.push(x)) == spec_join_nl(ls) + seq!['\n'] + x,
    decreases ls.len(),
{
    let p = ls.push(x);
    if ls.len() == 0 {
        assert(p[0] == x);
    } else {
        lemma_join_nl_push(ls.drop_first(), x);
        assert(p.drop_first() =~= ls.drop_first().push(x));
        assert(p[0] == ls[0]);
        if ls.len() == 1 {
            assert(spec_join_nl(p) == p[0] + seq!['\n'] + spec_join_nl(p.drop_first()));
        }
    }
}

/// Joins `lines[from..]` with a single `'\n'` between consecutive lines.
pub fn join_lines(lines: &Vec<String>, from: usize) -> (r: String)
    requires
        from <= lines.len(),
    ensures
        r@ == spec_join_nl(lines.deep_view().skip(from as int)),
{
    let mut r = String::new();
    let mut i: usize = from;
    while i < lines.len()
        invariant
            from <= i <= lines.len(),
            r@ == spec_join_nl(lines.deep_view().subrange(from as int, i as int)),
        decreases lines.len() - i,
    {
        let ghost seen = lines.deep_view().subrange(from as int, i as int);
        if i > from {
            r.append("\n");
            proof {
                reveal_strlit("\n");
                assert("\n"@ =~= seq!['\n']);
            }
        }
        r.append(lines[i].as_str());
        proof {
            lemma_join_nl_push(seen, lines.deep_view()[i as int]);
            assert(lines.deep_view().subrange(from as int, i + 1) =~= seen.push(
                lines.deep_view()[i as int],
            ));
        }
        i += 1;
    }
    proof {
        assert(lines.deep_view().subrange(from as int, lines.len() as int) =~= lines.deep_view()
            .skip(from as int));
    }
    r
}

} // verus!
