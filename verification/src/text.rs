//! Character classes, string building and the splitting functions of `str`
//! (`lines`, `trim`, `split_whitespace`, `find`, decimal `parse`) stated over
//! sequences of characters.

use vstd::prelude::*;
use vstd::string::*;

verus! {

/// `String::push` appends one character.
pub assume_specification[ String::push ](string: &mut String, ch: char)
    ensures
        final(string)@ == old(string)@.push(ch),
;

// ---------------------------------------------------------------------------
// Character classes
// ---------------------------------------------------------------------------

/// `char::is_whitespace`: the Unicode `White_Space` property.
pub open spec fn is_ws(c: char) -> bool {
    ||| ('\t' <= c && c <= '\r')
    ||| c == ' '
    ||| c == '\u{85}'
    ||| c == '\u{a0}'
    ||| c == '\u{1680}'
    ||| ('\u{2000}' <= c && c <= '\u{200a}')
    ||| c == '\u{2028}'
    ||| c == '\u{2029}'
    ||| c == '\u{202f}'
    ||| c == '\u{205f}'
    ||| c == '\u{3000}'
}

pub fn whitespace(c: char) -> (r: bool)
    ensures
        r == is_ws(c),
{
    ('\t' <= c && c <= '\r') || c == ' ' || c == '\u{85}' || c == '\u{a0}' || c == '\u{1680}'
        || ('\u{2000}' <= c && c <= '\u{200a}') || c == '\u{2028}' || c == '\u{2029}'
        || c == '\u{202f}' || c == '\u{205f}' || c == '\u{3000}'
}

/// `char::is_ascii_digit`.
pub open spec fn is_digit(c: char) -> bool {
    '0' <= c && c <= '9'
}

pub fn ascii_digit(c: char) -> (r: bool)
    ensures
        r == is_digit(c),
{
    '0' <= c && c <= '9'
}

/// `char::is_ascii_alphanumeric`.
pub open spec fn is_alnum(c: char) -> bool {
    ('a' <= c && c <= 'z') || ('A' <= c && c <= 'Z') || is_digit(c)
}

pub fn ascii_alnum(c: char) -> (r: bool)
    ensures
        r == is_alnum(c),
{
    ('a' <= c && c <= 'z') || ('A' <= c && c <= 'Z') || ('0' <= c && c <= '9')
}

/// The code of `char::to_ascii_uppercase` applied to `c`.
pub open spec fn upper_code(c: char) -> u32 {
    if 'a' <= c && c <= 'z' {
        (c as u32 - 32) as u32
    } else {
        c as u32
    }
}

pub fn ascii_upper_code(c: char) -> (r: u32)
    ensures
        r == upper_code(c),
{
    if 'a' <= c && c <= 'z' {
        c as u32 - 32
    } else {
        c as u32
    }
}

/// `s.to_ascii_uppercase() == word`, where `word` holds no lowercase ASCII letter.
pub open spec fn upper_eq(s: Seq<char>, word: Seq<char>) -> bool {
    &&& s.len() == word.len()
    &&& forall|i: int| 0 <= i < s.len() ==> upper_code(#[trigger] s[i]) == word[i] as u32
}

pub fn upper_equals(s: &[char], word: &str) -> (r: bool)
    ensures
        r == upper_eq(s@, word@),
{
    let w = chars_of(word);
    if s.len() != w.len() {
        return false;
    }
    let mut i: usize = 0;
    while i < s.len()
        invariant
            w@ == word@,
            s@.len() == w@.len(),
            i <= s@.len(),
            forall|k: int| 0 <= k < i ==> upper_code(#[trigger] s@[k]) == w@[k] as u32,
        decreases s@.len() - i,
    {
        if ascii_upper_code(s[i]) != w[i] as u32 {
            return false;
        }
        i = i + 1;
    }
    true
}

// ---------------------------------------------------------------------------
// Conversions between `str`, `String` and characters
// ---------------------------------------------------------------------------

/// The characters of a string slice, in order.
pub fn chars_of(s: &str) -> (v: Vec<char>)
    ensures
        v@ == s@,
{
    let n = s.unicode_len();
    let mut v: Vec<char> = Vec::new();
    let mut i: usize = 0;
    while i < n
        invariant
            n == s@.len(),
            i <= n,
            v@ == s@.subrange(0, i as int),
        decreases n - i,
    {
        v.push(s.get_char(i));
        i = i + 1;
    }
    v
}

/// A `String` holding exactly the given characters.
pub fn string_of(cs: &[char]) -> (s: String)
    ensures
        s@ == cs@,
{
    let mut s = String::new();
    let mut i: usize = 0;
    while i < cs.len()
        invariant
            i <= cs@.len(),
            s@ == cs@.subrange(0, i as int),
        decreases cs@.len() - i,
    {
        s.push(cs[i]);
        i = i + 1;
    }
    s
}

/// Appends the characters of `cs` to `s`.
pub fn push_chars(s: &mut String, cs: &[char])
    ensures
        final(s)@ == old(s)@ + cs@,
{
    let ghost start = s@;
    let mut i: usize = 0;
    while i < cs.len()
        invariant
            i <= cs@.len(),
            s@ == start + cs@.subrange(0, i as int),
        decreases cs@.len() - i,
    {
        s.push(cs[i]);
        i = i + 1;
    }
    assert(cs@.subrange(0, cs@.len() as int) =~= cs@);
}

/// Whether two character sequences are equal.
pub fn chars_equal(a: &[char], b: &[char]) -> (r: bool)
    ensures
        r == (a@ == b@),
{
    if a.len() != b.len() {
        return false;
    }
    let mut i: usize = 0;
    while i < a.len()
        invariant
            a@.len() == b@.len(),
            i <= a@.len(),
            forall|k: int| 0 <= k < i ==> a@[k] == b@[k],
        decreases a@.len() - i,
    {
        if a[i] != b[i] {
            return false;
        }
        i = i + 1;
    }
    assert(a@ =~= b@);
    true
}

/// Whether the characters `a` spell the string slice `b`.
pub fn chars_eq_str(a: &[char], b: &str) -> (r: bool)
    ensures
        r == (a@ == b@),
{
    let bv = chars_of(b);
    chars_equal(a, bv.as_slice())
}

/// The characters `cs[lo..hi]`.
pub fn slice_chars(cs: &[char], lo: usize, hi: usize) -> (v: Vec<char>)
    requires
        lo <= hi <= cs@.len(),
    ensures
        v@ == cs@.subrange(lo as int, hi as int),
{
    let mut v: Vec<char> = Vec::new();
    let mut i: usize = lo;
    while i < hi
        invariant
            lo <= i <= hi <= cs@.len(),
            v@ == cs@.subrange(lo as int, i as int),
        decreases hi - i,
    {
        v.push(cs[i]);
        i = i + 1;
    }
    v
}

/// Every `from` in `s` replaced by `to` (`str::replace` with single characters).
pub open spec fn replace_char(s: Seq<char>, from: char, to: char) -> Seq<char> {
    s.map_values(|c: char| if c == from { to } else { c })
}

pub fn replace_chars(cs: &[char], from: char, to: char) -> (v: Vec<char>)
    ensures
        v@ == replace_char(cs@, from, to),
{
    let mut v: Vec<char> = Vec::new();
    let mut i: usize = 0;
    while i < cs.len()
        invariant
            i <= cs@.len(),
            v@ == replace_char(cs@.subrange(0, i as int), from, to),
        decreases cs@.len() - i,
    {
        let c = cs[i];
        v.push(if c == from { to } else { c });
        assert(replace_char(cs@.subrange(0, i + 1), from, to) =~= replace_char(
            cs@.subrange(0, i as int),
            from,
            to,
        ).push(if c == from { to } else { c }));
        i = i + 1;
    }
    assert(cs@.subrange(0, cs@.len() as int) =~= cs@);
    v
}


// ---------------------------------------------------------------------------
// Splitting into lines and words, trimming
// ---------------------------------------------------------------------------

/// The pieces of `s` between the occurrences of `sep` (`str::split` on one
/// character): always one more piece than there are separators.
pub open spec fn pieces(s: Seq<char>, sep: char) -> Seq<Seq<char>>
    decreases s.len(),
{
    if s.len() == 0 {
        seq![Seq::<char>::empty()]
    } else if s.last() == sep {
        pieces(s.drop_last(), sep).push(Seq::<char>::empty())
    } else {
        let r = pieces(s.drop_last(), sep);
        r.update(r.len() - 1, r.last().push(s.last()))
    }
}

pub proof fn lemma_pieces_nonempty(s: Seq<char>, sep: char)
    ensures
        pieces(s, sep).len() >= 1,
    decreases s.len(),
{
    if s.len() > 0 {
        lemma_pieces_nonempty(s.drop_last(), sep);
    }
}

/// A line without the `'\r'` that ended it (used for lines followed by `'\n'`).
pub open spec fn strip_cr(line: Seq<char>) -> Seq<char> {
    if line.len() > 0 && line.last() == '\r' {
        line.drop_last()
    } else {
        line
    }
}

/// `str::lines`: the text split at `'\n'`, where a line that a `'\n'` ends also
/// loses a final `'\r'`, and a final empty line is not returned.
pub open spec fn lines(s: Seq<char>) -> Seq<Seq<char>> {
    let p = pieces(s, '\n');
    let ended = p.drop_last().map_values(|l: Seq<char>| strip_cr(l));
    if s.len() == 0 || s.last() == '\n' {
        ended
    } else {
        ended.push(p.last())
    }
}

/// The views of a vector of character vectors.
pub open spec fn views(v: Seq<Vec<char>>) -> Seq<Seq<char>> {
    v.map_values(|x: Vec<char>| x@)
}

fn strip_cr_chars(line: Vec<char>) -> (r: Vec<char>)
    ensures
        r@ == strip_cr(line@),
{
    let mut line = line;
    if line.len() > 0 && line[line.len() - 1] == '\r' {
        line.pop();
    }
    line
}

/// The lines of `cs`, as `str::lines` yields them.
pub fn lines_of(cs: &[char]) -> (r: Vec<Vec<char>>)
    ensures
        views(r@) == lines(cs@),
{
    let mut done: Vec<Vec<char>> = Vec::new();
    let mut cur: Vec<char> = Vec::new();
    let mut i: usize = 0;
    while i < cs.len()
        invariant
            i <= cs@.len(),
            pieces(cs@.subrange(0, i as int), '\n').len() == done@.len() + 1,
            pieces(cs@.subrange(0, i as int), '\n').last() == cur@,
            views(done@) == pieces(cs@.subrange(0, i as int), '\n').drop_last().map_values(
                |l: Seq<char>| strip_cr(l),
            ),
        decreases cs@.len() - i,
    {
        let c = cs[i];
        let ghost pre = cs@.subrange(0, i as int);
        let ghost p0 = pieces(pre, '\n');
        assert(cs@.subrange(0, i + 1).drop_last() =~= pre);
        if c == '\n' {
            let finished = strip_cr_chars(cur);
            proof {
                let p1 = pieces(cs@.subrange(0, i + 1), '\n');
                assert(p1 == p0.push(Seq::<char>::empty()));
                assert(p1.drop_last() =~= p0);
                assert(p0 =~= p0.drop_last().push(p0.last()));
                assert(views(done@.push(finished)) =~= views(done@).push(finished@));
                assert(p1.drop_last().map_values(|l: Seq<char>| strip_cr(l)) =~= p0.drop_last().map_values(
                    |l: Seq<char>| strip_cr(l),
                ).push(strip_cr(p0.last())));
            }
            done.push(finished);
            cur = Vec::new();
        } else {
            cur.push(c);
            proof {
                let p1 = pieces(cs@.subrange(0, i + 1), '\n');
                assert(p1 == p0.update(p0.len() - 1, p0.last().push(c)));
                assert(p1.drop_last() =~= p0.drop_last());
            }
        }
        i = i + 1;
    }
    assert(cs@.subrange(0, cs@.len() as int) =~= cs@);
    if cs.len() == 0 || cs[cs.len() - 1] == '\n' {
        done
    } else {
        let ghost d = done@;
        done.push(cur);
        proof {
            assert(views(done@) =~= views(d).push(pieces(cs@, '\n').last()));
        }
        done
    }
}

/// The number of whitespace characters that start `s`.
pub open spec fn lead_ws(s: Seq<char>) -> nat
    decreases s.len(),
{
    if s.len() > 0 && is_ws(s[0]) {
        1 + lead_ws(s.drop_first())
    } else {
        0
    }
}

/// The number of whitespace characters that end `s`.
pub open spec fn trail_ws(s: Seq<char>) -> nat
    decreases s.len(),
{
    if s.len() > 0 && is_ws(s.last()) {
        1 + trail_ws(s.drop_last())
    } else {
        0
    }
}

/// `str::trim_start`.
pub open spec fn trim_start(s: Seq<char>) -> Seq<char> {
    s.skip(lead_ws(s) as int)
}

/// `str::trim_end`.
pub open spec fn trim_end(s: Seq<char>) -> Seq<char> {
    s.take(s.len() - trail_ws(s))
}

/// `str::trim`.
pub open spec fn trim(s: Seq<char>) -> Seq<char> {
    trim_end(trim_start(s))
}

pub proof fn lemma_lead_ws(s: Seq<char>, j: int)
    requires
        0 <= j <= s.len(),
        forall|k: int| 0 <= k < j ==> is_ws(#[trigger] s[k]),
        j == s.len() || !is_ws(s[j]),
    ensures
        lead_ws(s) == j,
    decreases j,
{
    if j > 0 {
        let t = s.drop_first();
        assert forall|k: int| 0 <= k < j - 1 implies is_ws(#[trigger] t[k]) by {
            assert(t[k] == s[k + 1]);
        }
        lemma_lead_ws(t, j - 1);
    }
}

pub proof fn lemma_trail_ws(s: Seq<char>, j: int)
    requires
        0 <= j <= s.len(),
        forall|k: int| j <= k < s.len() ==> is_ws(#[trigger] s[k]),
        j == 0 || !is_ws(s[j - 1]),
    ensures
        trail_ws(s) == s.len() - j,
    decreases s.len() - j,
{
    if j < s.len() {
        let t = s.drop_last();
        assert forall|k: int| j <= k < t.len() implies is_ws(#[trigger] t[k]) by {
            assert(t[k] == s[k]);
        }
        lemma_trail_ws(t, j);
    }
}

/// Index of the first character of `cs[from..]` that is not whitespace, or the end.
fn skip_ws(cs: &[char], from: usize) -> (i: usize)
    requires
        from <= cs@.len(),
    ensures
        from <= i <= cs@.len(),
        lead_ws(cs@.skip(from as int)) == i - from,
{
    let mut i = from;
    while i < cs.len() && whitespace(cs[i])
        invariant
            from <= i <= cs@.len(),
            forall|k: int| from <= k < i ==> is_ws(#[trigger] cs@[k]),
        decreases cs@.len() - i,
    {
        i = i + 1;
    }
    proof {
        let t = cs@.skip(from as int);
        assert forall|k: int| 0 <= k < i - from implies is_ws(#[trigger] t[k]) by {
            assert(t[k] == cs@[from + k]);
        }
        lemma_lead_ws(t, i - from);
    }
    i
}

/// `str::trim_start` on characters.
pub fn trim_start_chars(cs: &[char]) -> (v: Vec<char>)
    ensures
        v@ == trim_start(cs@),
{
    let i = skip_ws(cs, 0);
    assert(cs@.skip(0) =~= cs@);
    slice_chars(cs, i, cs.len())
}

/// `str::trim` on characters.
pub fn trim_chars(cs: &[char]) -> (v: Vec<char>)
    ensures
        v@ == trim(cs@),
{
    let i = skip_ws(cs, 0);
    assert(cs@.skip(0) =~= cs@);
    let mut j = cs.len();
    while j > i && whitespace(cs[j - 1])
        invariant
            i <= j <= cs@.len(),
            forall|k: int| j <= k < cs@.len() ==> is_ws(#[trigger] cs@[k]),
        decreases j,
    {
        j = j - 1;
    }
    proof {
        let t = cs@.skip(i as int);
        assert forall|k: int| j - i <= k < t.len() implies is_ws(#[trigger] t[k]) by {
            assert(t[k] == cs@[i + k]);
        }
        if j > i {
            assert(t[j - i - 1] == cs@[j - 1]);
        }
        lemma_trail_ws(t, j - i);
        assert(trim_end(t) =~= cs@.subrange(i as int, j as int));
    }
    slice_chars(cs, i, j)
}

/// `str::split_whitespace`: the maximal runs of non-whitespace characters.
pub open spec fn words(s: Seq<char>) -> Seq<Seq<char>>
    decreases s.len(),
{
    if s.len() == 0 {
        seq![]
    } else if is_ws(s.last()) {
        words(s.drop_last())
    } else if s.len() >= 2 && !is_ws(s[s.len() - 2]) {
        let r = words(s.drop_last());
        r.update(r.len() - 1, r.last().push(s.last()))
    } else {
        words(s.drop_last()).push(seq![s.last()])
    }
}

/// The words of `cs`, as `str::split_whitespace` yields them.
pub fn words_of(cs: &[char]) -> (r: Vec<Vec<char>>)
    ensures
        views(r@) == words(cs@),
{
    let mut done: Vec<Vec<char>> = Vec::new();
    let mut cur: Vec<char> = Vec::new();
    let mut in_word = false;
    let mut i: usize = 0;
    while i < cs.len()
        invariant
            i <= cs@.len(),
            in_word == (i > 0 && !is_ws(cs@[i - 1])),
            in_word ==> words(cs@.subrange(0, i as int)) == views(done@).push(cur@),
            !in_word ==> words(cs@.subrange(0, i as int)) == views(done@),
        decreases cs@.len() - i,
    {
        let c = cs[i];
        let ghost pre = cs@.subrange(0, i as int);
        let ghost next = cs@.subrange(0, i + 1);
        assert(next.drop_last() =~= pre);
        assert(next.last() == c);
        if whitespace(c) {
            if in_word {
                let finished = cur;
                proof {
                    assert(views(done@.push(finished)) =~= views(done@).push(finished@));
                }
                done.push(finished);
                cur = Vec::new();
            }
            in_word = false;
        } else {
            if in_word {
                proof {
                    assert(next[next.len() - 2] == cs@[i - 1]);
                    let r = words(pre);
                    assert(r.update(r.len() - 1, r.last().push(c)) =~= views(done@).push(
                        cur@.push(c),
                    ));
                }
                cur.push(c);
            } else {
                proof {
                    if i > 0 {
                        assert(next[next.len() - 2] == cs@[i - 1]);
                    }
                    assert(seq![c] =~= Seq::<char>::empty().push(c));
                }
                cur = Vec::new();
                cur.push(c);
            }
            in_word = true;
        }
        i = i + 1;
    }
    assert(cs@.subrange(0, cs@.len() as int) =~= cs@);
    if in_word {
        let ghost d = done@;
        done.push(cur);
        assert(views(done@) =~= views(d).push(views(done@).last()));
    }
    done
}

/// Whether `s` begins with `p`.
pub open spec fn starts_with(s: Seq<char>, p: Seq<char>) -> bool {
    p.len() <= s.len() && s.take(p.len() as int) == p
}

/// The first index at or after `k` where `p` occurs in `s`.
pub open spec fn find_from(s: Seq<char>, p: Seq<char>, k: int) -> Option<int>
    decreases s.len() + 1 - k,
{
    if k < 0 || k + p.len() > s.len() {
        None
    } else if s.subrange(k, k + p.len()) == p {
        Some(k)
    } else {
        find_from(s, p, k + 1)
    }
}

/// `str::find` with a string pattern, as a character index.
pub open spec fn find(s: Seq<char>, p: Seq<char>) -> Option<int> {
    find_from(s, p, 0)
}

pub proof fn lemma_find_from_bounds(s: Seq<char>, p: Seq<char>, k: int)
    ensures
        find_from(s, p, k) matches Some(j) ==> k <= j && j + p.len() <= s.len()
            && s.subrange(j, j + p.len()) == p,
    decreases s.len() + 1 - k,
{
    if !(k < 0 || k + p.len() > s.len()) && s.subrange(k, k + p.len()) != p {
        lemma_find_from_bounds(s, p, k + 1);
    }
}

/// The first occurrence of `p` in `s`, as `str::find` reports it.
pub fn find_chars(s: &[char], p: &[char]) -> (r: Option<usize>)
    ensures
        r matches Some(j) ==> find(s@, p@) == Some(j as int),
        r is None ==> find(s@, p@) is None,
{
    let mut k: usize = 0;
    while k <= s.len() && p.len() <= s.len() - k
        invariant
            k <= s@.len() + 1,
            find(s@, p@) == find_from(s@, p@, k as int),
        decreases s@.len() + 1 - k,
    {
        let mut m: usize = 0;
        let mut same = true;
        while m < p.len()
            invariant
                k + p@.len() <= s@.len() <= usize::MAX,
                m <= p@.len(),
                same == (forall|q: int| 0 <= q < m ==> s@[k + q] == p@[q]),
            decreases p@.len() - m,
        {
            if s[k + m] != p[m] {
                same = false;
            }
            m = m + 1;
        }
        proof {
            if same {
                assert(s@.subrange(k as int, k + p@.len()) =~= p@);
            } else {
                let q = choose|q: int| 0 <= q < p@.len() && s@[k + q] != p@[q];
                assert(s@.subrange(k as int, k + p@.len())[q] != p@[q]);
            }
        }
        if same {
            return Some(k);
        }
        k = k + 1;
    }
    None
}

// ---------------------------------------------------------------------------
// Decimal numbers
// ---------------------------------------------------------------------------

pub open spec fn digit_value(c: char) -> nat {
    (c as int - '0' as int) as nat
}

/// The number that a sequence of decimal digits denotes.
pub open spec fn digits_value(d: Seq<char>) -> nat
    decreases d.len(),
{
    if d.len() == 0 {
        0
    } else {
        digits_value(d.drop_last()) * 10 + digit_value(d.last())
    }
}

pub open spec fn all_digits(d: Seq<char>) -> bool {
    forall|i: int| 0 <= i < d.len() ==> is_digit(#[trigger] d[i])
}

/// `str::parse` for an unsigned integer type whose largest value is `max`:
/// an optional `'+'`, then one or more decimal digits, denoting at most `max`.
pub open spec fn parse_unsigned(s: Seq<char>, max: nat) -> Option<nat> {
    let d = if s.len() > 0 && s[0] == '+' {
        s.drop_first()
    } else {
        s
    };
    if d.len() == 0 || !all_digits(d) || digits_value(d) > max {
        None
    } else {
        Some(digits_value(d))
    }
}

pub proof fn lemma_digits_value_prefix(d: Seq<char>, i: int)
    requires
        0 <= i <= d.len(),
        all_digits(d),
    ensures
        digits_value(d.take(i)) <= digits_value(d),
    decreases d.len() - i,
{
    if i < d.len() {
        let t = d.drop_last();
        assert(t.take(i) =~= d.take(i));
        assert(all_digits(t)) by {
            assert forall|k: int| 0 <= k < t.len() implies is_digit(#[trigger] t[k]) by {
                assert(t[k] == d[k]);
            }
        }
        lemma_digits_value_prefix(t, i);
        assert(digits_value(d) == digits_value(t) * 10 + digit_value(d.last()));
    } else {
        assert(d.take(i) =~= d);
    }
}

/// Parses `cs` as `str::parse` parses an unsigned integer whose largest value is `max`.
pub fn parse_unsigned_chars(cs: &[char], max: u32) -> (r: Option<u32>)
    ensures
        r matches Some(v) ==> parse_unsigned(cs@, max as nat) == Some(v as nat),
        r is None ==> parse_unsigned(cs@, max as nat) is None,
{
    let start: usize = if cs.len() > 0 && cs[0] == '+' {
        1
    } else {
        0
    };
    let ghost d = if cs@.len() > 0 && cs@[0] == '+' {
        cs@.drop_first()
    } else {
        cs@
    };
    assert(d =~= cs@.skip(start as int));
    if start == cs.len() {
        return None;
    }
    let mut acc: u64 = 0;
    let mut i: usize = start;
    while i < cs.len()
        invariant
            start <= i <= cs@.len(),
            d =~= cs@.skip(start as int),
            d == (if cs@.len() > 0 && cs@[0] == '+' {
                cs@.drop_first()
            } else {
                cs@
            }),
            acc <= max,
            acc == digits_value(d.take(i - start)),
            all_digits(d.take(i - start)),
        decreases cs@.len() - i,
    {
        let c = cs[i];
        let ghost pre = d.take(i - start);
        let ghost next = d.take(i - start + 1);
        assert(next.drop_last() =~= pre);
        assert(next.last() == c);
        if !ascii_digit(c) {
            assert(!is_digit(d[i - start]));
            return None;
        }
        let dv = (c as u32 - '0' as u32) as u64;
        assert(dv == digit_value(c));
        acc = acc * 10 + dv;
        assert(acc == digits_value(next));
        assert(all_digits(next)) by {
            assert forall|k: int| 0 <= k < next.len() implies is_digit(#[trigger] next[k]) by {
                if k < pre.len() {
                    assert(next[k] == pre[k]);
                }
            }
        }
        if acc > max as u64 {
            proof {
                if all_digits(d) {
                    lemma_digits_value_prefix(d, i - start + 1);
                    assert(digits_value(d) > max);
                }
                assert(d.len() > 0);
            }
            return None;
        }
        i = i + 1;
    }
    assert(d.take(i - start) =~= d);
    Some(acc as u32)
}

/// The decimal digit character for `d < 10`.
pub open spec fn digit_char(d: nat) -> char {
    if d == 0 {
        '0'
    } else if d == 1 {
        '1'
    } else if d == 2 {
        '2'
    } else if d == 3 {
        '3'
    } else if d == 4 {
        '4'
    } else if d == 5 {
        '5'
    } else if d == 6 {
        '6'
    } else if d == 7 {
        '7'
    } else if d == 8 {
        '8'
    } else {
        '9'
    }
}

/// The decimal form of `n`, as `to_string` writes an unsigned integer.
pub open spec fn decimal(n: nat) -> Seq<char>
    decreases n,
{
    if n < 10 {
        seq![digit_char(n)]
    } else {
        decimal(n / 10).push(digit_char(n % 10))
    }
}

pub proof fn lemma_digit_char(d: nat)
    requires
        d < 10,
    ensures
        is_digit(digit_char(d)),
        digit_value(digit_char(d)) == d,
{
}

/// Reading back the decimal form of a number gives the number.
pub proof fn lemma_decimal_digits(n: nat)
    ensures
        all_digits(decimal(n)),
        decimal(n).len() >= 1,
        digits_value(decimal(n)) == n,
        decimal(n)[0] != '+',
    decreases n,
{
    lemma_digit_char(n % 10);
    if n >= 10 {
        lemma_decimal_digits(n / 10);
        let t = decimal(n / 10);
        let s = decimal(n);
        assert(s.drop_last() =~= t);
        assert(s.last() == digit_char(n % 10));
        assert(digits_value(s) == digits_value(t) * 10 + digit_value(s.last()));
        assert(n == (n / 10) * 10 + n % 10);
        assert forall|i: int| 0 <= i < s.len() implies is_digit(#[trigger] s[i]) by {
            if i < t.len() {
                assert(s[i] == t[i]);
            }
        }
        assert(s[0] == t[0]);
    } else {
        let s = decimal(n);
        assert(s.drop_last() =~= Seq::<char>::empty());
        assert(digits_value(s.drop_last()) == 0);
        assert(s.last() == digit_char(n));
        assert(digits_value(s) == digits_value(s.drop_last()) * 10 + digit_value(s.last()));
    }
}

pub fn digit_to_char(d: u64) -> (c: char)
    requires
        d < 10,
    ensures
        c == digit_char(d as nat),
{
    if d == 0 {
        '0'
    } else if d == 1 {
        '1'
    } else if d == 2 {
        '2'
    } else if d == 3 {
        '3'
    } else if d == 4 {
        '4'
    } else if d == 5 {
        '5'
    } else if d == 6 {
        '6'
    } else if d == 7 {
        '7'
    } else if d == 8 {
        '8'
    } else {
        '9'
    }
}

/// Appends the decimal form of `n` to `s`.
pub fn push_decimal(s: &mut String, n: u64)
    ensures
        final(s)@ == old(s)@ + decimal(n as nat),
    decreases n,
{
    if n >= 10 {
        push_decimal(s, n / 10);
    }
    s.push(digit_to_char(n % 10));
    proof {
        if n < 10 {
            assert(decimal(n as nat) =~= seq![digit_char(n as nat)]);
        }
    }
    assert(final(s)@ =~= old(s)@ + decimal(n as nat)) by {
        if n >= 10 {
            assert(decimal(n as nat) == decimal((n / 10) as nat).push(digit_char((n % 10) as nat)));
        }
    }
}

/// The decimal form of `n` as a new `String` (`n.to_string()`).
pub fn decimal_string(n: u64) -> (s: String)
    ensures
        s@ == decimal(n as nat),
{
    let mut s = String::new();
    push_decimal(&mut s, n);
    assert(s@ =~= decimal(n as nat));
    s
}

/// `p` occurs in `s` at index `i`.
pub open spec fn occurs_at(s: Seq<char>, p: Seq<char>, i: int) -> bool {
    s.subrange(i, i + p.len()) == p
}

proof fn lemma_find_from_first(s: Seq<char>, p: Seq<char>, j: int, k: int)
    requires
        0 <= j <= k,
        k + p.len() <= s.len(),
        s.subrange(k, k + p.len()) == p,
        forall|i: int| j <= i < k ==> !#[trigger] occurs_at(s, p, i),
    ensures
        find_from(s, p, j) == Some(k),
    decreases k - j,
{
    if j < k {
        assert(!occurs_at(s, p, j));
        lemma_find_from_first(s, p, j + 1, k);
    }
}

/// The first occurrence found is the one at `k` when none starts before it.
pub proof fn lemma_find_first(s: Seq<char>, p: Seq<char>, k: int)
    requires
        0 <= k,
        k + p.len() <= s.len(),
        s.subrange(k, k + p.len()) == p,
        forall|i: int| 0 <= i < k ==> !#[trigger] occurs_at(s, p, i),
    ensures
        find(s, p) == Some(k),
{
    lemma_find_from_first(s, p, 0, k);
}

/// Whether the characters `s` begin with the string slice `p`.
pub fn chars_start_with(s: &[char], p: &str) -> (r: bool)
    ensures
        r == starts_with(s@, p@),
{
    let pv = chars_of(p);
    if pv.len() > s.len() {
        return false;
    }
    let mut i: usize = 0;
    while i < pv.len()
        invariant
            pv@ == p@,
            pv@.len() <= s@.len(),
            i <= pv@.len(),
            forall|k: int| 0 <= k < i ==> s@[k] == pv@[k],
        decreases pv@.len() - i,
    {
        if s[i] != pv[i] {
            assert(s@.take(p@.len() as int)[i as int] != p@[i as int]);
            return false;
        }
        i = i + 1;
    }
    assert(s@.take(p@.len() as int) =~= p@);
    true
}

/// The views of a sequence of strings.
pub open spec fn strings_view(v: Seq<String>) -> Seq<Seq<char>> {
    v.map_values(|s: String| s@)
}

/// `String`s holding the given character vectors.
pub fn strings_of(v: &[Vec<char>]) -> (r: Vec<String>)
    ensures
        strings_view(r@) == views(v@),
{
    let mut r: Vec<String> = Vec::new();
    let mut i: usize = 0;
    while i < v.len()
        invariant
            i <= v@.len(),
            strings_view(r@) =~= views(v@.subrange(0, i as int)),
        decreases v@.len() - i,
    {
        let s = string_of(v[i].as_slice());
        let ghost before = r@;
        r.push(s);
        assert(strings_view(r@) =~= strings_view(before).push(s@));
        assert(v@.subrange(0, i + 1) =~= v@.subrange(0, i as int).push(v@[i as int]));
        i = i + 1;
    }
    assert(v@.subrange(0, v@.len() as int) =~= v@);
    r
}

/// The index of the last `c` in `s`.
pub open spec fn rfind_char(s: Seq<char>, c: char) -> Option<int>
    decreases s.len(),
{
    if s.len() == 0 {
        None
    } else if s.last() == c {
        Some(s.len() - 1)
    } else {
        rfind_char(s.drop_last(), c)
    }
}

/// The index of the last `c` in `cs`.
pub fn rfind_char_exec(cs: &[char], c: char) -> (r: Option<usize>)
    ensures
        r matches Some(k) ==> rfind_char(cs@, c) == Some(k as int) && k < cs@.len(),
        r is None ==> rfind_char(cs@, c) is None,
{
    let mut j = cs.len();
    assert(cs@.take(j as int) =~= cs@);
    while j > 0
        invariant
            j <= cs@.len(),
            rfind_char(cs@, c) == rfind_char(cs@.take(j as int), c),
        decreases j,
    {
        assert(cs@.take(j as int).drop_last() =~= cs@.take(j - 1));
        if cs[j - 1] == c {
            return Some(j - 1);
        }
        j = j - 1;
    }
    None
}

/// The number of ASCII digits that start `s`.
pub open spec fn lead_digits(s: Seq<char>) -> nat
    decreases s.len(),
{
    if s.len() > 0 && is_digit(s[0]) {
        1 + lead_digits(s.drop_first())
    } else {
        0
    }
}

pub proof fn lemma_lead_digits(s: Seq<char>, j: int)
    requires
        0 <= j <= s.len(),
        forall|k: int| 0 <= k < j ==> is_digit(#[trigger] s[k]),
        j == s.len() || !is_digit(s[j]),
    ensures
        lead_digits(s) == j,
    decreases j,
{
    if j > 0 {
        let t = s.drop_first();
        assert forall|k: int| 0 <= k < j - 1 implies is_digit(#[trigger] t[k]) by {
            assert(t[k] == s[k + 1]);
        }
        lemma_lead_digits(t, j - 1);
    }
}

/// The ASCII digits that start `cs` (`take_while(char::is_ascii_digit)`).
pub fn leading_digits(cs: &[char]) -> (v: Vec<char>)
    ensures
        v@ == cs@.take(lead_digits(cs@) as int),
        all_digits(v@),
{
    let mut i: usize = 0;
    while i < cs.len() && ascii_digit(cs[i])
        invariant
            i <= cs@.len(),
            forall|k: int| 0 <= k < i ==> is_digit(#[trigger] cs@[k]),
        decreases cs@.len() - i,
    {
        i = i + 1;
    }
    proof {
        lemma_lead_digits(cs@, i as int);
    }
    let v = slice_chars(cs, 0, i);
    assert forall|k: int| 0 <= k < v@.len() implies is_digit(#[trigger] v@[k]) by {
        assert(v@[k] == cs@[k]);
    }
    v
}

/// A number written in decimal reads back as itself: `str::parse` of the
/// decimal form of `n` gives `n` whenever `n` fits the target type.
pub proof fn law_decimal_reads_back(n: nat, max: nat)
    requires
        n <= max,
    ensures
        parse_unsigned(decimal(n), max) == Some(n),
{
    lemma_decimal_digits(n);
}

proof fn lemma_find_from_absent(s: Seq<char>, p: Seq<char>, k: int)
    requires
        0 <= k,
        forall|i: int| k <= i && i + p.len() <= s.len() ==> !#[trigger] occurs_at(s, p, i),
    ensures
        find_from(s, p, k) is None,
    decreases s.len() + 1 - k,
{
    if !(k + p.len() > s.len()) {
        assert(!occurs_at(s, p, k));
        lemma_find_from_absent(s, p, k + 1);
    }
}

/// A character that never occurs is not found.
pub proof fn lemma_find_char_absent(s: Seq<char>, c: char)
    requires
        forall|i: int| 0 <= i < s.len() ==> #[trigger] s[i] != c,
    ensures
        find(s, seq![c]) is None,
{
    assert forall|i: int| 0 <= i && i + 1 <= s.len() implies !#[trigger] occurs_at(s, seq![c], i) by {
        assert(s.subrange(i, i + 1)[0] == s[i]);
    }
    lemma_find_from_absent(s, seq![c], 0);
}

/// The last `c` is the one after which no `c` follows.
pub proof fn lemma_rfind_char_last(a: Seq<char>, c: char, b: Seq<char>)
    requires
        forall|i: int| 0 <= i < b.len() ==> #[trigger] b[i] != c,
    ensures
        rfind_char(a + seq![c] + b, c) == Some(a.len() as int),
    decreases b.len(),
{
    let s = a + seq![c] + b;
    if b.len() == 0 {
        assert(s.last() == c);
    } else {
        assert(s.drop_last() =~= a + seq![c] + b.drop_last());
        assert(s.last() == b.last());
        lemma_rfind_char_last(a, c, b.drop_last());
    }
}

} // verus!
