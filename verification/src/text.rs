//! Trimming, splitting into words, joining and prefix tests on character
//! sequences, as `str::trim`, `str::split_whitespace`, `[String]::join` and
//! `str::starts_with` do them.

use vstd::prelude::*;

use crate::chars::{is_white_space, is_whitespace};

verus! {

/// `s` without its leading white space.
pub open spec fn trim_start_spec(s: Seq<char>) -> Seq<char>
    decreases s.len(),
{
    if s.len() > 0 && is_white_space(s[0]) {
        trim_start_spec(s.drop_first())
    } else {
        s
    }
}

/// `s` without its trailing white space.
pub open spec fn trim_end_spec(s: Seq<char>) -> Seq<char>
    decreases s.len(),
{
    if s.len() > 0 && is_white_space(s.last()) {
        trim_end_spec(s.drop_last())
    } else {
        s
    }
}

/// `s` without leading and trailing white space (`str::trim`).
pub open spec fn trim_spec(s: Seq<char>) -> Seq<char> {
    trim_end_spec(trim_start_spec(s))
}

/// Neither the first nor the last character of `s` is white space.
pub open spec fn is_trimmed(s: Seq<char>) -> bool {
    s.len() > 0 ==> !is_white_space(s[0]) && !is_white_space(s.last())
}

/// The words of `s` as a left-to-right scan finds them: the finished words and
/// the word being read.
pub open spec fn split_scan(s: Seq<char>) -> (Seq<Seq<char>>, Seq<char>)
    decreases s.len(),
{
    if s.len() == 0 {
        (seq![], seq![])
    } else {
        let (done, cur) = split_scan(s.drop_last());
        let c = s.last();
        if is_white_space(c) {
            if cur.len() > 0 {
                (done.push(cur), seq![])
            } else {
                (done, cur)
            }
        } else {
            (done, cur.push(c))
        }
    }
}

/// The maximal runs of non-white-space characters of `s`, in order
/// (`str::split_whitespace`).
pub open spec fn words(s: Seq<char>) -> Seq<Seq<char>> {
    let (done, cur) = split_scan(s);
    if cur.len() > 0 {
        done.push(cur)
    } else {
        done
    }
}

/// `parts` joined with `sep` between each two neighbours.
pub open spec fn join(parts: Seq<Seq<char>>, sep: Seq<char>) -> Seq<char>
    decreases parts.len(),
{
    if parts.len() == 0 {
        seq![]
    } else if parts.len() == 1 {
        parts[0]
    } else {
        join(parts.drop_last(), sep) + sep + parts.last()
    }
}

/// The character sequences that a vector of character vectors holds.
pub open spec fn views(v: Seq<Vec<char>>) -> Seq<Seq<char>> {
    v.map_values(|w: Vec<char>| w@)
}

/// `trim_start_spec` drops a prefix of white space and keeps the rest.
pub proof fn lemma_trim_start_is_suffix(s: Seq<char>)
    ensures
        exists|a: int|
            0 <= a <= s.len() && trim_start_spec(s) == s.subrange(a, s.len() as int) && (forall|
                i: int,
            | 0 <= i < a ==> is_white_space(#[trigger] s[i])),
        trim_start_spec(s).len() > 0 ==> !is_white_space(trim_start_spec(s)[0]),
    decreases s.len(),
{
    if s.len() > 0 && is_white_space(s[0]) {
        lemma_trim_start_is_suffix(s.drop_first());
        let a = choose|a: int|
            0 <= a <= s.drop_first().len() && trim_start_spec(s.drop_first())
                == s.drop_first().subrange(a, s.drop_first().len() as int) && (forall|i: int|
                0 <= i < a ==> is_white_space(#[trigger] s.drop_first()[i]));
        assert(s.drop_first().subrange(a, s.drop_first().len() as int) == s.subrange(
            a + 1,
            s.len() as int,
        ));
        assert forall|i: int| 0 <= i < a + 1 implies is_white_space(#[trigger] s[i]) by {
            if i > 0 {
                assert(s[i] == s.drop_first()[i - 1]);
            }
        }
    } else {
        assert(s == s.subrange(0, s.len() as int));
    }
}

/// `trim_end_spec` drops a suffix of white space and keeps the rest.
pub proof fn lemma_trim_end_is_prefix(s: Seq<char>)
    ensures
        exists|b: int|
            0 <= b <= s.len() && trim_end_spec(s) == s.subrange(0, b) && (forall|i: int|
                b <= i < s.len() ==> is_white_space(#[trigger] s[i])),
        trim_end_spec(s).len() > 0 ==> !is_white_space(trim_end_spec(s).last()),
    decreases s.len(),
{
    if s.len() > 0 && is_white_space(s.last()) {
        lemma_trim_end_is_prefix(s.drop_last());
        let b = choose|b: int|
            0 <= b <= s.drop_last().len() && trim_end_spec(s.drop_last())
                == s.drop_last().subrange(0, b) && (forall|i: int|
                b <= i < s.drop_last().len() ==> is_white_space(#[trigger] s.drop_last()[i]));
        assert(s.drop_last().subrange(0, b) == s.subrange(0, b));
        assert forall|i: int| b <= i < s.len() implies is_white_space(#[trigger] s[i]) by {
            if i < s.len() - 1 {
                assert(s[i] == s.drop_last()[i]);
            }
        }
    } else {
        assert(s == s.subrange(0, s.len() as int));
    }
}

/// A sequence that does not start with white space keeps its first character
/// when its trailing white space goes.
proof fn lemma_trim_end_keeps_start(s: Seq<char>)
    requires
        s.len() > 0,
        !is_white_space(s[0]),
    ensures
        trim_end_spec(s).len() > 0,
        trim_end_spec(s)[0] == s[0],
    decreases s.len(),
{
    if is_white_space(s.last()) {
        lemma_trim_end_keeps_start(s.drop_last());
    }
}

/// The result of `trim_spec` is a contiguous part of its argument and has no
/// white space at either end.
pub proof fn lemma_trim_is_subrange(s: Seq<char>)
    ensures
        exists|a: int, b: int|
            0 <= a <= b <= s.len() && trim_spec(s) == s.subrange(a, b) && (forall|i: int|
                0 <= i < a ==> is_white_space(#[trigger] s[i])) && (forall|i: int|
                b <= i < s.len() ==> is_white_space(#[trigger] s[i])),
        is_trimmed(trim_spec(s)),
{
    lemma_trim_start_is_suffix(s);
    let t = trim_start_spec(s);
    let a = choose|a: int|
        0 <= a <= s.len() && t == s.subrange(a, s.len() as int) && (forall|i: int|
            0 <= i < a ==> is_white_space(#[trigger] s[i]));
    lemma_trim_end_is_prefix(t);
    let b = choose|b: int|
        0 <= b <= t.len() && trim_end_spec(t) == t.subrange(0, b) && (forall|i: int|
            b <= i < t.len() ==> is_white_space(#[trigger] t[i]));
    assert(t.subrange(0, b) == s.subrange(a, a + b));
    assert forall|i: int| a + b <= i < s.len() implies is_white_space(#[trigger] s[i]) by {
        assert(s[i] == t[i - a]);
    }
    if t.len() > 0 {
        lemma_trim_end_keeps_start(t);
    }
}

/// A sequence without white space at either end is its own trim.
pub proof fn lemma_trim_of_trimmed(s: Seq<char>)
    requires
        is_trimmed(s),
    ensures
        trim_spec(s) == s,
{
    assert(trim_start_spec(s) == s);
    assert(trim_end_spec(s) == s);
}

/// Scanning `s + t` after `s` ended between words continues as a fresh scan
/// of `t`.
proof fn lemma_split_scan_concat(s: Seq<char>, t: Seq<char>)
    requires
        split_scan(s).1.len() == 0,
    ensures
        split_scan(s + t) == (split_scan(s).0 + split_scan(t).0, split_scan(t).1),
    decreases t.len(),
{
    if t.len() == 0 {
        assert(s + t == s);
        assert(split_scan(s).0 + Seq::<Seq<char>>::empty() == split_scan(s).0);
    } else {
        lemma_split_scan_concat(s, t.drop_last());
        assert((s + t).drop_last() == s + t.drop_last());
        assert((s + t).last() == t.last());
        let (d, c) = split_scan(t.drop_last());
        if is_white_space(t.last()) && c.len() > 0 {
            assert((split_scan(s).0 + d).push(c) == split_scan(s).0 + d.push(c));
        }
    }
}

/// The words of two texts joined by a space are the words of the first
/// followed by the words of the second.
pub proof fn lemma_words_concat(x: Seq<char>, y: Seq<char>)
    ensures
        words(x + seq![' '] + y) == words(x) + words(y),
{
    let s = x + seq![' '];
    assert(s.drop_last() == x);
    assert(s.last() == ' ');
    assert(split_scan(s).0 == words(x));
    lemma_split_scan_concat(s, y);
    let (d, c) = split_scan(y);
    if c.len() > 0 {
        assert((words(x) + d).push(c) == words(x) + d.push(c));
    } else {
        assert(words(x) + d == words(x) + words(y));
    }
}

/// A word without white space is scanned as one unfinished word.
proof fn lemma_split_scan_word(t: Seq<char>)
    requires
        all_chars(t, |c: char| !is_white_space(c)),
    ensures
        split_scan(t) == (Seq::<Seq<char>>::empty(), t),
    decreases t.len(),
{
    if t.len() > 0 {
        let p = t.drop_last();
        assert forall|j: int| 0 <= j < p.len() implies (|c: char| !is_white_space(c))(#[trigger] p[j]) by {
            assert(p[j] == t[j]);
        }
        lemma_split_scan_word(p);
        assert(!is_white_space(t[t.len() - 1]));
        assert(p.push(t.last()) == t);
    }
}

/// Splitting words that are not empty and hold no white space, after joining
/// them with single spaces, gives them back.
pub proof fn lemma_words_join(ts: Seq<Seq<char>>)
    requires
        forall|k: int|
            0 <= k < ts.len() ==> (#[trigger] ts[k]).len() > 0 && all_chars(
                ts[k],
                |c: char| !is_white_space(c),
            ),
    ensures
        words(join(ts, seq![' '])) == ts,
    decreases ts.len(),
{
    if ts.len() == 0 {
        assert(words(Seq::<char>::empty()) == Seq::<Seq<char>>::empty());
    } else if ts.len() == 1 {
        lemma_split_scan_word(ts[0]);
        assert(words(ts[0]) == seq![ts[0]]);
        assert(seq![ts[0]] == ts);
    } else {
        let p = ts.drop_last();
        assert forall|k: int| 0 <= k < p.len() implies (#[trigger] p[k]).len() > 0 && all_chars(
            p[k],
            |c: char| !is_white_space(c),
        ) by {
            assert(p[k] == ts[k]);
        }
        lemma_words_join(p);
        let t = ts.last();
        assert(t == ts[ts.len() - 1]);
        lemma_split_scan_word(t);
        lemma_words_concat(join(p, seq![' ']), t);
        assert(words(t) == seq![t]);
        assert(p + seq![t] == ts);
    }
}

/// Every character of `w` has the property `p`.
pub open spec fn all_chars(w: Seq<char>, p: spec_fn(char) -> bool) -> bool {
    forall|j: int| 0 <= j < w.len() ==> p(#[trigger] w[j])
}

/// The scan keeps words that are not empty and hold no white space, and only
/// characters of the text.
proof fn lemma_split_scan_shape(s: Seq<char>, p: spec_fn(char) -> bool)
    requires
        all_chars(s, p),
    ensures
        forall|k: int|
            0 <= k < split_scan(s).0.len() ==> #[trigger] split_scan(s).0[k].len() > 0 && all_chars(
                split_scan(s).0[k],
                p,
            ) && all_chars(split_scan(s).0[k], |c: char| !is_white_space(c)),
        all_chars(split_scan(s).1, p),
        all_chars(split_scan(s).1, |c: char| !is_white_space(c)),
    decreases s.len(),
{
    if s.len() > 0 {
        assert forall|j: int| 0 <= j < s.drop_last().len() implies p(
            #[trigger] s.drop_last()[j],
        ) by {
            assert(s.drop_last()[j] == s[j]);
        }
        lemma_split_scan_shape(s.drop_last(), p);
        assert(p(s[s.len() - 1]));
        let (d, c) = split_scan(s.drop_last());
        let (d2, c2) = split_scan(s);
        if !is_white_space(s.last()) {
            assert forall|j: int| 0 <= j < c2.len() implies p(#[trigger] c2[j]) by {
                if j < c.len() {
                    assert(c2[j] == c[j]);
                }
            }
            assert forall|j: int| 0 <= j < c2.len() implies (|c: char| !is_white_space(c))(
                #[trigger] c2[j],
            ) by {
                if j < c.len() {
                    assert(c2[j] == c[j]);
                }
            }
        }
    }
}

/// The words of a text are not empty, hold no white space, and have every
/// property that all characters of the text have.
pub proof fn lemma_words_shape(s: Seq<char>, p: spec_fn(char) -> bool)
    requires
        all_chars(s, p),
    ensures
        forall|k: int|
            0 <= k < words(s).len() ==> #[trigger] words(s)[k].len() > 0 && all_chars(
                words(s)[k],
                p,
            ) && all_chars(words(s)[k], |c: char| !is_white_space(c)),
{
    lemma_split_scan_shape(s, p);
    let (d, c) = split_scan(s);
    if c.len() > 0 {
        assert forall|k: int| 0 <= k < words(s).len() implies #[trigger] words(s)[k].len() > 0
            && all_chars(words(s)[k], p) && all_chars(
            words(s)[k],
            |c: char| !is_white_space(c),
        ) by {
            if k < d.len() {
                assert(words(s)[k] == d[k]);
            } else {
                assert(words(s)[k] == c);
            }
        }
    }
}

/// Copies `s[from..to]` into a new vector.
pub fn copy_range(s: &[char], from: usize, to: usize) -> (r: Vec<char>)
    requires
        from <= to <= s@.len(),
    ensures
        r@ == s@.subrange(from as int, to as int),
{
    let mut r: Vec<char> = Vec::new();
    let mut i = from;
    while i < to
        invariant
            from <= i <= to <= s@.len(),
            r@ == s@.subrange(from as int, i as int),
        decreases to - i,
    {
        r.push(s[i]);
        i = i + 1;
    }
    r
}

/// `s` without leading and trailing white space.
pub fn trim_chars(s: &[char]) -> (r: Vec<char>)
    ensures
        r@ == trim_spec(s@),
        is_trimmed(r@),
{
    let n = s.len();
    let mut a: usize = 0;
    assert(s@.subrange(0, n as int) == s@);
    while a < n && is_whitespace(s[a])
        invariant
            a <= n == s@.len(),
            trim_start_spec(s@) == trim_start_spec(s@.subrange(a as int, n as int)),
        decreases n - a,
    {
        assert(s@.subrange(a as int, n as int).drop_first() == s@.subrange(a + 1, n as int));
        a = a + 1;
    }
    assert(trim_start_spec(s@) == s@.subrange(a as int, n as int));
    let mut b: usize = n;
    while b > a && is_whitespace(s[b - 1])
        invariant
            a <= b <= n == s@.len(),
            trim_spec(s@) == trim_end_spec(s@.subrange(a as int, b as int)),
        decreases b - a,
    {
        assert(s@.subrange(a as int, b as int).drop_last() == s@.subrange(a as int, b - 1));
        b = b - 1;
    }
    let r = copy_range(s, a, b);
    proof {
        lemma_trim_is_subrange(s@);
    }
    r
}

/// The words of `s`: its maximal runs of non-white-space characters.
pub fn split_words(s: &[char]) -> (r: Vec<Vec<char>>)
    ensures
        views(r@) == words(s@),
{
    let mut done: Vec<Vec<char>> = Vec::new();
    let mut cur: Vec<char> = Vec::new();
    let n = s.len();
    for i in 0..n
        invariant
            n == s@.len(),
            (views(done@), cur@) == split_scan(s@.take(i as int)),
    {
        let c = s[i];
        assert(s@.take(i + 1).drop_last() == s@.take(i as int));
        if is_whitespace(c) {
            if cur.len() > 0 {
                let w = cur;
                done.push(w);
                cur = Vec::new();
                assert(views(done@) == split_scan(s@.take(i as int)).0.push(w@));
            }
        } else {
            cur.push(c);
        }
    }
    assert(s@.take(n as int) == s@);
    if cur.len() > 0 {
        let w = cur;
        done.push(w);
        assert(views(done@) == split_scan(s@).0.push(w@));
    }
    done
}

/// `parts` joined with `sep` between each two neighbours.
pub fn join_chars(parts: &Vec<Vec<char>>, sep: &[char]) -> (r: Vec<char>)
    ensures
        r@ == join(views(parts@), sep@),
{
    let mut r: Vec<char> = Vec::new();
    let n = parts.len();
    for i in 0..n
        invariant
            n == parts@.len(),
            r@ == join(views(parts@).take(i as int), sep@),
    {
        assert(views(parts@).take(i + 1).drop_last() == views(parts@).take(i as int));
        if i > 0 {
            append_chars(&mut r, sep);
        }
        append_chars(&mut r, parts[i].as_slice());
    }
    assert(views(parts@).take(n as int) == views(parts@));
    r
}

/// Appends the characters of `s` to `r`.
pub fn append_chars(r: &mut Vec<char>, s: &[char])
    ensures
        final(r)@ == old(r)@ + s@,
{
    let n = s.len();
    for i in 0..n
        invariant
            n == s@.len(),
            r@ == old(r)@ + s@.take(i as int),
    {
        r.push(s[i]);
        assert(old(r)@ + s@.take(i + 1) == (old(r)@ + s@.take(i as int)).push(s@[i as int]));
    }
    assert(s@.take(n as int) == s@);
}

/// Whether `s` begins with `prefix`.
pub fn starts_with(s: &[char], prefix: &[char]) -> (b: bool)
    ensures
        b == (prefix@.len() <= s@.len() && s@.subrange(0, prefix@.len() as int) == prefix@),
{
    if prefix.len() > s.len() {
        return false;
    }
    let n = prefix.len();
    for i in 0..n
        invariant
            n == prefix@.len() <= s@.len(),
            forall|j: int| 0 <= j < i ==> s@[j] == prefix@[j],
    {
        if s[i] != prefix[i] {
            assert(s@.subrange(0, n as int)[i as int] != prefix@[i as int]);
            return false;
        }
    }
    assert(s@.subrange(0, n as int) == prefix@);
    true
}

/// Whether `a` and `b` hold the same characters.
pub fn chars_equal(a: &[char], b: &[char]) -> (r: bool)
    ensures
        r == (a@ == b@),
{
    if a.len() != b.len() {
        return false;
    }
    assert(a@.subrange(0, a@.len() as int) == a@);
    starts_with(a, b)
}

} // verus!
