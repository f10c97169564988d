//! The normal form described directly: the runs of the characters that it
//! keeps, each folded, joined by single spaces; and what follows from that for
//! two texts joined by a space.

use vstd::prelude::*;

use crate::chars::is_white_space;
use crate::normalize::{
    fold_char, is_ascii_spelled, is_ascii_word_char, is_folded, latin_base, lemma_fold_char_folded,
    lemma_latin_base_ascii, lemma_normalize_is_normal, normalize_scan, normalize_spec,
};
use crate::text::{join, lemma_trim_of_trimmed, lemma_words_concat, trim_end_spec, trim_spec, trim_start_spec, words};

verus! {

/// The runs of kept characters of `s` as a left-to-right scan finds them, each
/// folded: the finished runs and the run being read.
pub open spec fn run_scan(s: Seq<char>) -> (Seq<Seq<char>>, Seq<char>)
    decreases s.len(),
{
    if s.len() == 0 {
        (seq![], seq![])
    } else {
        let (done, cur) = run_scan(s.drop_last());
        match fold_char(s.last()) {
            Some(m) => (done, cur + m),
            None => if cur.len() > 0 {
                (done.push(cur), seq![])
            } else {
                (done, cur)
            },
        }
    }
}

/// The maximal runs of characters of `s` that the normal form keeps, each
/// folded, in order.
pub open spec fn folded_runs(s: Seq<char>) -> Seq<Seq<char>> {
    let (done, cur) = run_scan(s);
    if cur.len() > 0 {
        done.push(cur)
    } else {
        done
    }
}

/// Every element of `ts` is not empty.
pub open spec fn all_nonempty(ts: Seq<Seq<char>>) -> bool {
    forall|k: int| 0 <= k < ts.len() ==> (#[trigger] ts[k]).len() > 0
}

/// Every character of every element of `ts` is folded.
pub open spec fn all_folded(ts: Seq<Seq<char>>) -> bool {
    forall|k: int, j: int| 0 <= k < ts.len() && 0 <= j < ts[k].len() ==> is_folded(#[trigger] ts[k][j])
}

/// Joining one more part.
proof fn lemma_join_push(d: Seq<Seq<char>>, x: Seq<char>, sep: Seq<char>)
    ensures
        join(d.push(x), sep) == if d.len() == 0 {
            x
        } else {
            join(d, sep) + sep + x
        },
{
    assert(d.push(x).drop_last() == d);
    assert(d.push(x).last() == x);
    if d.len() == 0 {
        assert(d.push(x)[0] == x);
    }
}

/// A join of parts that are not empty is at least as long as its last part,
/// and empty only when there are no parts.
proof fn lemma_join_len(d: Seq<Seq<char>>, sep: Seq<char>)
    requires
        all_nonempty(d),
    ensures
        d.len() > 0 ==> join(d, sep).len() >= d.last().len() > 0,
        (join(d, sep).len() == 0) <==> (d.len() == 0),
{
    if d.len() > 0 {
        assert(d.last() == d[d.len() - 1]);
        if d.len() > 1 {
            assert(join(d, sep) == join(d.drop_last(), sep) + sep + d.last());
        }
    }
}

/// Parts that are not empty and made of folded characters, joined by single
/// spaces, start and end with a folded character.
proof fn lemma_join_ends(d: Seq<Seq<char>>)
    requires
        all_nonempty(d),
        all_folded(d),
        d.len() > 0,
    ensures
        is_folded(join(d, seq![' '])[0]),
        is_folded(join(d, seq![' ']).last()),
    decreases d.len(),
{
    let j = join(d, seq![' ']);
    let t = d.last();
    assert(t == d[d.len() - 1]);
    assert(is_folded(t[t.len() - 1]));
    if d.len() == 1 {
        assert(is_folded(d[0][0]));
    } else {
        let p = d.drop_last();
        assert forall|k: int| 0 <= k < p.len() implies (#[trigger] p[k]).len() > 0 by {
            assert(p[k] == d[k]);
        }
        assert forall|k: int, i: int| 0 <= k < p.len() && 0 <= i < p[k].len() implies is_folded(
            #[trigger] p[k][i],
        ) by {
            assert(p[k] == d[k]);
        }
        lemma_join_ends(p);
        lemma_join_len(p, seq![' ']);
        assert(j == join(p, seq![' ']) + seq![' '] + t);
        assert(j[0] == join(p, seq![' '])[0]);
        assert(j.last() == t.last());
    }
}

/// What the scan of the normal form has produced, told by the runs read so far.
proof fn lemma_scan_runs(s: Seq<char>)
    ensures
        all_nonempty(run_scan(s).0),
        all_folded(run_scan(s).0),
        forall|j: int| 0 <= j < run_scan(s).1.len() ==> is_folded(#[trigger] run_scan(s).1[j]),
        run_scan(s).1.len() > 0 ==> normalize_scan(s) == (
            join(run_scan(s).0.push(run_scan(s).1), seq![' ']),
            false,
        ),
        run_scan(s).1.len() == 0 && run_scan(s).0.len() == 0 ==> normalize_scan(s) == (
            Seq::<char>::empty(),
            false,
        ),
        run_scan(s).1.len() == 0 && run_scan(s).0.len() > 0 ==> normalize_scan(s) == (
            join(run_scan(s).0, seq![' ']) + seq![' '],
            true,
        ),
    decreases s.len(),
{
    if s.len() > 0 {
        let p = s.drop_last();
        lemma_scan_runs(p);
        let (r0, l0) = normalize_scan(p);
        let (d0, c0) = run_scan(p);
        let sp = seq![' '];
        lemma_fold_char_folded(s.last());
        match fold_char(s.last()) {
            Some(m) => {
                let c = c0 + m;
                assert(run_scan(s) == (d0, c));
                assert forall|j: int| 0 <= j < c.len() implies is_folded(#[trigger] c[j]) by {
                    if j < c0.len() {
                        assert(c[j] == c0[j]);
                    } else {
                        assert(c[j] == m[j - c0.len()]);
                    }
                }
                lemma_join_push(d0, c, sp);
                if c0.len() > 0 {
                    lemma_join_push(d0, c0, sp);
                    if d0.len() > 0 {
                        assert(join(d0, sp) + sp + c0 + m == join(d0, sp) + sp + c);
                    }
                } else if d0.len() == 0 {
                    assert(Seq::<char>::empty() + m == c);
                } else {
                    assert(join(d0, sp) + sp + m == join(d0, sp) + sp + c);
                }
            },
            None => {
                if c0.len() > 0 {
                    let d = d0.push(c0);
                    assert(run_scan(s) == (d, Seq::<char>::empty()));
                    lemma_join_len(d0, sp);
                    lemma_join_push(d0, c0, sp);
                    assert(r0.len() > 0);
                    assert(r0.push(' ') == join(d, sp) + sp);
                    assert forall|k: int| 0 <= k < d.len() implies (#[trigger] d[k]).len() > 0 by {
                        if k < d0.len() {
                            assert(d[k] == d0[k]);
                        }
                    }
                    assert forall|k: int, j: int| 0 <= k < d.len() && 0 <= j < d[k].len() implies is_folded(
                        #[trigger] d[k][j],
                    ) by {
                        if k < d0.len() {
                            assert(d[k] == d0[k]);
                        } else {
                            assert(d[k] == c0);
                        }
                    }
                }
            },
        }
    }
}

/// Text whose ends are folded characters, and one more space at its end.
proof fn lemma_trim_trailing_space(x: Seq<char>)
    requires
        x.len() > 0,
        is_folded(x[0]),
        is_folded(x.last()),
    ensures
        trim_spec(x + seq![' ']) == x,
{
    let y = x + seq![' '];
    assert(y[0] == x[0]);
    assert(!is_white_space(y[0]));
    assert(trim_start_spec(y) == y);
    assert(y.last() == ' ');
    assert(y.drop_last() == x);
    assert(trim_end_spec(x) == x);
    assert(trim_end_spec(y) == trim_end_spec(x));
}

/// The normal form of `s` is the runs of the characters it keeps, each
/// folded, joined by single spaces; none of the runs is empty.
pub proof fn lemma_normalize_is_joined_runs(s: Seq<char>)
    ensures
        normalize_spec(s) == join(folded_runs(s), seq![' ']),
        all_nonempty(folded_runs(s)),
{
    lemma_scan_runs(s);
    let (d, c) = run_scan(s);
    let r = normalize_scan(s).0;
    let sp = seq![' '];
    if c.len() > 0 {
        let f = d.push(c);
        assert forall|k: int| 0 <= k < f.len() implies (#[trigger] f[k]).len() > 0 by {
            if k < d.len() {
                assert(f[k] == d[k]);
            }
        }
        assert forall|k: int, j: int| 0 <= k < f.len() && 0 <= j < f[k].len() implies is_folded(
            #[trigger] f[k][j],
        ) by {
            if k < d.len() {
                assert(f[k] == d[k]);
            } else {
                assert(f[k] == c);
            }
        }
        lemma_join_ends(f);
        lemma_trim_of_trimmed(r);
    } else if d.len() == 0 {
        lemma_trim_of_trimmed(r);
    } else {
        lemma_join_ends(d);
        lemma_join_len(d, sp);
        lemma_trim_trailing_space(join(d, sp));
    }
}

/// Scanning `s + t` after `s` ended between runs continues as a fresh scan of
/// `t`.
proof fn lemma_run_scan_concat(s: Seq<char>, t: Seq<char>)
    requires
        run_scan(s).1.len() == 0,
    ensures
        run_scan(s + t) == (run_scan(s).0 + run_scan(t).0, run_scan(t).1),
    decreases t.len(),
{
    if t.len() == 0 {
        assert(s + t == s);
        assert(run_scan(s).0 + Seq::<Seq<char>>::empty() == run_scan(s).0);
    } else {
        lemma_run_scan_concat(s, t.drop_last());
        assert((s + t).drop_last() == s + t.drop_last());
        assert((s + t).last() == t.last());
        let (d, c) = run_scan(t.drop_last());
        if fold_char(t.last()) is None && c.len() > 0 {
            assert((run_scan(s).0 + d).push(c) == run_scan(s).0 + d.push(c));
        }
    }
}

/// The runs of two texts joined by a space are the runs of the first followed
/// by the runs of the second.
pub proof fn lemma_runs_concat(a: Seq<char>, b: Seq<char>)
    ensures
        folded_runs(a + seq![' '] + b) == folded_runs(a) + folded_runs(b),
{
    let s = a + seq![' '];
    assert(s.drop_last() == a);
    assert(s.last() == ' ');
    lemma_latin_base_ascii(' ');
    assert(fold_char(' ') is None);
    assert(run_scan(s).0 == folded_runs(a));
    assert(run_scan(s).1.len() == 0);
    lemma_run_scan_concat(s, b);
    let (d, c) = run_scan(b);
    if c.len() > 0 {
        assert((folded_runs(a) + d).push(c) == folded_runs(a) + d.push(c));
    } else {
        assert(folded_runs(a) + d == folded_runs(a) + folded_runs(b));
    }
}

/// Joining the parts of two lists of non-empty parts: the two joins with a
/// separator between them when both are not empty.
proof fn lemma_join_concat(x: Seq<Seq<char>>, y: Seq<Seq<char>>, sep: Seq<char>)
    ensures
        join(x + y, sep) == if x.len() == 0 {
            join(y, sep)
        } else if y.len() == 0 {
            join(x, sep)
        } else {
            join(x, sep) + sep + join(y, sep)
        },
    decreases y.len(),
{
    if x.len() == 0 {
        assert(x + y == y);
    } else if y.len() == 0 {
        assert(x + y == x);
    } else {
        let yp = y.drop_last();
        lemma_join_concat(x, yp, sep);
        assert((x + y).drop_last() == x + yp);
        assert((x + y).last() == y.last());
        assert(x + y == (x + yp).push(y.last()));
        lemma_join_push(x + yp, y.last(), sep);
        lemma_join_push(yp, y.last(), sep);
        if yp.len() == 0 {
            assert(x + yp == x);
        } else {
            assert(join(x, sep) + sep + join(yp, sep) + sep + y.last() == join(x, sep) + sep + (
            join(yp, sep) + sep + y.last()));
        }
    }
}

/// The normal form of two texts joined by a space is the normal forms of the
/// two joined by a space, leaving out either one that is empty.
pub proof fn lemma_normalize_concat(a: Seq<char>, b: Seq<char>)
    ensures
        normalize_spec(a + seq![' '] + b) == if normalize_spec(a).len() == 0 {
            normalize_spec(b)
        } else if normalize_spec(b).len() == 0 {
            normalize_spec(a)
        } else {
            normalize_spec(a) + seq![' '] + normalize_spec(b)
        },
{
    lemma_normalize_is_joined_runs(a);
    lemma_normalize_is_joined_runs(b);
    lemma_normalize_is_joined_runs(a + seq![' '] + b);
    lemma_runs_concat(a, b);
    lemma_join_len(folded_runs(a), seq![' ']);
    lemma_join_len(folded_runs(b), seq![' ']);
    lemma_join_concat(folded_runs(a), folded_runs(b), seq![' ']);
}

/// The words of the normal form of two texts joined by a space are the words
/// of the normal form of the first followed by those of the second.
pub proof fn lemma_normal_words_concat(a: Seq<char>, b: Seq<char>)
    ensures
        words(normalize_spec(a + seq![' '] + b)) == words(normalize_spec(a)) + words(normalize_spec(b)),
{
    lemma_normalize_concat(a, b);
    let x = normalize_spec(a);
    let y = normalize_spec(b);
    assert(words(Seq::<char>::empty()) == Seq::<Seq<char>>::empty());
    if x.len() == 0 {
        assert(x == Seq::<char>::empty());
        assert(words(x) + words(y) == words(y));
    } else if y.len() == 0 {
        assert(y == Seq::<char>::empty());
        assert(words(x) + words(y) == words(x));
    } else {
        lemma_words_concat(x, y);
    }
}

/// The base letter of a Czech letter with diacritic marks, or of `ä`, `ë`,
/// `ö`, `ü`, in either case.
pub open spec fn czech_base(c: char) -> Option<char> {
    if c == 'á' || c == 'ä' || c == 'Á' || c == 'Ä' {
        Some('a')
    } else if c == 'č' || c == 'Č' {
        Some('c')
    } else if c == 'ď' || c == 'Ď' {
        Some('d')
    } else if c == 'é' || c == 'ě' || c == 'ë' || c == 'É' || c == 'Ě' || c == 'Ë' {
        Some('e')
    } else if c == 'í' || c == 'Í' {
        Some('i')
    } else if c == 'ň' || c == 'Ň' {
        Some('n')
    } else if c == 'ó' || c == 'ö' || c == 'Ó' || c == 'Ö' {
        Some('o')
    } else if c == 'ř' || c == 'Ř' {
        Some('r')
    } else if c == 'š' || c == 'Š' {
        Some('s')
    } else if c == 'ť' || c == 'Ť' {
        Some('t')
    } else if c == 'ú' || c == 'ů' || c == 'ü' || c == 'Ú' || c == 'Ů' || c == 'Ü' {
        Some('u')
    } else if c == 'ý' || c == 'Ý' {
        Some('y')
    } else if c == 'ž' || c == 'Ž' {
        Some('z')
    } else {
        None
    }
}

/// Every Czech letter with diacritic marks, in either case, normalises to its
/// ASCII base letter: the normal form keeps it as that one letter.
pub proof fn lemma_czech_letter_is_base(c: char)
    requires
        czech_base(c) is Some,
    ensures
        latin_base(c) == seq![czech_base(c).unwrap()],
        fold_char(c) == Some(seq![czech_base(c).unwrap()]),
        normalize_spec(seq![c]) == seq![czech_base(c).unwrap()],
{
    let b = czech_base(c).unwrap();
    assert(latin_base(c) == seq![b]) by {
        reveal(latin_base);
    }
    assert(fold_char(c) == Some(seq![b]));
    let s = seq![c];
    assert(s.drop_last() =~= Seq::<char>::empty());
    assert(s.last() == c);
    assert(normalize_scan(Seq::<char>::empty()) == (Seq::<char>::empty(), false));
    assert(normalize_scan(s).0 == Seq::<char>::empty() + seq![b]);
    assert(Seq::<char>::empty() + seq![b] == seq![b]);
    assert(!is_white_space(b));
    lemma_trim_of_trimmed(seq![b]);
}

/// Czech text normalises to ASCII: text whose characters are ASCII or Czech
/// letters with diacritic marks comes out as ASCII lower-case letters, digits
/// and single spaces.
pub proof fn lemma_czech_text_is_ascii(s: Seq<char>)
    requires
        forall|i: int| 0 <= i < s.len() ==> #[trigger] s[i] <= '\x7f' || czech_base(s[i]) is Some,
    ensures
        forall|i: int|
            0 <= i < normalize_spec(s).len() ==> #[trigger] normalize_spec(s)[i] == ' '
                || is_ascii_word_char(normalize_spec(s)[i]),
{
    assert forall|i: int| 0 <= i < s.len() implies #[trigger] s[i] <= '\x7f' || latin_base(s[i]).len()
        > 0 by {
        if czech_base(s[i]) is Some {
            lemma_czech_letter_is_base(s[i]);
        }
    }
    assert(is_ascii_spelled(s));
    lemma_normalize_is_normal(s);
}

} // verus!
