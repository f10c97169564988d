//! The normal form in which addresses are indexed and searched: Czech letters
//! without diacritics, ASCII in lower case, runs of other characters collapsed
//! to one space; and the padding of short numeric tokens.

use vstd::prelude::*;
use vstd::utf8::encode_utf8;

use crate::chars::{
    ascii_lower, char_is_alphanumeric, char_is_numeric, char_to_lowercase, chars_of,
    is_alphanumeric, is_numeric, is_white_space, is_whitespace, string_from_chars,
    to_ascii_lowercase, unicode_lowercase,
};
use crate::normal_form::{folded_runs, lemma_normalize_is_joined_runs};
use crate::numbers::{all_digits, is_digit};
use crate::text::{
    all_chars, append_chars, is_trimmed, join, lemma_trim_is_subrange, lemma_trim_of_trimmed, trim_chars,
    trim_spec,
};

verus! {

/// The base letter, in ASCII lower case, of a Latin letter outside ASCII that
/// is an ASCII letter with diacritic marks or in another form: one letter for
/// one character (`Ř` → `r`, `ź` → `z`, `ộ` → `o`, `ⱥ` → `a`, `Ａ` → `a`).
/// It covers the characters whose Unicode name is a Latin capital or small
/// letter `A`–`Z`, plain or `WITH` marks, also fullwidth, circled, small
/// capital, dotless, subscript, superscript or as a modifier letter, the long
/// s, and `ª` and `º`. Letters of their own, ligatures and digraphs (`ß`, `æ`,
/// `œ`, `þ`, `ð`, `ŋ`, `ĳ`, `ǆ`) have none and stay letters of their own; for
/// every character outside the table it is empty.
#[verifier::opaque]
pub open spec fn latin_base(c: char) -> Seq<char> {
    if c == '\u{aa}' || ('\u{c0}' <= c && c <= '\u{c5}') || ('\u{e0}' <= c && c <= '\u{e5}') || ('\u{100}' <= c && c <= '\u{105}') || c == '\u{1cd}' || c == '\u{1ce}' || ('\u{1de}' <= c && c <= '\u{1e1}') || c == '\u{1fa}' || c == '\u{1fb}' || ('\u{200}' <= c && c <= '\u{203}') || c == '\u{226}' || c == '\u{227}' || c == '\u{23a}' || c == '\u{1d00}' || c == '\u{1d2c}' || c == '\u{1d43}' || c == '\u{1d8f}' || c == '\u{1e00}' || c == '\u{1e01}' || c == '\u{1e9a}' || ('\u{1ea0}' <= c && c <= '\u{1eb7}') || c == '\u{2090}' || c == '\u{24b6}' || c == '\u{24d0}' || c == '\u{2c65}' || c == '\u{ff21}' || c == '\u{ff41}' {
        seq!['a']
    } else if ('\u{180}' <= c && c <= '\u{183}') || c == '\u{243}' || c == '\u{253}' || c == '\u{299}' || c == '\u{1d2e}' || c == '\u{1d47}' || c == '\u{1d6c}' || c == '\u{1d80}' || ('\u{1e02}' <= c && c <= '\u{1e07}') || c == '\u{24b7}' || c == '\u{24d1}' || c == '\u{a796}' || c == '\u{a797}' || c == '\u{ff22}' || c == '\u{ff42}' || c == '\u{10785}' {
        seq!['b']
    } else if c == '\u{c7}' || c == '\u{e7}' || ('\u{106}' <= c && c <= '\u{10d}') || c == '\u{187}' || c == '\u{188}' || c == '\u{23b}' || c == '\u{23c}' || c == '\u{255}' || c == '\u{1d04}' || c == '\u{1d9c}' || c == '\u{1d9d}' || c == '\u{1e08}' || c == '\u{1e09}' || c == '\u{24b8}' || c == '\u{24d2}' || ('\u{a792}' <= c && c <= '\u{a794}') || c == '\u{a7c4}' || c == '\u{a7f2}' || c == '\u{ff23}' || c == '\u{ff43}' || c == '\u{1df1d}' {
        seq!['c']
    } else if ('\u{10e}' <= c && c <= '\u{111}') || ('\u{18a}' <= c && c <= '\u{18c}') || c == '\u{221}' || c == '\u{256}' || c == '\u{257}' || c == '\u{1d05}' || c == '\u{1d30}' || c == '\u{1d48}' || c == '\u{1d6d}' || c == '\u{1d81}' || c == '\u{1d91}' || ('\u{1e0a}' <= c && c <= '\u{1e13}') || c == '\u{24b9}' || c == '\u{24d3}' || c == '\u{a7c7}' || c == '\u{a7c8}' || c == '\u{ff24}' || c == '\u{ff44}' || ('\u{1078b}' <= c && c <= '\u{1078d}') {
        seq!['d']
    } else if ('\u{c8}' <= c && c <= '\u{cb}') || ('\u{e8}' <= c && c <= '\u{eb}') || ('\u{112}' <= c && c <= '\u{11b}') || ('\u{204}' <= c && c <= '\u{207}') || c == '\u{228}' || c == '\u{229}' || c == '\u{246}' || c == '\u{247}' || c == '\u{1d07}' || c == '\u{1d31}' || c == '\u{1d49}' || c == '\u{1d92}' || ('\u{1e14}' <= c && c <= '\u{1e1d}') || ('\u{1eb8}' <= c && c <= '\u{1ec7}') || c == '\u{2091}' || c == '\u{24ba}' || c == '\u{24d4}' || c == '\u{2c78}' || c == '\u{ab34}' || c == '\u{ff25}' || c == '\u{ff45}' {
        seq!['e']
    } else if c == '\u{191}' || c == '\u{192}' || c == '\u{1d6e}' || c == '\u{1d82}' || c == '\u{1da0}' || c == '\u{1e1e}' || c == '\u{1e1f}' || c == '\u{24bb}' || c == '\u{24d5}' || c == '\u{a730}' || c == '\u{a798}' || c == '\u{a799}' || c == '\u{a7f3}' || c == '\u{ff26}' || c == '\u{ff46}' {
        seq!['f']
    } else if ('\u{11c}' <= c && c <= '\u{123}') || c == '\u{193}' || ('\u{1e4}' <= c && c <= '\u{1e7}') || c == '\u{1f4}' || c == '\u{1f5}' || c == '\u{260}' || c == '\u{262}' || c == '\u{29b}' || c == '\u{1d33}' || c == '\u{1d4d}' || c == '\u{1d83}' || c == '\u{1e20}' || c == '\u{1e21}' || c == '\u{24bc}' || c == '\u{24d6}' || c == '\u{a7a0}' || c == '\u{a7a1}' || c == '\u{ff27}' || c == '\u{ff47}' || c == '\u{10793}' {
        seq!['g']
    } else if ('\u{124}' <= c && c <= '\u{127}') || c == '\u{21e}' || c == '\u{21f}' || c == '\u{266}' || c == '\u{29c}' || c == '\u{2b0}' || c == '\u{2b1}' || c == '\u{1d34}' || ('\u{1e22}' <= c && c <= '\u{1e2b}') || c == '\u{1e96}' || c == '\u{2095}' || c == '\u{24bd}' || c == '\u{24d7}' || c == '\u{2c67}' || c == '\u{2c68}' || c == '\u{a795}' || c == '\u{a7aa}' || c == '\u{a7f8}' || c == '\u{ff28}' || c == '\u{ff48}' || c == '\u{10795}' {
        seq!['h']
    } else if ('\u{cc}' <= c && c <= '\u{cf}') || ('\u{ec}' <= c && c <= '\u{ef}') || ('\u{128}' <= c && c <= '\u{131}') || c == '\u{197}' || c == '\u{1cf}' || c == '\u{1d0}' || ('\u{208}' <= c && c <= '\u{20b}') || c == '\u{268}' || c == '\u{26a}' || c == '\u{1d35}' || c == '\u{1d62}' || c == '\u{1d96}' || c == '\u{1da4}' || ('\u{1e2c}' <= c && c <= '\u{1e2f}') || ('\u{1ec8}' <= c && c <= '\u{1ecb}') || c == '\u{24be}' || c == '\u{24d8}' || c == '\u{ff29}' || c == '\u{ff49}' || c == '\u{1df1a}' {
        seq!['i']
    } else if c == '\u{134}' || c == '\u{135}' || c == '\u{1f0}' || c == '\u{237}' || c == '\u{248}' || c == '\u{249}' || c == '\u{25f}' || c == '\u{284}' || c == '\u{29d}' || c == '\u{2b2}' || c == '\u{1d0a}' || c == '\u{1d36}' || c == '\u{1da8}' || c == '\u{24bf}' || c == '\u{24d9}' || c == '\u{2c7c}' || c == '\u{a7b2}' || c == '\u{ff2a}' || c == '\u{ff4a}' {
        seq!['j']
    } else if c == '\u{136}' || c == '\u{137}' || c == '\u{198}' || c == '\u{199}' || c == '\u{1e8}' || c == '\u{1e9}' || c == '\u{1d0b}' || c == '\u{1d37}' || c == '\u{1d4f}' || c == '\u{1d84}' || ('\u{1e30}' <= c && c <= '\u{1e35}') || c == '\u{2096}' || c == '\u{24c0}' || c == '\u{24da}' || c == '\u{2c69}' || c == '\u{2c6a}' || ('\u{a740}' <= c && c <= '\u{a745}') || c == '\u{a7a2}' || c == '\u{a7a3}' || c == '\u{ff2b}' || c == '\u{ff4b}' {
        seq!['k']
    } else if ('\u{139}' <= c && c <= '\u{142}') || c == '\u{19a}' || c == '\u{234}' || c == '\u{23d}' || ('\u{26b}' <= c && c <= '\u{26d}') || c == '\u{29f}' || c == '\u{2e1}' || c == '\u{1d0c}' || c == '\u{1d38}' || c == '\u{1d85}' || c == '\u{1da9}' || c == '\u{1daa}' || ('\u{1e36}' <= c && c <= '\u{1e3d}') || c == '\u{2097}' || c == '\u{24c1}' || c == '\u{24db}' || ('\u{2c60}' <= c && c <= '\u{2c62}') || c == '\u{a748}' || c == '\u{a749}' || c == '\u{a78e}' || c == '\u{a7ad}' || ('\u{ab37}' <= c && c <= '\u{ab39}') || c == '\u{ab5d}' || c == '\u{ab5e}' || c == '\u{ff2c}' || c == '\u{ff4c}' || c == '\u{1079b}' || c == '\u{1079d}' || c == '\u{1df04}' || c == '\u{1df11}' || c == '\u{1df13}' {
        seq!['l']
    } else if c == '\u{271}' || c == '\u{1d0d}' || c == '\u{1d39}' || c == '\u{1d50}' || c == '\u{1d6f}' || c == '\u{1d86}' || c == '\u{1dac}' || ('\u{1e3e}' <= c && c <= '\u{1e43}') || c == '\u{2098}' || c == '\u{24c2}' || c == '\u{24dc}' || c == '\u{2c6e}' || c == '\u{ab3a}' || c == '\u{ff2d}' || c == '\u{ff4d}' {
        seq!['m']
    } else if c == '\u{d1}' || c == '\u{f1}' || ('\u{143}' <= c && c <= '\u{149}') || c == '\u{19d}' || c == '\u{19e}' || c == '\u{1f8}' || c == '\u{1f9}' || c == '\u{220}' || c == '\u{235}' || ('\u{272}' <= c && c <= '\u{274}') || c == '\u{1d3a}' || c == '\u{1d70}' || c == '\u{1d87}' || c == '\u{1dae}' || c == '\u{1daf}' || ('\u{1e44}' <= c && c <= '\u{1e4b}') || c == '\u{2099}' || c == '\u{24c3}' || c == '\u{24dd}' || c == '\u{a790}' || c == '\u{a791}' || c == '\u{a7a4}' || c == '\u{a7a5}' || c == '\u{ab3b}' || c == '\u{ff2e}' || c == '\u{ff4e}' {
        seq!['n']
    } else if c == '\u{ba}' || ('\u{d2}' <= c && c <= '\u{d6}') || c == '\u{d8}' || ('\u{f2}' <= c && c <= '\u{f6}') || c == '\u{f8}' || ('\u{14c}' <= c && c <= '\u{151}') || ('\u{19f}' <= c && c <= '\u{1a1}') || c == '\u{1d1}' || c == '\u{1d2}' || ('\u{1ea}' <= c && c <= '\u{1ed}') || c == '\u{1fe}' || c == '\u{1ff}' || ('\u{20c}' <= c && c <= '\u{20f}') || ('\u{22a}' <= c && c <= '\u{231}') || c == '\u{1d0f}' || c == '\u{1d3c}' || c == '\u{1d52}' || ('\u{1e4c}' <= c && c <= '\u{1e53}') || ('\u{1ecc}' <= c && c <= '\u{1ee3}') || c == '\u{2092}' || c == '\u{24c4}' || c == '\u{24de}' || c == '\u{2c7a}' || ('\u{a74a}' <= c && c <= '\u{a74d}') || c == '\u{ff2f}' || c == '\u{ff4f}' || c == '\u{107a2}' || c == '\u{1df1b}' {
        seq!['o']
    } else if c == '\u{1a4}' || c == '\u{1a5}' || c == '\u{1d18}' || c == '\u{1d3e}' || c == '\u{1d56}' || c == '\u{1d71}' || c == '\u{1d7d}' || c == '\u{1d88}' || ('\u{1e54}' <= c && c <= '\u{1e57}') || c == '\u{209a}' || c == '\u{24c5}' || c == '\u{24df}' || c == '\u{2c63}' || ('\u{a750}' <= c && c <= '\u{a755}') || c == '\u{ff30}' || c == '\u{ff50}' {
        seq!['p']
    } else if c == '\u{24b}' || c == '\u{2a0}' || c == '\u{24c6}' || c == '\u{24e0}' || ('\u{a756}' <= c && c <= '\u{a759}') || c == '\u{a7af}' || c == '\u{a7f4}' || c == '\u{ff31}' || c == '\u{ff51}' || c == '\u{107a5}' {
        seq!['q']
    } else if ('\u{154}' <= c && c <= '\u{159}') || ('\u{210}' <= c && c <= '\u{213}') || c == '\u{24c}' || c == '\u{24d}' || ('\u{27c}' <= c && c <= '\u{27e}') || c == '\u{280}' || c == '\u{2b3}' || c == '\u{1d3f}' || c == '\u{1d63}' || c == '\u{1d72}' || c == '\u{1d73}' || c == '\u{1d89}' || ('\u{1e58}' <= c && c <= '\u{1e5f}') || c == '\u{24c7}' || c == '\u{24e1}' || c == '\u{2c64}' || c == '\u{a7a6}' || c == '\u{a7a7}' || c == '\u{ab46}' || c == '\u{ab49}' || c == '\u{ff32}' || c == '\u{ff52}' || c == '\u{107a8}' || c == '\u{107a9}' || c == '\u{1df16}' {
        seq!['r']
    } else if ('\u{15a}' <= c && c <= '\u{161}') || c == '\u{17f}' || c == '\u{218}' || c == '\u{219}' || c == '\u{23f}' || c == '\u{282}' || c == '\u{2e2}' || c == '\u{1d74}' || c == '\u{1d8a}' || c == '\u{1db3}' || ('\u{1e60}' <= c && c <= '\u{1e69}') || ('\u{1e9b}' <= c && c <= '\u{1e9d}') || c == '\u{209b}' || c == '\u{24c8}' || c == '\u{24e2}' || c == '\u{2c7e}' || c == '\u{a731}' || c == '\u{a7a8}' || c == '\u{a7a9}' || c == '\u{a7c5}' || c == '\u{a7c9}' || c == '\u{a7ca}' || c == '\u{ff33}' || c == '\u{ff53}' || c == '\u{107ba}' || c == '\u{1df1e}' {
        seq!['s']
    } else if ('\u{162}' <= c && c <= '\u{167}') || ('\u{1ab}' <= c && c <= '\u{1ae}') || c == '\u{21a}' || c == '\u{21b}' || c == '\u{236}' || c == '\u{23e}' || c == '\u{288}' || c == '\u{1d1b}' || c == '\u{1d40}' || c == '\u{1d57}' || c == '\u{1d75}' || c == '\u{1db5}' || ('\u{1e6a}' <= c && c <= '\u{1e71}') || c == '\u{1e97}' || c == '\u{209c}' || c == '\u{24c9}' || c == '\u{24e3}' || c == '\u{2c66}' || c == '\u{ff34}' || c == '\u{ff54}' || c == '\u{107af}' || c == '\u{1df09}' {
        seq!['t']
    } else if ('\u{d9}' <= c && c <= '\u{dc}') || ('\u{f9}' <= c && c <= '\u{fc}') || ('\u{168}' <= c && c <= '\u{173}') || c == '\u{1af}' || c == '\u{1b0}' || ('\u{1d3}' <= c && c <= '\u{1dc}') || ('\u{214}' <= c && c <= '\u{217}') || c == '\u{1d1c}' || c == '\u{1d41}' || c == '\u{1d58}' || c == '\u{1d64}' || c == '\u{1d99}' || ('\u{1e72}' <= c && c <= '\u{1e7b}') || ('\u{1ee4}' <= c && c <= '\u{1ef1}') || c == '\u{24ca}' || c == '\u{24e4}' || c == '\u{a7b8}' || c == '\u{a7b9}' || c == '\u{ab4e}' || c == '\u{ab52}' || c == '\u{ab5f}' || c == '\u{ff35}' || c == '\u{ff55}' {
        seq!['u']
    } else if c == '\u{1b2}' || c == '\u{28b}' || c == '\u{1d20}' || c == '\u{1d5b}' || c == '\u{1d65}' || c == '\u{1d8c}' || c == '\u{1db9}' || ('\u{1e7c}' <= c && c <= '\u{1e7f}') || c == '\u{24cb}' || c == '\u{24e5}' || c == '\u{2c71}' || c == '\u{2c74}' || c == '\u{2c7d}' || c == '\u{a75e}' || c == '\u{a75f}' || c == '\u{ff36}' || c == '\u{ff56}' || c == '\u{107b0}' {
        seq!['v']
    } else if c == '\u{174}' || c == '\u{175}' || c == '\u{2b7}' || c == '\u{1d21}' || c == '\u{1d42}' || ('\u{1e80}' <= c && c <= '\u{1e89}') || c == '\u{1e98}' || c == '\u{24cc}' || c == '\u{24e6}' || c == '\u{2c72}' || c == '\u{2c73}' || c == '\u{ff37}' || c == '\u{ff57}' {
        seq!['w']
    } else if c == '\u{2e3}' || c == '\u{1d8d}' || ('\u{1e8a}' <= c && c <= '\u{1e8d}') || c == '\u{2093}' || c == '\u{24cd}' || c == '\u{24e7}' || ('\u{ab56}' <= c && c <= '\u{ab59}') || c == '\u{ff38}' || c == '\u{ff58}' {
        seq!['x']
    } else if c == '\u{dd}' || c == '\u{fd}' || c == '\u{ff}' || ('\u{176}' <= c && c <= '\u{178}') || c == '\u{1b3}' || c == '\u{1b4}' || c == '\u{232}' || c == '\u{233}' || c == '\u{24e}' || c == '\u{24f}' || c == '\u{28f}' || c == '\u{2b8}' || c == '\u{1e8e}' || c == '\u{1e8f}' || c == '\u{1e99}' || ('\u{1ef2}' <= c && c <= '\u{1ef9}') || c == '\u{1efe}' || c == '\u{1eff}' || c == '\u{24ce}' || c == '\u{24e8}' || c == '\u{ab5a}' || c == '\u{ff39}' || c == '\u{ff59}' {
        seq!['y']
    } else if ('\u{179}' <= c && c <= '\u{17e}') || c == '\u{1b5}' || c == '\u{1b6}' || c == '\u{224}' || c == '\u{225}' || c == '\u{240}' || c == '\u{290}' || c == '\u{291}' || c == '\u{1d22}' || c == '\u{1d76}' || c == '\u{1d8e}' || ('\u{1dbb}' <= c && c <= '\u{1dbd}') || ('\u{1e90}' <= c && c <= '\u{1e95}') || c == '\u{24cf}' || c == '\u{24e9}' || c == '\u{2c6b}' || c == '\u{2c6c}' || c == '\u{2c7f}' || c == '\u{a7c6}' || c == '\u{ff3a}' || c == '\u{ff5a}' {
        seq!['z']
    } else {
        seq![]
    }
}

/// A character of a lower-case mapping, folded: a letter of the table to its
/// ASCII base letter, white space to nothing, anything else to its ASCII lower case.
pub open spec fn fold_lower_char(d: char) -> Seq<char> {
    if latin_base(d).len() > 0 {
        latin_base(d)
    } else if is_white_space(d) {
        seq![]
    } else {
        seq![ascii_lower(d)]
    }
}

/// A lower-case mapping with each character folded.
pub open spec fn fold_lowercase(s: Seq<char>) -> Seq<char>
    decreases s.len(),
{
    if s.len() == 0 {
        seq![]
    } else {
        fold_lowercase(s.drop_last()) + fold_lower_char(s.last())
    }
}

/// What a character becomes in the normal form: a letter of the table its
/// ASCII base letter; another alphanumeric character its lower case (ASCII directly,
/// the rest by the Unicode lower-case mapping), folded; or nothing, which makes
/// it a separator.
pub open spec fn fold_char(c: char) -> Option<Seq<char>> {
    if latin_base(c).len() > 0 {
        Some(latin_base(c))
    } else if is_alphanumeric(c) {
        if c <= '\x7f' {
            Some(seq![ascii_lower(c)])
        } else if fold_lowercase(unicode_lowercase(c)).len() > 0 {
            Some(fold_lowercase(unicode_lowercase(c)))
        } else {
            None
        }
    } else {
        None
    }
}

/// The left-to-right scan of `normalize`: the characters produced so far and
/// whether the last one is a separating space.
pub open spec fn normalize_scan(s: Seq<char>) -> (Seq<char>, bool)
    decreases s.len(),
{
    if s.len() == 0 {
        (seq![], false)
    } else {
        let (r, last_was_space) = normalize_scan(s.drop_last());
        match fold_char(s.last()) {
            Some(m) => (r + m, false),
            None => if !last_was_space && r.len() > 0 {
                (r.push(' '), true)
            } else {
                (r, last_was_space)
            },
        }
    }
}

/// The normal form of `s`.
pub open spec fn normalize_spec(s: Seq<char>) -> Seq<char> {
    trim_spec(normalize_scan(s).0)
}

/// No two neighbouring characters of `s` are both spaces.
pub open spec fn no_double_space(s: Seq<char>) -> bool {
    forall|i: int| 0 <= i < s.len() - 1 ==> !(#[trigger] s[i] == ' ' && s[i + 1] == ' ')
}

/// A character that the normal form can produce as part of a word: no Latin
/// letter of the folding table, no white space, no ASCII capital.
pub open spec fn is_folded(d: char) -> bool {
    latin_base(d).len() == 0 && !is_white_space(d) && !('A' <= d && d <= 'Z')
}

/// Every character of `s` is a space or a folded character.
pub open spec fn only_folded_chars(s: Seq<char>) -> bool {
    forall|i: int| 0 <= i < s.len() ==> #[trigger] s[i] == ' ' || is_folded(s[i])
}

/// `s` is in normal form: no white space at either end, no double spaces, and
/// only spaces and folded characters.
pub open spec fn is_normal(s: Seq<char>) -> bool {
    &&& is_trimmed(s)
    &&& no_double_space(s)
    &&& only_folded_chars(s)
}

/// ASCII lower-case letters and digits.
pub open spec fn is_ascii_word_char(d: char) -> bool {
    ('a' <= d && d <= 'z') || ('0' <= d && d <= '9')
}

/// `s` is text that the folding table spells fully in ASCII: every character
/// is ASCII or a letter of the table (`latin_base`).
pub open spec fn is_ascii_spelled(s: Seq<char>) -> bool {
    forall|i: int| 0 <= i < s.len() ==> #[trigger] s[i] <= '\x7f' || latin_base(s[i]).len() > 0
}

/// A character that the normal form keeps as it is.
pub open spec fn is_stable(d: char) -> bool {
    fold_char(d) == Some(seq![d])
}

/// What the normal form makes of `c` it keeps as it is when normalising again:
/// every character of it is stable. This holds of ASCII characters and of the
/// letters of the folding table; of other characters it depends on their
/// Unicode lower-case mapping.
pub open spec fn folds_to_stable(c: char) -> bool {
    match fold_char(c) {
        Some(m) => forall|j: int| 0 <= j < m.len() ==> is_stable(#[trigger] m[j]),
        None => true,
    }
}

/// Every character of `s` folds to stable characters.
pub open spec fn all_fold_stable(s: Seq<char>) -> bool {
    forall|i: int| 0 <= i < s.len() ==> folds_to_stable(#[trigger] s[i])
}

/// The base letter of a letter of the table is one ASCII lower-case letter.
pub proof fn lemma_latin_base_ascii(c: char)
    ensures
        forall|i: int|
            0 <= i < latin_base(c).len() ==> 'a' <= #[trigger] latin_base(c)[i] <= 'z',
        c <= '\x7f' ==> latin_base(c).len() == 0,
        latin_base(c).len() <= 1,
{
    reveal(latin_base);
}

/// ASCII lower-case letters and digits are folded characters.
proof fn lemma_ascii_word_char_folded(d: char)
    requires
        is_ascii_word_char(d),
    ensures
        is_folded(d),
        latin_base(d).len() == 0,
{
    lemma_latin_base_ascii(d);
}

/// A folded lower-case mapping holds only folded characters.
proof fn lemma_fold_lowercase_folded(s: Seq<char>)
    ensures
        forall|i: int| 0 <= i < fold_lowercase(s).len() ==> is_folded(#[trigger] fold_lowercase(s)[i]),
    decreases s.len(),
{
    if s.len() > 0 {
        lemma_fold_lowercase_folded(s.drop_last());
        let p = fold_lowercase(s.drop_last());
        let q = fold_lower_char(s.last());
        let d = s.last();
        lemma_latin_base_ascii(d);
        assert forall|i: int| 0 <= i < q.len() implies is_folded(#[trigger] q[i]) by {
            if latin_base(d).len() > 0 {
                lemma_ascii_word_char_folded(q[i]);
            } else {
                let e = ascii_lower(d);
                assert(q[i] == e);
                if 'A' <= d && d <= 'Z' {
                    assert('a' <= e && e <= 'z');
                    lemma_ascii_word_char_folded(e);
                }
            }
        }
        assert forall|i: int| 0 <= i < fold_lowercase(s).len() implies is_folded(
            #[trigger] fold_lowercase(s)[i],
        ) by {
            if i < p.len() {
                assert(fold_lowercase(s)[i] == p[i]);
            } else {
                assert(fold_lowercase(s)[i] == q[i - p.len()]);
            }
        }
    }
}

/// What the normal form produces from a character is a word of folded
/// characters; from ASCII and Latin letters, of ASCII letters and digits.
pub proof fn lemma_fold_char_folded(c: char)
    ensures
        fold_char(c) matches Some(m) ==> m.len() > 0 && forall|i: int|
            0 <= i < m.len() ==> is_folded(#[trigger] m[i]),
        fold_char(c) matches Some(m) ==> (c <= '\x7f' || latin_base(c).len() > 0) ==> forall|
            i: int,
        | 0 <= i < m.len() ==> is_ascii_word_char(#[trigger] m[i]),
        (c <= '\x7f' || latin_base(c).len() > 0) ==> fold_char(c) is Some ==> c != ' ',
{
    lemma_latin_base_ascii(c);
    if let Some(m) = fold_char(c) {
        if latin_base(c).len() > 0 {
            assert forall|i: int| 0 <= i < m.len() implies is_folded(#[trigger] m[i]) by {
                lemma_ascii_word_char_folded(m[i]);
            }
        } else if c <= '\x7f' {
            let e = ascii_lower(c);
            assert(m[0] == e);
            assert(is_ascii_word_char(e));
            lemma_ascii_word_char_folded(e);
        } else {
            lemma_fold_lowercase_folded(unicode_lowercase(c));
        }
    }
}

/// The scan produces only folded characters and single spaces, never a
/// leading space, and its flag says whether it ended on a space.
proof fn lemma_scan_shape(s: Seq<char>)
    ensures
        only_folded_chars(normalize_scan(s).0),
        no_double_space(normalize_scan(s).0),
        normalize_scan(s).0.len() > 0 ==> normalize_scan(s).0[0] != ' ',
        normalize_scan(s).1 == (normalize_scan(s).0.len() > 0 && normalize_scan(s).0.last()
            == ' '),
        is_ascii_spelled(s) ==> forall|i: int|
            0 <= i < normalize_scan(s).0.len() ==> #[trigger] normalize_scan(s).0[i] == ' '
                || is_ascii_word_char(normalize_scan(s).0[i]),
        all_fold_stable(s) ==> forall|i: int|
            0 <= i < normalize_scan(s).0.len() ==> #[trigger] normalize_scan(s).0[i] == ' '
                || is_stable(normalize_scan(s).0[i]),
    decreases s.len(),
{
    if s.len() > 0 {
        let p = s.drop_last();
        if all_fold_stable(s) {
            assert forall|i: int| 0 <= i < p.len() implies folds_to_stable(#[trigger] p[i]) by {
                assert(p[i] == s[i]);
            }
            assert(folds_to_stable(s[s.len() - 1]));
        }
        if is_ascii_spelled(s) {
            assert forall|i: int| 0 <= i < p.len() implies #[trigger] p[i] <= '\x7f' || latin_base(
                p[i],
            ).len() > 0 by {
                assert(p[i] == s[i]);
            }
            assert(s[s.len() - 1] == s.last());
        }
        lemma_scan_shape(p);
        lemma_fold_char_folded(s.last());
        let (r, last) = normalize_scan(p);
        let (r2, last2) = normalize_scan(s);
        match fold_char(s.last()) {
            Some(m) => {
                assert(r2 == r + m);
                assert(m[0] != ' ');
                assert forall|i: int| 0 <= i < r2.len() implies #[trigger] r2[i] == ' ' || is_folded(
                    r2[i],
                ) by {
                    if i < r.len() {
                        assert(r2[i] == r[i]);
                    } else {
                        assert(r2[i] == m[i - r.len()]);
                    }
                }
                assert forall|i: int| 0 <= i < r2.len() - 1 implies !(#[trigger] r2[i] == ' '
                    && r2[i + 1] == ' ') by {
                    if i + 1 < r.len() {
                        assert(r2[i] == r[i] && r2[i + 1] == r[i + 1]);
                    } else if i + 1 == r.len() {
                        assert(r2[i + 1] == m[0]);
                    } else {
                        assert(r2[i] == m[i - r.len()]);
                        assert(m[i - r.len()] != ' ');
                    }
                }
                assert(r2.last() == m.last());
                assert(m.last() == m[m.len() - 1]);
                if is_ascii_spelled(s) {
                    assert forall|i: int| 0 <= i < r2.len() implies #[trigger] r2[i] == ' '
                        || is_ascii_word_char(r2[i]) by {
                        if i < r.len() {
                            assert(r2[i] == r[i]);
                        } else {
                            assert(r2[i] == m[i - r.len()]);
                        }
                    }
                }
                if all_fold_stable(s) {
                    assert forall|i: int| 0 <= i < r2.len() implies #[trigger] r2[i] == ' '
                        || is_stable(r2[i]) by {
                        if i < r.len() {
                            assert(r2[i] == r[i]);
                        } else {
                            assert(r2[i] == m[i - r.len()]);
                        }
                    }
                }
                if r2.len() > 0 {
                    if r.len() > 0 {
                        assert(r2[0] == r[0]);
                    } else {
                        assert(r2[0] == m[0]);
                    }
                }
            },
            None => {
                assert forall|i: int| 0 <= i < r2.len() implies #[trigger] r2[i] == ' ' || is_folded(
                    r2[i],
                ) by {
                    if i < r.len() {
                        assert(r2[i] == r[i]);
                    }
                }
                assert forall|i: int| 0 <= i < r2.len() - 1 implies !(#[trigger] r2[i] == ' '
                    && r2[i + 1] == ' ') by {
                    if i + 1 < r.len() {
                        assert(r2[i] == r[i] && r2[i + 1] == r[i + 1]);
                    } else {
                        assert(r2[i] == r[i]);
                    }
                }
                if is_ascii_spelled(s) {
                    assert forall|i: int| 0 <= i < r2.len() implies #[trigger] r2[i] == ' '
                        || is_ascii_word_char(r2[i]) by {
                        if i < r.len() {
                            assert(r2[i] == r[i]);
                        }
                    }
                }
                if all_fold_stable(s) {
                    assert forall|i: int| 0 <= i < r2.len() implies #[trigger] r2[i] == ' '
                        || is_stable(r2[i]) by {
                        if i < r.len() {
                            assert(r2[i] == r[i]);
                        }
                    }
                }
                if r2.len() > 0 {
                    assert(r2[0] == r[0]);
                }
            },
        }
    }
}

/// Trimming text of spaces and folded characters without double spaces gives
/// text in normal form, and keeps text of ASCII letters, digits and spaces so.
proof fn lemma_trim_is_normal(r: Seq<char>)
    requires
        only_folded_chars(r),
        no_double_space(r),
    ensures
        is_normal(trim_spec(r)),
        (forall|i: int| 0 <= i < r.len() ==> #[trigger] r[i] == ' ' || is_ascii_word_char(r[i]))
            ==> forall|i: int|
            0 <= i < trim_spec(r).len() ==> #[trigger] trim_spec(r)[i] == ' ' || is_ascii_word_char(
                trim_spec(r)[i],
            ),
        (forall|i: int| 0 <= i < r.len() ==> #[trigger] r[i] == ' ' || is_stable(r[i])) ==> forall|
            i: int,
        | 0 <= i < trim_spec(r).len() ==> #[trigger] trim_spec(r)[i] == ' ' || is_stable(trim_spec(r)[i]),
{
    lemma_trim_is_subrange(r);
    let (a, b) = choose|a: int, b: int|
        0 <= a <= b <= r.len() && trim_spec(r) == r.subrange(a, b) && (forall|i: int|
            0 <= i < a ==> is_white_space(#[trigger] r[i])) && (forall|i: int|
            b <= i < r.len() ==> is_white_space(#[trigger] r[i]));
    let t = trim_spec(r);
    assert forall|i: int| 0 <= i < t.len() implies #[trigger] t[i] == ' ' || is_folded(t[i]) by {
        assert(t[i] == r[a + i]);
    }
    assert forall|i: int| 0 <= i < t.len() - 1 implies !(#[trigger] t[i] == ' ' && t[i + 1]
        == ' ') by {
        assert(t[i] == r[a + i] && t[i + 1] == r[a + i + 1]);
    }
    if forall|i: int| 0 <= i < r.len() ==> #[trigger] r[i] == ' ' || is_ascii_word_char(r[i]) {
        assert forall|i: int| 0 <= i < t.len() implies #[trigger] t[i] == ' ' || is_ascii_word_char(
            t[i],
        ) by {
            assert(t[i] == r[a + i]);
        }
    }
    if forall|i: int| 0 <= i < r.len() ==> #[trigger] r[i] == ' ' || is_stable(r[i]) {
        assert forall|i: int| 0 <= i < t.len() implies #[trigger] t[i] == ' ' || is_stable(t[i]) by {
            assert(t[i] == r[a + i]);
        }
    }
}

/// The normal form of anything is in normal form; the normal form of text
/// spelled in ASCII is made of ASCII lower-case letters, digits and single
/// spaces; that of text whose characters fold to stable ones, of stable
/// characters and single spaces.
pub proof fn lemma_normalize_is_normal(s: Seq<char>)
    ensures
        is_normal(normalize_spec(s)),
        is_ascii_spelled(s) ==> forall|i: int|
            0 <= i < normalize_spec(s).len() ==> #[trigger] normalize_spec(s)[i] == ' '
                || is_ascii_word_char(normalize_spec(s)[i]),
        all_fold_stable(s) ==> forall|i: int|
            0 <= i < normalize_spec(s).len() ==> #[trigger] normalize_spec(s)[i] == ' '
                || is_stable(normalize_spec(s)[i]),
{
    lemma_scan_shape(s);
    lemma_trim_is_normal(normalize_scan(s).0);
}

/// ASCII lower-case letters and digits are stable.
pub proof fn lemma_ascii_word_char_stable(d: char)
    requires
        is_ascii_word_char(d),
    ensures
        is_stable(d),
{
    lemma_latin_base_ascii(d);
    assert(ascii_lower(d) == d);
    assert(fold_char(d) == Some(seq![d]));
}

/// What a character spelled in ASCII folds to is stable.
pub proof fn lemma_ascii_spelled_folds_stable(s: Seq<char>)
    requires
        is_ascii_spelled(s),
    ensures
        all_fold_stable(s),
{
    assert forall|i: int| 0 <= i < s.len() implies folds_to_stable(#[trigger] s[i]) by {
        let c = s[i];
        lemma_fold_char_folded(c);
        if let Some(m) = fold_char(c) {
            assert forall|j: int| 0 <= j < m.len() implies is_stable(#[trigger] m[j]) by {
                lemma_ascii_word_char_stable(m[j]);
            }
        }
    }
}

/// On stable characters and single spaces that do not start with a space, the
/// scan reproduces the sequence.
proof fn lemma_scan_of_stable(s: Seq<char>)
    requires
        forall|i: int| 0 <= i < s.len() ==> #[trigger] s[i] == ' ' || is_stable(s[i]),
        no_double_space(s),
        s.len() > 0 ==> s[0] != ' ',
    ensures
        normalize_scan(s) == (s, s.len() > 0 && s.last() == ' '),
    decreases s.len(),
{
    if s.len() > 0 {
        let p = s.drop_last();
        assert forall|i: int| 0 <= i < p.len() implies #[trigger] p[i] == ' ' || is_stable(p[i]) by {
            assert(p[i] == s[i]);
        }
        assert forall|i: int| 0 <= i < p.len() - 1 implies !(#[trigger] p[i] == ' ' && p[i + 1]
            == ' ') by {
            assert(p[i] == s[i] && p[i + 1] == s[i + 1]);
        }
        lemma_scan_of_stable(p);
        let c = s.last();
        assert(s[s.len() - 1] == c);
        lemma_latin_base_ascii(' ');
        if c == ' ' {
            assert(fold_char(' ') == None::<Seq<char>>);
            if p.len() > 0 {
                assert(p.last() == s[s.len() - 2]);
            }
            assert(p.push(c) == s);
        } else {
            assert(fold_char(c) == Some(seq![c]));
            assert(p + seq![c] == s);
        }
    }
}

/// Normalising twice is normalising once, for text whose characters fold to
/// stable characters: text spelled in ASCII (see
/// `lemma_ascii_spelled_folds_stable`), and any other text whose characters'
/// Unicode lower-case mappings are kept by the normal form.
pub proof fn lemma_normalize_idempotent(s: Seq<char>)
    requires
        all_fold_stable(s),
    ensures
        normalize_spec(normalize_spec(s)) == normalize_spec(s),
{
    lemma_normalize_is_normal(s);
    lemma_stable_normal_is_fixed(normalize_spec(s));
}

/// Normalising text spelled in ASCII twice is normalising it once.
pub proof fn lemma_normalize_idempotent_ascii(s: Seq<char>)
    requires
        is_ascii_spelled(s),
    ensures
        normalize_spec(normalize_spec(s)) == normalize_spec(s),
{
    lemma_ascii_spelled_folds_stable(s);
    lemma_normalize_idempotent(s);
}

/// Text in normal form made only of stable characters and single spaces is its
/// own normal form.
pub proof fn lemma_stable_normal_is_fixed(t: Seq<char>)
    requires
        is_normal(t),
        forall|i: int| 0 <= i < t.len() ==> #[trigger] t[i] == ' ' || is_stable(t[i]),
    ensures
        normalize_spec(t) == t,
{
    lemma_scan_of_stable(t);
    lemma_trim_of_trimmed(t);
}

/// What the normal form makes of `c` has at most one character. This holds of
/// ASCII characters and of the letters of the folding table; of other
/// characters it depends on their Unicode lower-case mapping.
pub open spec fn folds_to_one(c: char) -> bool {
    match fold_char(c) {
        Some(m) => m.len() <= 1,
        None => true,
    }
}

/// The scan adds at most one character for each character it reads.
proof fn lemma_scan_len(s: Seq<char>)
    requires
        forall|i: int| 0 <= i < s.len() ==> folds_to_one(#[trigger] s[i]),
    ensures
        normalize_scan(s).0.len() <= s.len(),
    decreases s.len(),
{
    if s.len() > 0 {
        let p = s.drop_last();
        assert forall|i: int| 0 <= i < p.len() implies folds_to_one(#[trigger] p[i]) by {
            assert(p[i] == s[i]);
        }
        lemma_scan_len(p);
        assert(folds_to_one(s[s.len() - 1]));
    }
}

/// The normal form is never longer than the text, in characters, when every
/// character folds to at most one character.
pub proof fn lemma_normalize_not_longer(s: Seq<char>)
    requires
        forall|i: int| 0 <= i < s.len() ==> folds_to_one(#[trigger] s[i]),
    ensures
        normalize_spec(s).len() <= s.len(),
{
    lemma_scan_len(s);
    lemma_trim_is_subrange(normalize_scan(s).0);
}

/// The normal form of text spelled in ASCII is never longer than the text, in
/// characters or in UTF-8 bytes.
pub proof fn lemma_normalize_not_longer_ascii(s: Seq<char>)
    requires
        is_ascii_spelled(s),
    ensures
        normalize_spec(s).len() <= s.len(),
        encode_utf8(normalize_spec(s)).len() <= encode_utf8(s).len(),
{
    assert forall|i: int| 0 <= i < s.len() implies folds_to_one(#[trigger] s[i]) by {
        lemma_latin_base_ascii(s[i]);
    }
    lemma_normalize_not_longer(s);
    lemma_normalize_is_normal(s);
    let t = normalize_spec(s);
    assert forall|i: int| 0 <= i < t.len() implies #[trigger] t[i] <= '\x7f' by {
        assert(t[i] == ' ' || is_ascii_word_char(t[i]));
    }
    lemma_encode_ascii_len(t);
    lemma_encode_len_at_least(s);
}

/// The ASCII base letter of a letter of the table, or empty.
fn latin_base_exec(c: char) -> (r: Vec<char>)
    ensures
        r@ == latin_base(c),
{
    proof {
        reveal(latin_base);
    }
    if c == '\u{aa}' || ('\u{c0}' <= c && c <= '\u{c5}') || ('\u{e0}' <= c && c <= '\u{e5}') || ('\u{100}' <= c && c <= '\u{105}') || c == '\u{1cd}' || c == '\u{1ce}' || ('\u{1de}' <= c && c <= '\u{1e1}') || c == '\u{1fa}' || c == '\u{1fb}' || ('\u{200}' <= c && c <= '\u{203}') || c == '\u{226}' || c == '\u{227}' || c == '\u{23a}' || c == '\u{1d00}' || c == '\u{1d2c}' || c == '\u{1d43}' || c == '\u{1d8f}' || c == '\u{1e00}' || c == '\u{1e01}' || c == '\u{1e9a}' || ('\u{1ea0}' <= c && c <= '\u{1eb7}') || c == '\u{2090}' || c == '\u{24b6}' || c == '\u{24d0}' || c == '\u{2c65}' || c == '\u{ff21}' || c == '\u{ff41}' {
        vec!['a']
    } else if ('\u{180}' <= c && c <= '\u{183}') || c == '\u{243}' || c == '\u{253}' || c == '\u{299}' || c == '\u{1d2e}' || c == '\u{1d47}' || c == '\u{1d6c}' || c == '\u{1d80}' || ('\u{1e02}' <= c && c <= '\u{1e07}') || c == '\u{24b7}' || c == '\u{24d1}' || c == '\u{a796}' || c == '\u{a797}' || c == '\u{ff22}' || c == '\u{ff42}' || c == '\u{10785}' {
        vec!['b']
    } else if c == '\u{c7}' || c == '\u{e7}' || ('\u{106}' <= c && c <= '\u{10d}') || c == '\u{187}' || c == '\u{188}' || c == '\u{23b}' || c == '\u{23c}' || c == '\u{255}' || c == '\u{1d04}' || c == '\u{1d9c}' || c == '\u{1d9d}' || c == '\u{1e08}' || c == '\u{1e09}' || c == '\u{24b8}' || c == '\u{24d2}' || ('\u{a792}' <= c && c <= '\u{a794}') || c == '\u{a7c4}' || c == '\u{a7f2}' || c == '\u{ff23}' || c == '\u{ff43}' || c == '\u{1df1d}' {
        vec!['c']
    } else if ('\u{10e}' <= c && c <= '\u{111}') || ('\u{18a}' <= c && c <= '\u{18c}') || c == '\u{221}' || c == '\u{256}' || c == '\u{257}' || c == '\u{1d05}' || c == '\u{1d30}' || c == '\u{1d48}' || c == '\u{1d6d}' || c == '\u{1d81}' || c == '\u{1d91}' || ('\u{1e0a}' <= c && c <= '\u{1e13}') || c == '\u{24b9}' || c == '\u{24d3}' || c == '\u{a7c7}' || c == '\u{a7c8}' || c == '\u{ff24}' || c == '\u{ff44}' || ('\u{1078b}' <= c && c <= '\u{1078d}') {
        vec!['d']
    } else if ('\u{c8}' <= c && c <= '\u{cb}') || ('\u{e8}' <= c && c <= '\u{eb}') || ('\u{112}' <= c && c <= '\u{11b}') || ('\u{204}' <= c && c <= '\u{207}') || c == '\u{228}' || c == '\u{229}' || c == '\u{246}' || c == '\u{247}' || c == '\u{1d07}' || c == '\u{1d31}' || c == '\u{1d49}' || c == '\u{1d92}' || ('\u{1e14}' <= c && c <= '\u{1e1d}') || ('\u{1eb8}' <= c && c <= '\u{1ec7}') || c == '\u{2091}' || c == '\u{24ba}' || c == '\u{24d4}' || c == '\u{2c78}' || c == '\u{ab34}' || c == '\u{ff25}' || c == '\u{ff45}' {
        vec!['e']
    } else if c == '\u{191}' || c == '\u{192}' || c == '\u{1d6e}' || c == '\u{1d82}' || c == '\u{1da0}' || c == '\u{1e1e}' || c == '\u{1e1f}' || c == '\u{24bb}' || c == '\u{24d5}' || c == '\u{a730}' || c == '\u{a798}' || c == '\u{a799}' || c == '\u{a7f3}' || c == '\u{ff26}' || c == '\u{ff46}' {
        vec!['f']
    } else if ('\u{11c}' <= c && c <= '\u{123}') || c == '\u{193}' || ('\u{1e4}' <= c && c <= '\u{1e7}') || c == '\u{1f4}' || c == '\u{1f5}' || c == '\u{260}' || c == '\u{262}' || c == '\u{29b}' || c == '\u{1d33}' || c == '\u{1d4d}' || c == '\u{1d83}' || c == '\u{1e20}' || c == '\u{1e21}' || c == '\u{24bc}' || c == '\u{24d6}' || c == '\u{a7a0}' || c == '\u{a7a1}' || c == '\u{ff27}' || c == '\u{ff47}' || c == '\u{10793}' {
        vec!['g']
    } else if ('\u{124}' <= c && c <= '\u{127}') || c == '\u{21e}' || c == '\u{21f}' || c == '\u{266}' || c == '\u{29c}' || c == '\u{2b0}' || c == '\u{2b1}' || c == '\u{1d34}' || ('\u{1e22}' <= c && c <= '\u{1e2b}') || c == '\u{1e96}' || c == '\u{2095}' || c == '\u{24bd}' || c == '\u{24d7}' || c == '\u{2c67}' || c == '\u{2c68}' || c == '\u{a795}' || c == '\u{a7aa}' || c == '\u{a7f8}' || c == '\u{ff28}' || c == '\u{ff48}' || c == '\u{10795}' {
        vec!['h']
    } else if ('\u{cc}' <= c && c <= '\u{cf}') || ('\u{ec}' <= c && c <= '\u{ef}') || ('\u{128}' <= c && c <= '\u{131}') || c == '\u{197}' || c == '\u{1cf}' || c == '\u{1d0}' || ('\u{208}' <= c && c <= '\u{20b}') || c == '\u{268}' || c == '\u{26a}' || c == '\u{1d35}' || c == '\u{1d62}' || c == '\u{1d96}' || c == '\u{1da4}' || ('\u{1e2c}' <= c && c <= '\u{1e2f}') || ('\u{1ec8}' <= c && c <= '\u{1ecb}') || c == '\u{24be}' || c == '\u{24d8}' || c == '\u{ff29}' || c == '\u{ff49}' || c == '\u{1df1a}' {
        vec!['i']
    } else if c == '\u{134}' || c == '\u{135}' || c == '\u{1f0}' || c == '\u{237}' || c == '\u{248}' || c == '\u{249}' || c == '\u{25f}' || c == '\u{284}' || c == '\u{29d}' || c == '\u{2b2}' || c == '\u{1d0a}' || c == '\u{1d36}' || c == '\u{1da8}' || c == '\u{24bf}' || c == '\u{24d9}' || c == '\u{2c7c}' || c == '\u{a7b2}' || c == '\u{ff2a}' || c == '\u{ff4a}' {
        vec!['j']
    } else if c == '\u{136}' || c == '\u{137}' || c == '\u{198}' || c == '\u{199}' || c == '\u{1e8}' || c == '\u{1e9}' || c == '\u{1d0b}' || c == '\u{1d37}' || c == '\u{1d4f}' || c == '\u{1d84}' || ('\u{1e30}' <= c && c <= '\u{1e35}') || c == '\u{2096}' || c == '\u{24c0}' || c == '\u{24da}' || c == '\u{2c69}' || c == '\u{2c6a}' || ('\u{a740}' <= c && c <= '\u{a745}') || c == '\u{a7a2}' || c == '\u{a7a3}' || c == '\u{ff2b}' || c == '\u{ff4b}' {
        vec!['k']
    } else if ('\u{139}' <= c && c <= '\u{142}') || c == '\u{19a}' || c == '\u{234}' || c == '\u{23d}' || ('\u{26b}' <= c && c <= '\u{26d}') || c == '\u{29f}' || c == '\u{2e1}' || c == '\u{1d0c}' || c == '\u{1d38}' || c == '\u{1d85}' || c == '\u{1da9}' || c == '\u{1daa}' || ('\u{1e36}' <= c && c <= '\u{1e3d}') || c == '\u{2097}' || c == '\u{24c1}' || c == '\u{24db}' || ('\u{2c60}' <= c && c <= '\u{2c62}') || c == '\u{a748}' || c == '\u{a749}' || c == '\u{a78e}' || c == '\u{a7ad}' || ('\u{ab37}' <= c && c <= '\u{ab39}') || c == '\u{ab5d}' || c == '\u{ab5e}' || c == '\u{ff2c}' || c == '\u{ff4c}' || c == '\u{1079b}' || c == '\u{1079d}' || c == '\u{1df04}' || c == '\u{1df11}' || c == '\u{1df13}' {
        vec!['l']
    } else if c == '\u{271}' || c == '\u{1d0d}' || c == '\u{1d39}' || c == '\u{1d50}' || c == '\u{1d6f}' || c == '\u{1d86}' || c == '\u{1dac}' || ('\u{1e3e}' <= c && c <= '\u{1e43}') || c == '\u{2098}' || c == '\u{24c2}' || c == '\u{24dc}' || c == '\u{2c6e}' || c == '\u{ab3a}' || c == '\u{ff2d}' || c == '\u{ff4d}' {
        vec!['m']
    } else if c == '\u{d1}' || c == '\u{f1}' || ('\u{143}' <= c && c <= '\u{149}') || c == '\u{19d}' || c == '\u{19e}' || c == '\u{1f8}' || c == '\u{1f9}' || c == '\u{220}' || c == '\u{235}' || ('\u{272}' <= c && c <= '\u{274}') || c == '\u{1d3a}' || c == '\u{1d70}' || c == '\u{1d87}' || c == '\u{1dae}' || c == '\u{1daf}' || ('\u{1e44}' <= c && c <= '\u{1e4b}') || c == '\u{2099}' || c == '\u{24c3}' || c == '\u{24dd}' || c == '\u{a790}' || c == '\u{a791}' || c == '\u{a7a4}' || c == '\u{a7a5}' || c == '\u{ab3b}' || c == '\u{ff2e}' || c == '\u{ff4e}' {
        vec!['n']
    } else if c == '\u{ba}' || ('\u{d2}' <= c && c <= '\u{d6}') || c == '\u{d8}' || ('\u{f2}' <= c && c <= '\u{f6}') || c == '\u{f8}' || ('\u{14c}' <= c && c <= '\u{151}') || ('\u{19f}' <= c && c <= '\u{1a1}') || c == '\u{1d1}' || c == '\u{1d2}' || ('\u{1ea}' <= c && c <= '\u{1ed}') || c == '\u{1fe}' || c == '\u{1ff}' || ('\u{20c}' <= c && c <= '\u{20f}') || ('\u{22a}' <= c && c <= '\u{231}') || c == '\u{1d0f}' || c == '\u{1d3c}' || c == '\u{1d52}' || ('\u{1e4c}' <= c && c <= '\u{1e53}') || ('\u{1ecc}' <= c && c <= '\u{1ee3}') || c == '\u{2092}' || c == '\u{24c4}' || c == '\u{24de}' || c == '\u{2c7a}' || ('\u{a74a}' <= c && c <= '\u{a74d}') || c == '\u{ff2f}' || c == '\u{ff4f}' || c == '\u{107a2}' || c == '\u{1df1b}' {
        vec!['o']
    } else if c == '\u{1a4}' || c == '\u{1a5}' || c == '\u{1d18}' || c == '\u{1d3e}' || c == '\u{1d56}' || c == '\u{1d71}' || c == '\u{1d7d}' || c == '\u{1d88}' || ('\u{1e54}' <= c && c <= '\u{1e57}') || c == '\u{209a}' || c == '\u{24c5}' || c == '\u{24df}' || c == '\u{2c63}' || ('\u{a750}' <= c && c <= '\u{a755}') || c == '\u{ff30}' || c == '\u{ff50}' {
        vec!['p']
    } else if c == '\u{24b}' || c == '\u{2a0}' || c == '\u{24c6}' || c == '\u{24e0}' || ('\u{a756}' <= c && c <= '\u{a759}') || c == '\u{a7af}' || c == '\u{a7f4}' || c == '\u{ff31}' || c == '\u{ff51}' || c == '\u{107a5}' {
        vec!['q']
    } else if ('\u{154}' <= c && c <= '\u{159}') || ('\u{210}' <= c && c <= '\u{213}') || c == '\u{24c}' || c == '\u{24d}' || ('\u{27c}' <= c && c <= '\u{27e}') || c == '\u{280}' || c == '\u{2b3}' || c == '\u{1d3f}' || c == '\u{1d63}' || c == '\u{1d72}' || c == '\u{1d73}' || c == '\u{1d89}' || ('\u{1e58}' <= c && c <= '\u{1e5f}') || c == '\u{24c7}' || c == '\u{24e1}' || c == '\u{2c64}' || c == '\u{a7a6}' || c == '\u{a7a7}' || c == '\u{ab46}' || c == '\u{ab49}' || c == '\u{ff32}' || c == '\u{ff52}' || c == '\u{107a8}' || c == '\u{107a9}' || c == '\u{1df16}' {
        vec!['r']
    } else if ('\u{15a}' <= c && c <= '\u{161}') || c == '\u{17f}' || c == '\u{218}' || c == '\u{219}' || c == '\u{23f}' || c == '\u{282}' || c == '\u{2e2}' || c == '\u{1d74}' || c == '\u{1d8a}' || c == '\u{1db3}' || ('\u{1e60}' <= c && c <= '\u{1e69}') || ('\u{1e9b}' <= c && c <= '\u{1e9d}') || c == '\u{209b}' || c == '\u{24c8}' || c == '\u{24e2}' || c == '\u{2c7e}' || c == '\u{a731}' || c == '\u{a7a8}' || c == '\u{a7a9}' || c == '\u{a7c5}' || c == '\u{a7c9}' || c == '\u{a7ca}' || c == '\u{ff33}' || c == '\u{ff53}' || c == '\u{107ba}' || c == '\u{1df1e}' {
        vec!['s']
    } else if ('\u{162}' <= c && c <= '\u{167}') || ('\u{1ab}' <= c && c <= '\u{1ae}') || c == '\u{21a}' || c == '\u{21b}' || c == '\u{236}' || c == '\u{23e}' || c == '\u{288}' || c == '\u{1d1b}' || c == '\u{1d40}' || c == '\u{1d57}' || c == '\u{1d75}' || c == '\u{1db5}' || ('\u{1e6a}' <= c && c <= '\u{1e71}') || c == '\u{1e97}' || c == '\u{209c}' || c == '\u{24c9}' || c == '\u{24e3}' || c == '\u{2c66}' || c == '\u{ff34}' || c == '\u{ff54}' || c == '\u{107af}' || c == '\u{1df09}' {
        vec!['t']
    } else if ('\u{d9}' <= c && c <= '\u{dc}') || ('\u{f9}' <= c && c <= '\u{fc}') || ('\u{168}' <= c && c <= '\u{173}') || c == '\u{1af}' || c == '\u{1b0}' || ('\u{1d3}' <= c && c <= '\u{1dc}') || ('\u{214}' <= c && c <= '\u{217}') || c == '\u{1d1c}' || c == '\u{1d41}' || c == '\u{1d58}' || c == '\u{1d64}' || c == '\u{1d99}' || ('\u{1e72}' <= c && c <= '\u{1e7b}') || ('\u{1ee4}' <= c && c <= '\u{1ef1}') || c == '\u{24ca}' || c == '\u{24e4}' || c == '\u{a7b8}' || c == '\u{a7b9}' || c == '\u{ab4e}' || c == '\u{ab52}' || c == '\u{ab5f}' || c == '\u{ff35}' || c == '\u{ff55}' {
        vec!['u']
    } else if c == '\u{1b2}' || c == '\u{28b}' || c == '\u{1d20}' || c == '\u{1d5b}' || c == '\u{1d65}' || c == '\u{1d8c}' || c == '\u{1db9}' || ('\u{1e7c}' <= c && c <= '\u{1e7f}') || c == '\u{24cb}' || c == '\u{24e5}' || c == '\u{2c71}' || c == '\u{2c74}' || c == '\u{2c7d}' || c == '\u{a75e}' || c == '\u{a75f}' || c == '\u{ff36}' || c == '\u{ff56}' || c == '\u{107b0}' {
        vec!['v']
    } else if c == '\u{174}' || c == '\u{175}' || c == '\u{2b7}' || c == '\u{1d21}' || c == '\u{1d42}' || ('\u{1e80}' <= c && c <= '\u{1e89}') || c == '\u{1e98}' || c == '\u{24cc}' || c == '\u{24e6}' || c == '\u{2c72}' || c == '\u{2c73}' || c == '\u{ff37}' || c == '\u{ff57}' {
        vec!['w']
    } else if c == '\u{2e3}' || c == '\u{1d8d}' || ('\u{1e8a}' <= c && c <= '\u{1e8d}') || c == '\u{2093}' || c == '\u{24cd}' || c == '\u{24e7}' || ('\u{ab56}' <= c && c <= '\u{ab59}') || c == '\u{ff38}' || c == '\u{ff58}' {
        vec!['x']
    } else if c == '\u{dd}' || c == '\u{fd}' || c == '\u{ff}' || ('\u{176}' <= c && c <= '\u{178}') || c == '\u{1b3}' || c == '\u{1b4}' || c == '\u{232}' || c == '\u{233}' || c == '\u{24e}' || c == '\u{24f}' || c == '\u{28f}' || c == '\u{2b8}' || c == '\u{1e8e}' || c == '\u{1e8f}' || c == '\u{1e99}' || ('\u{1ef2}' <= c && c <= '\u{1ef9}') || c == '\u{1efe}' || c == '\u{1eff}' || c == '\u{24ce}' || c == '\u{24e8}' || c == '\u{ab5a}' || c == '\u{ff39}' || c == '\u{ff59}' {
        vec!['y']
    } else if ('\u{179}' <= c && c <= '\u{17e}') || c == '\u{1b5}' || c == '\u{1b6}' || c == '\u{224}' || c == '\u{225}' || c == '\u{240}' || c == '\u{290}' || c == '\u{291}' || c == '\u{1d22}' || c == '\u{1d76}' || c == '\u{1d8e}' || ('\u{1dbb}' <= c && c <= '\u{1dbd}') || ('\u{1e90}' <= c && c <= '\u{1e95}') || c == '\u{24cf}' || c == '\u{24e9}' || c == '\u{2c6b}' || c == '\u{2c6c}' || c == '\u{2c7f}' || c == '\u{a7c6}' || c == '\u{ff3a}' || c == '\u{ff5a}' {
        vec!['z']
    } else {
        Vec::new()
    }
}

/// A lower-case mapping with each character folded.
fn fold_lowercase_exec(s: &[char]) -> (r: Vec<char>)
    ensures
        r@ == fold_lowercase(s@),
{
    let mut r: Vec<char> = Vec::new();
    let n = s.len();
    for i in 0..n
        invariant
            n == s@.len(),
            r@ == fold_lowercase(s@.take(i as int)),
    {
        assert(s@.take(i + 1).drop_last() == s@.take(i as int));
        let d = s[i];
        let base = latin_base_exec(d);
        if base.len() > 0 {
            append_chars(&mut r, base.as_slice());
        } else if !is_whitespace(d) {
            r.push(to_ascii_lowercase(d));
        }
    }
    assert(s@.take(n as int) == s@);
    r
}

/// What the normal form makes of `c`.
fn fold_char_exec(c: char) -> (r: Option<Vec<char>>)
    ensures
        match r {
            Some(v) => fold_char(c) == Some(v@),
            None => fold_char(c) is None,
        },
{
    let base = latin_base_exec(c);
    if base.len() > 0 {
        Some(base)
    } else if char_is_alphanumeric(c) {
        if c <= '\x7f' {
            let mut v: Vec<char> = Vec::new();
            v.push(to_ascii_lowercase(c));
            Some(v)
        } else {
            let lower = char_to_lowercase(c);
            let folded = fold_lowercase_exec(lower.as_slice());
            if folded.len() > 0 {
                Some(folded)
            } else {
                None
            }
        }
    } else {
        None
    }
}

/// The normal form of the characters `s`.
pub fn normalize_chars(s: &[char]) -> (r: Vec<char>)
    ensures
        r@ == normalize_spec(s@),
        is_normal(r@),
{
    let mut result: Vec<char> = Vec::new();
    let mut last_was_space = false;
    let n = s.len();
    for i in 0..n
        invariant
            n == s@.len(),
            (result@, last_was_space) == normalize_scan(s@.take(i as int)),
    {
        assert(s@.take(i + 1).drop_last() == s@.take(i as int));
        match fold_char_exec(s[i]) {
            Some(m) => {
                append_chars(&mut result, m.as_slice());
                last_was_space = false;
            },
            None => {
                if !last_was_space && result.len() > 0 {
                    result.push(' ');
                    last_was_space = true;
                }
            },
        }
    }
    assert(s@.take(n as int) == s@);
    let r = trim_chars(result.as_slice());
    proof {
        lemma_normalize_is_normal(s@);
    }
    r
}

/// Normalises `s` for indexing and searching: the Latin letters of the
/// folding table (`latin_base`) lose their diacritic marks and become their
/// lower-case ASCII base letter, other alphanumeric characters become lower
/// case (`ß`, `æ` and other letters of their own stay one letter), and every
/// run of other characters between two kept ones becomes one space. Text
/// spelled in ASCII by the table comes out in ASCII.
pub fn normalize(s: &str) -> (r: String)
    ensures
        r@ == normalize_spec(s@),
        r@ == join(folded_runs(s@), seq![' ']),
        is_normal(r@),
        is_ascii_spelled(s@) ==> forall|i: int|
            0 <= i < r@.len() ==> #[trigger] r@[i] == ' ' || is_ascii_word_char(r@[i]),
{
    let chars = chars_of(s);
    let r = normalize_chars(chars.as_slice());
    proof {
        lemma_normalize_is_normal(s@);
        lemma_normalize_is_joined_runs(s@);
    }
    string_from_chars(r.as_slice())
}

/// The padded form of a token: trimmed, and if it is one numeric character
/// of one UTF-8 byte, followed by `xx`, or if it is two UTF-8 bytes of numeric
/// characters, followed by `x`.
pub open spec fn pad_token_spec(token: Seq<char>) -> Seq<char> {
    let t = trim_spec(token);
    let n = encode_utf8(t).len();
    if t.len() == 0 {
        seq![]
    } else if n == 1 {
        if is_numeric(t[0]) {
            t + seq!['x', 'x']
        } else {
            t
        }
    } else if n == 2 {
        if forall|i: int| 0 <= i < t.len() ==> #[trigger] is_numeric(t[i]) {
            t + seq!['x']
        } else {
            t
        }
    } else {
        t
    }
}

/// The UTF-8 encoding of a concatenation is the concatenation of the encodings.
pub proof fn lemma_encode_utf8_concat(a: Seq<char>, b: Seq<char>)
    ensures
        encode_utf8(a + b) == encode_utf8(a) + encode_utf8(b),
    decreases a.len(),
{
    if a.len() > 0 {
        lemma_encode_utf8_concat(a.drop_first(), b);
        assert((a + b).drop_first() == a.drop_first() + b);
        assert((a + b)[0] == a[0]);
    } else {
        assert(a + b == b);
    }
}

/// The number of UTF-8 bytes of a character.
pub open spec fn utf8_width(c: char) -> nat {
    if c <= '\x7f' {
        1
    } else if c <= '\u{7ff}' {
        2
    } else if c <= '\u{ffff}' {
        3
    } else {
        4
    }
}

/// A character takes `utf8_width` bytes.
pub proof fn lemma_encode_char_len(c: char)
    ensures
        encode_utf8(seq![c]).len() == utf8_width(c),
{
    broadcast use vstd::utf8::char_is_scalar;

    assert(seq![c].drop_first() == Seq::<char>::empty());
    assert(seq![c][0] == c);
    let u = c as u32;
    assert(vstd::utf8::is_scalar(u));
    assert(encode_utf8(Seq::<char>::empty()) == Seq::<u8>::empty());
    assert(encode_utf8(seq![c]) == vstd::utf8::encode_scalar(u) + Seq::<u8>::empty());
    assert(c <= '\x7f' <==> u <= 0x7f);
    assert(c <= '\u{7ff}' <==> u <= 0x7ff);
    assert(c <= '\u{ffff}' <==> u <= 0xffff);
}

/// An ASCII character takes one byte.
proof fn lemma_encode_ascii_char(c: char)
    requires
        c <= '\x7f',
    ensures
        encode_utf8(seq![c]).len() == 1,
{
    lemma_encode_char_len(c);
}

/// The number of UTF-8 bytes of `c`.
fn utf8_width_exec(c: char) -> (w: usize)
    ensures
        w == utf8_width(c),
{
    if c <= '\x7f' {
        1
    } else if c <= '\u{7ff}' {
        2
    } else if c <= '\u{ffff}' {
        3
    } else {
        4
    }
}

/// The number of UTF-8 bytes of `s`, or 3 where it is larger.
pub(crate) fn utf8_len_capped(s: &[char]) -> (n: usize)
    ensures
        n == if encode_utf8(s@).len() < 3 {
            encode_utf8(s@).len()
        } else {
            3
        },
{
    let mut acc: usize = 0;
    let len = s.len();
    for i in 0..len
        invariant
            len == s@.len(),
            acc == if encode_utf8(s@.take(i as int)).len() < 3 {
                encode_utf8(s@.take(i as int)).len()
            } else {
                3
            },
    {
        proof {
            assert(s@.take(i + 1) == s@.take(i as int) + seq![s@[i as int]]);
            lemma_encode_utf8_concat(s@.take(i as int), seq![s@[i as int]]);
            lemma_encode_char_len(s@[i as int]);
        }
        if acc < 3 {
            let w = utf8_width_exec(s[i]);
            acc = if acc + w < 3 {
                acc + w
            } else {
                3
            };
        }
    }
    assert(s@.take(len as int) == s@);
    acc
}

/// Each character takes at least one byte.
proof fn lemma_encode_len_at_least(s: Seq<char>)
    ensures
        encode_utf8(s).len() >= s.len(),
    decreases s.len(),
{
    if s.len() > 0 {
        lemma_encode_len_at_least(s.drop_first());
    }
}

/// A sequence of ASCII characters takes one byte per character.
pub proof fn lemma_encode_ascii_len(s: Seq<char>)
    requires
        forall|i: int| 0 <= i < s.len() ==> #[trigger] s[i] <= '\x7f',
    ensures
        encode_utf8(s).len() == s.len(),
    decreases s.len(),
{
    if s.len() > 0 {
        assert(s == seq![s[0]] + s.drop_first());
        lemma_encode_utf8_concat(seq![s[0]], s.drop_first());
        lemma_encode_char_len(s[0]);
        assert forall|i: int| 0 <= i < s.drop_first().len() implies #[trigger] s.drop_first()[i]
            <= '\x7f' by {
            assert(s.drop_first()[i] == s[i + 1]);
        }
        lemma_encode_ascii_len(s.drop_first());
    }
}

/// A word (no white space, not empty) pads to itself followed by `x`s, and a
/// word of ASCII digits pads to at least three characters.
pub proof fn lemma_pad_word(w: Seq<char>)
    requires
        w.len() > 0,
        all_chars(w, |c: char| !is_white_space(c)),
    ensures
        pad_token_spec(w).len() >= w.len(),
        pad_token_spec(w).subrange(0, w.len() as int) == w,
        forall|j: int|
            w.len() <= j < pad_token_spec(w).len() ==> #[trigger] pad_token_spec(w)[j] == 'x',
        all_digits(w) ==> pad_token_spec(w).len() >= 3,
{
    assert(!is_white_space(w[0]));
    assert(!is_white_space(w[w.len() - 1]));
    lemma_trim_of_trimmed(w);
    let p = pad_token_spec(w);
    assert(p.subrange(0, w.len() as int) == w);
    if all_digits(w) {
        assert forall|i: int| 0 <= i < w.len() implies #[trigger] w[i] <= '\x7f' by {
            assert(is_digit(w[i]));
        }
        lemma_encode_ascii_len(w);
        if w.len() == 1 {
            assert(is_digit(w[0]));
        }
        if w.len() == 2 {
            assert forall|i: int| 0 <= i < w.len() implies #[trigger] is_numeric(w[i]) by {
                assert(is_digit(w[i]));
            }
        }
    }
}

/// Padding a padded token changes nothing.
pub proof fn lemma_pad_token_idempotent(token: Seq<char>)
    ensures
        pad_token_spec(pad_token_spec(token)) == pad_token_spec(token),
{
    let t = trim_spec(token);
    let p = pad_token_spec(token);
    lemma_trim_is_subrange(token);
    let n = encode_utf8(t).len();
    lemma_encode_len_at_least(t);
    if t.len() == 0 {
        assert(trim_spec(p) == p);
    } else if p == t {
        lemma_trim_of_trimmed(t);
    } else {
        let pad = if n == 1 {
            seq!['x', 'x']
        } else {
            seq!['x']
        };
        assert(p == t + pad);
        assert(p[0] == t[0]);
        assert(p.last() == 'x');
        lemma_trim_of_trimmed(p);
        lemma_encode_utf8_concat(t, pad);
        lemma_encode_ascii_char('x');
        if n == 1 {
            lemma_encode_utf8_concat(seq!['x'], seq!['x']);
            assert(seq!['x'] + seq!['x'] == pad);
        }
        assert(encode_utf8(p).len() == 3);
    }
}

/// Pads a token so that the full-text index, which ignores words shorter than
/// three bytes, still holds short house numbers: the token is trimmed; a
/// one-byte numeric token gets `xx` appended and a two-byte numeric token gets
/// `x` appended; anything else is returned trimmed.
pub fn pad_token(token: &str) -> (r: String)
    ensures
        r@ == pad_token_spec(token@),
        trim_spec(token@).len() == 1 && '0' <= trim_spec(token@)[0] <= '9' ==> r@.len() == 3,
        trim_spec(token@).len() == 2 && '0' <= trim_spec(token@)[0] <= '9' && '0' <= trim_spec(
            token@,
        )[1] <= '9' ==> r@.len() == 3,
{
    let chars = chars_of(token);
    let t = trim_chars(chars.as_slice());
    if t.len() == 0 {
        return string_from_chars(t.as_slice());
    }
    let n = utf8_len_capped(t.as_slice());
    let mut out = t.clone();
    proof {
        let tt = trim_spec(token@);
        if tt.len() == 1 {
            assert(tt == seq![tt[0]]);
            if tt[0] <= '\x7f' {
                lemma_encode_ascii_char(tt[0]);
            }
        }
        if tt.len() == 2 && '0' <= tt[0] <= '9' && '0' <= tt[1] <= '9' {
            assert(tt == seq![tt[0]] + seq![tt[1]]);
            lemma_encode_utf8_concat(seq![tt[0]], seq![tt[1]]);
            lemma_encode_ascii_char(tt[0]);
            lemma_encode_ascii_char(tt[1]);
        }
    }
    if n == 1 {
        if char_is_numeric(t[0]) {
            out.push('x');
            out.push('x');
        }
    } else if n == 2 {
        let mut all_numeric = true;
        let len = t.len();
        for i in 0..len
            invariant
                len == t@.len(),
                all_numeric == (forall|j: int| 0 <= j < i ==> #[trigger] is_numeric(t@[j])),
        {
            let numeric = char_is_numeric(t[i]);
            assert(numeric == is_numeric(t@[i as int]));
            if !numeric {
                all_numeric = false;
            }
        }
        if all_numeric {
            out.push('x');
        }
    }
    string_from_chars(out.as_slice())
}

} // verus!
