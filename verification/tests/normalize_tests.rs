use core_db::{normalize, pad_token};

#[test]
fn test_pad_token() {
    assert_eq!(pad_token("1"), "1xx");
    assert_eq!(pad_token("17"), "17x");
    assert_eq!(pad_token("123"), "123");
    assert_eq!(pad_token("praha"), "praha");
    assert_eq!(pad_token("a"), "a");
    assert_eq!(pad_token("ab"), "ab");
    assert_eq!(pad_token(""), "");
}

#[test]
fn pad_token_trims_before_padding() {
    assert_eq!(pad_token("  7 "), "7xx");
    assert_eq!(pad_token("\t42\n"), "42x");
    assert_eq!(pad_token("   "), "");
}

#[test]
fn pad_token_counts_bytes_not_characters() {
    // 'á' is two UTF-8 bytes but not numeric.
    assert_eq!(pad_token("á"), "á");
    // '²' is two UTF-8 bytes and numeric.
    assert_eq!(pad_token("²"), "²x");
    // A one-digit number next to a letter is not all numeric.
    assert_eq!(pad_token("1a"), "1a");
    assert_eq!(pad_token("1 2"), "1 2");
}

#[test]
fn pad_token_is_idempotent_on_examples() {
    for t in ["1", "17", "123", "praha", "a", "ab", "", " 5 ", "²", "á"] {
        let once = pad_token(t);
        assert_eq!(pad_token(&once), once);
    }
}

#[test]
fn normalize_strips_czech_diacritics() {
    assert_eq!(normalize("Říčany"), "ricany");
    assert_eq!(normalize("Budějovická"), "budejovicka");
    assert_eq!(normalize("ŽLUŤOUČKÝ KŮŇ ÚPĚL ĎÁBELSKÉ ÓDY"), "zlutoucky kun upel dabelske ody");
    assert_eq!(normalize("Äöüëä"), "aouea");
}

#[test]
fn normalize_collapses_separators() {
    assert_eq!(normalize("17. listopadu"), "17 listopadu");
    assert_eq!(normalize("  Praha  -  4 "), "praha 4");
    assert_eq!(normalize("30/8"), "30 8");
    assert_eq!(normalize("...,,,"), "");
    assert_eq!(normalize(""), "");
}

#[test]
fn normalize_folds_other_latin_letters() {
    assert_eq!(normalize("Łódź"), "lodz");
    assert_eq!(normalize("ŚWIĘTY Ñandú"), "swiety nandu");
    assert_eq!(normalize("Ⱥⱥ Ꝁ"), "aa k");
    assert_eq!(normalize("ＡＢＣ１"), "abc１");
    assert_eq!(normalize("ᴀʙᴄ"), "abc");
}

#[test]
fn normalize_keeps_letters_of_their_own() {
    assert_eq!(normalize("Straße"), "straße");
    assert_eq!(normalize("ẞ"), "ß");
    assert_eq!(normalize("Ærøskøbing"), "æroskobing");
    assert_eq!(normalize("ĲSSEL Œuvre Þórr"), "ĳssel œuvre þorr");
    assert_eq!(normalize("Ǆ"), "ǆ");
}

#[test]
fn normalize_is_never_longer() {
    for s in ["ß", "Æ", "Œ", "Þ", "Ĳ", "Ǆ", "İ", "Říčany 25101", "  a--b  ", "ＡＢＣ", "ΑΘΗΝΑ"] {
        let n = normalize(s);
        assert!(n.chars().count() <= s.chars().count(), "{:?}", s);
        assert!(n.len() <= s.len(), "{:?}", s);
    }
}

#[test]
fn normalize_lowers_letters_of_other_scripts() {
    assert_eq!(normalize("ΑΘΗΝΑ"), "αθηνα");
    assert_eq!(normalize("МОСКВА 1"), "москва 1");
}

#[test]
fn normalize_of_two_parts_joined_by_a_space() {
    let parts = ["", "  ", "Praha 4", "--", "Říčany", "30/8", "Łódź,", " x "];
    for a in parts {
        for b in parts {
            let expected: Vec<String> = [normalize(a), normalize(b)]
                .into_iter()
                .filter(|x| !x.is_empty())
                .collect();
            assert_eq!(normalize(&format!("{} {}", a, b)), expected.join(" "), "{:?} {:?}", a, b);
        }
    }
}

#[test]
fn normalize_ascii_characters_one_by_one() {
    for b in 0u8..128 {
        let c = b as char;
        let expected = if c.is_ascii_alphanumeric() {
            c.to_ascii_lowercase().to_string()
        } else {
            String::new()
        };
        assert_eq!(normalize(&c.to_string()), expected, "character {:?}", c);
    }
}

#[test]
fn normalize_is_idempotent_on_examples() {
    for s in ["Říčany 25101", "  a--b  ", "Łódź", "17. listopadu 30/8", "X\u{a0}Y", "Straße", "ÆØ", "ΑΘΗΝΑ"] {
        let once = normalize(s);
        assert_eq!(normalize(&once), once);
    }
}
