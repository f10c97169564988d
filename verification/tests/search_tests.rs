use core_db::{
    build_search_query, index_columns, pad_token, plan_search, search_query, search_text, should_flush,
    Adresa, QueryPiece, SearchPlan, BATCH_ROWS,
};

fn roztylska() -> Adresa {
    Adresa {
        kod_adm: 21717621,
        kod_obce: 554782,
        nazev_obce: "Praha".to_string(),
        kod_momc: Some(500119),
        nazev_momc: Some("Praha 11".to_string()),
        kod_obvodu_prahy: Some(43),
        nazev_obvodu_prahy: Some("Praha 4".to_string()),
        kod_casti_obce: Some(490229),
        nazev_casti_obce: Some("Chodov".to_string()),
        kod_ulice: Some(457914),
        nazev_ulice: Some("Roztylská".to_string()),
        typ_so: "č.p.".to_string(),
        cislo_domovni: 1860,
        cislo_orientacni: Some(1),
        znak_cisla_orientacniho: None,
        psc: 14800,
        search: String::new(),
    }
}

fn plan(input: &str) -> SearchPlan {
    plan_search(input).expect("a plan")
}

fn strings(v: &[&str]) -> Vec<String> {
    v.iter().map(|s| s.to_string()).collect()
}

#[test]
fn plan_for_street_numbers_city_and_postcode() {
    let p = plan("17. listopadu 30/8 Říčany 25101");
    assert_eq!(p.fts_query, "+listopadu* +ricany*");
    assert_eq!(p.text_tokens, strings(&["listopadu", "ricany"]));
    assert_eq!(p.number_candidates, vec![17, 30, 8]);
    assert_eq!(p.exact_postal_codes, vec![25101]);
    assert_eq!(p.postal_prefixes, vec![(17, 2), (30, 2)]);
    assert_eq!(p.slash_pairs, vec![(30, 8)]);
}

#[test]
fn plan_for_prague_district() {
    let p = plan("Budějovická 779 Praha 4");
    assert_eq!(p.fts_query, "+budejovicka* +praha*");
    assert_eq!(p.text_tokens, strings(&["budejovicka", "praha"]));
    assert_eq!(p.number_candidates, vec![779, 4]);
    assert!(p.exact_postal_codes.is_empty());
    assert_eq!(p.postal_prefixes, vec![(779, 3)]);
    assert!(p.slash_pairs.is_empty());
}

#[test]
fn plan_for_house_and_orientation_with_letter() {
    let p = plan("Osadnická 572/10a");
    assert_eq!(p.fts_query, "+osadnicka* +10a*");
    assert_eq!(p.number_candidates, vec![572, 10]);
    assert_eq!(p.postal_prefixes, vec![(572, 3)]);
    assert_eq!(p.slash_pairs, vec![(572, 10)]);
}

#[test]
fn plan_for_short_city() {
    let p = plan("Okružní 32 Aš");
    assert_eq!(p.fts_query, "+okruzni* +as*");
    assert_eq!(p.number_candidates, vec![32]);
    assert_eq!(p.postal_prefixes, vec![(32, 2)]);
}

#[test]
fn plan_for_prefix_words() {
    let p = plan("mirova 1 ri");
    assert_eq!(p.fts_query, "+mirova* +ri*");
    assert_eq!(p.number_candidates, vec![1]);
    assert!(p.postal_prefixes.is_empty());
    assert!(p.exact_postal_codes.is_empty());
}

#[test]
fn plan_for_split_postcode() {
    let p = plan("výletní 251 62");
    assert_eq!(p.fts_query, "+vyletni*");
    assert_eq!(p.number_candidates, vec![251, 62]);
    assert_eq!(p.exact_postal_codes, vec![25162]);
    assert_eq!(p.postal_prefixes, vec![(251, 3), (62, 2)]);
}

#[test]
fn plan_for_swapped_slash_pair() {
    let p = plan("Rýdlova 1/38");
    assert_eq!(p.fts_query, "+rydlova*");
    assert_eq!(p.number_candidates, vec![1, 38]);
    assert_eq!(p.slash_pairs, vec![(1, 38)]);
}

#[test]
fn plan_is_none_without_text_words() {
    assert!(plan_search("").is_none());
    assert!(plan_search("   \t ").is_none());
    assert!(plan_search("-- / ,,").is_none());
    assert!(plan_search("25101").is_none());
    assert!(plan_search("251 01").is_none());
    assert!(plan_search("1860/1").is_none());
}

#[test]
fn plan_is_none_when_numbers_cannot_match() {
    assert!(plan_search("Praha 123456").is_none());
    assert!(plan_search("Mírová 1234567 888888").is_none());
    assert!(plan_search("Praha 12 123456").is_some());
}

#[test]
fn numbers_no_address_has_leave_no_plain_branch() {
    let p = plan("Mírová 999 888");
    assert_eq!(p.fts_query, "+mirova*");
    assert_eq!(p.number_candidates, vec![999, 888]);
    let pieces = search_query(&p);
    assert_eq!(priorities(&pieces), strings(&["500", "400", "210"]));
    assert!(!pieces.contains(&sql("1=1")));
    assert_eq!(
        ints(&pieces),
        vec![999, 888, 999, 888, 999, 888, 99900, 99999, 88800, 88899]
    );
}

#[test]
fn plain_branch_only_without_numbers() {
    let pieces = search_query(&plan("Roztylská Praha"));
    assert_eq!(priorities(&pieces), strings(&["100"]));
}

#[test]
fn plan_terms_do_not_depend_on_order() {
    let mut a = plan("Praha Roztylská").text_tokens;
    let mut b = plan("Roztylská Praha").text_tokens;
    a.sort();
    b.sort();
    assert_eq!(a, b);
}

#[test]
fn more_words_require_more_terms() {
    let fewer = plan("Roztylská").text_tokens;
    let more = plan("Roztylská Praha 1860").text_tokens;
    for t in &fewer {
        assert!(more.contains(t));
    }
    assert!(more.len() > fewer.len());
}

fn only_fallback_plan() -> SearchPlan {
    SearchPlan {
        fts_query: "+praha*".to_string(),
        text_tokens: strings(&["praha"]),
        number_candidates: vec![],
        exact_postal_codes: vec![],
        postal_prefixes: vec![],
        slash_pairs: vec![],
    }
}

const COLUMNS: &str = "kod_adm, kod_obce, nazev_obce, kod_momc, nazev_momc, kod_obvodu_prahy, \
nazev_obvodu_prahy, kod_casti_obce, nazev_casti_obce, kod_ulice, nazev_ulice, typ_so, cislo_domovni, \
cislo_orientacni, znak_cisla_orientacniho, psc, souradnice_y, souradnice_x, plati_od, search";

const HEAD: &str = " FROM (SELECT ranked.*, ROW_NUMBER() OVER (PARTITION BY ranked.kod_adm ORDER BY \
ranked.priority DESC, ranked.fts_score DESC) AS rn FROM (";

const TAIL: &str =
    ") ranked) dedup WHERE dedup.rn = 1 ORDER BY dedup.priority DESC, dedup.fts_score DESC LIMIT 20";

fn sql(s: &str) -> QueryPiece {
    QueryPiece::Sql(s.to_string())
}

#[test]
fn query_with_only_the_full_text_branch() {
    let fts = || QueryPiece::Text("+praha*".to_string());
    assert_eq!(
        search_query(&only_fallback_plan()),
        vec![
            sql("SELECT "),
            sql(COLUMNS),
            sql(HEAD),
            sql("(SELECT a.*, "),
            sql("100"),
            sql(" AS priority, MATCH(a.search) AGAINST("),
            fts(),
            sql(" IN BOOLEAN MODE) AS fts_score FROM adresa a WHERE MATCH(a.search) AGAINST("),
            fts(),
            sql(" IN BOOLEAN MODE) AND ("),
            sql("1=1"),
            sql(") LIMIT 20)"),
            sql(TAIL),
        ]
    );
}

fn texts(pieces: &[QueryPiece]) -> Vec<String> {
    pieces
        .iter()
        .filter_map(|p| match p {
            QueryPiece::Text(t) => Some(t.clone()),
            _ => None,
        })
        .collect()
}

fn ints(pieces: &[QueryPiece]) -> Vec<i32> {
    pieces
        .iter()
        .filter_map(|p| match p {
            QueryPiece::Int(v) => Some(*v),
            _ => None,
        })
        .collect()
}

fn priorities(pieces: &[QueryPiece]) -> Vec<String> {
    let mut r = Vec::new();
    for w in pieces.windows(2) {
        if w[0] == sql("(SELECT a.*, ") {
            if let QueryPiece::Sql(p) = &w[1] {
                r.push(p.clone());
            }
        }
    }
    r
}

#[test]
fn query_for_slash_pair_in_prague() {
    let pieces = search_query(&plan("Dlouhá 12/5 Praha"));
    let fts = "+dlouha* +praha*".to_string();
    assert_eq!(priorities(&pieces), strings(&["500", "400", "300", "210"]));
    let mut expected_texts = vec![fts.clone(), fts.clone()];
    expected_texts.extend(strings(&["12_12", "12_5", "5_12", "5_5", "12_12", "5_12", "12_5", "5_5"]));
    for _ in 0..6 {
        expected_texts.push(fts.clone());
    }
    assert_eq!(texts(&pieces), expected_texts);
    assert_eq!(ints(&pieces), vec![12, 5, 12, 5, 12, 5, 5, 12, 12, 5, 12, 5, 12000, 12999]);
}

#[test]
fn query_for_postal_code_prefix_and_exact_code() {
    let pieces = search_query(&plan("Praha 251"));
    assert_eq!(priorities(&pieces), strings(&["500", "400", "210"]));
    assert_eq!(ints(&pieces), vec![251, 251, 251, 25100, 25199]);

    let pieces = search_query(&plan("Praha 251 01"));
    assert_eq!(priorities(&pieces), strings(&["500", "400", "300", "220", "210"]));
    assert_eq!(
        ints(&pieces),
        vec![251, 1, 251, 1, 251, 1, 1, 25101, 25100, 25199, 1000, 1999]
    );
}

fn branch(priority: &str, filter: &str) -> String {
    format!(
        "(SELECT a.*, {} AS priority, MATCH(a.search) AGAINST(? IN BOOLEAN MODE) AS fts_score \
         FROM adresa a WHERE MATCH(a.search) AGAINST(? IN BOOLEAN MODE) AND ({}) LIMIT 20)",
        priority, filter
    )
}

#[test]
fn builder_text_for_a_prague_district() {
    let qb = build_search_query(&plan("Praha 5"));
    let branches = [
        branch(
            "500",
            "(a.cislo_domovni IN (?) OR a.cislo_orientacni IN (?)) OR a.domovni_orientacni_klic IN (?) \
             OR a.orientacni_domovni_klic IN (?)",
        ),
        branch("400", "a.ulice_cislo IN (?)"),
        branch("300", "a.obvod_prahy_cislo IN (?)"),
    ];
    let expected = format!("SELECT {}{}{}{}", COLUMNS, HEAD, branches.join(" UNION ALL "), TAIL);
    assert_eq!(qb.0.sql(), expected);
}

#[test]
fn builder_text_with_only_full_text() {
    let qb = build_search_query(&only_fallback_plan());
    let expected = format!("SELECT {}{}{}{}", COLUMNS, HEAD, branch("100", "1=1"), TAIL);
    assert_eq!(qb.0.sql(), expected);
}

#[test]
fn search_column_of_an_address() {
    assert_eq!(
        search_text(&roztylska()),
        "roztylska praha chodov praha 4xx praha 11x 1860 1xx 1860 1xx 1xx 1860 14800 148 00x"
    );
}

#[test]
fn search_column_pads_every_number_word() {
    let column = search_text(&roztylska());
    for w in column.split(' ') {
        assert!(!w.is_empty());
        if w.chars().all(|c| c.is_ascii_digit()) {
            assert!(w.len() >= 3, "{}", w);
        }
    }
}

#[test]
fn search_column_with_orientation_letter() {
    let mut a = roztylska();
    a.nazev_ulice = Some("Osadnická".to_string());
    a.nazev_obce = "Havířov".to_string();
    a.nazev_casti_obce = Some("Šumbark".to_string());
    a.nazev_obvodu_prahy = None;
    a.nazev_momc = None;
    a.cislo_domovni = 572;
    a.cislo_orientacni = Some(10);
    a.znak_cisla_orientacniho = Some(" A ".to_string());
    a.psc = 73601;
    assert_eq!(
        search_text(&a),
        "osadnicka havirov sumbark 572 10a 572 10a 10a 572 a 73601 736 01x"
    );
}

#[test]
fn search_column_without_street() {
    let mut a = roztylska();
    a.nazev_ulice = None;
    a.nazev_momc = None;
    a.nazev_obvodu_prahy = None;
    a.nazev_obce = "Aš".to_string();
    a.nazev_casti_obce = Some("Aš".to_string());
    a.cislo_domovni = 5;
    a.cislo_orientacni = None;
    a.psc = 352;
    assert_eq!(search_text(&a), "as as 5xx 352");
}

#[test]
fn search_column_is_its_own_normal_form() {
    let column = search_text(&roztylska());
    assert_eq!(core_db::normalize(&column), column);
}

#[test]
fn every_query_for_an_indexed_name_is_covered() {
    let a = roztylska();
    let column = search_text(&a);
    let tokens: Vec<&str> = column.split(' ').collect();
    for name in ["Roztylská", "Praha 11", "Praha 4", "Chodov", "Roztylská 1860/1 Praha"] {
        let p = plan(name);
        for t in &p.text_tokens {
            let padded = pad_token(t);
            assert!(tokens.contains(&padded.as_str()), "{} not in {}", padded, column);
        }
    }
}

#[test]
fn index_columns_of_an_address() {
    let c = index_columns(&roztylska());
    assert_eq!(c.ulice_cislo, None);
    assert_eq!(c.obvod_prahy_cislo, Some(4));
    assert_eq!(c.domovni_orientacni_klic, Some("1860_1".to_string()));
    assert_eq!(c.orientacni_domovni_klic, Some("1_1860".to_string()));

    let mut a = roztylska();
    a.nazev_ulice = Some("17. listopadu".to_string());
    a.nazev_obvodu_prahy = Some("Praha 23".to_string());
    a.cislo_orientacni = None;
    let c = index_columns(&a);
    assert_eq!(c.ulice_cislo, Some(17));
    assert_eq!(c.obvod_prahy_cislo, None);
    assert_eq!(c.domovni_orientacni_klic, None);
    assert_eq!(c.orientacni_domovni_klic, None);
}

#[test]
fn address_keys_are_among_the_asked_keys() {
    let c = index_columns(&roztylska());
    let texts = texts(&search_query(&plan("Roztylská 1860/1")));
    assert!(texts.contains(c.domovni_orientacni_klic.as_ref().unwrap()));
    assert!(texts.contains(c.orientacni_domovni_klic.as_ref().unwrap()));
}

#[test]
fn batches_are_written_at_the_limit_and_at_the_end() {
    assert_eq!(BATCH_ROWS, 2000);
    assert!(should_flush(2000, false));
    assert!(!should_flush(1999, false));
    assert!(should_flush(1, true));
    assert!(!should_flush(0, true));
}
