use core_db::{address_card, format_search_result, Adresa};

fn address() -> Adresa {
    Adresa {
        kod_adm: 21717621,
        kod_obce: 554782,
        nazev_obce: "Praha".to_string(),
        kod_momc: Some(500119),
        nazev_momc: Some("Praha 11".to_string()),
        kod_obvodu_prahy: Some(43),
        nazev_obvodu_prahy: Some("Praha 4".to_string()),
        kod_casti_obce: Some(490229),
        nazev_casti_obce: Some("Chodov".to_string()),
        kod_ulice: Some(457914),
        nazev_ulice: Some("Roztylská".to_string()),
        typ_so: "č.p.".to_string(),
        cislo_domovni: 1860,
        cislo_orientacni: Some(1),
        znak_cisla_orientacniho: None,
        psc: 14800,
        search: String::new(),
    }
}

#[test]
fn result_line_in_prague() {
    assert_eq!(format_search_result(&address()), "Roztylská 1860/1, Praha 11, Praha 4 148 00");
}

#[test]
fn result_line_without_street_and_with_registration_number() {
    let mut a = address();
    a.nazev_ulice = None;
    a.nazev_momc = None;
    a.nazev_obvodu_prahy = None;
    a.nazev_obce = "Říčany".to_string();
    a.nazev_casti_obce = Some("Jažlovice".to_string());
    a.typ_so = "č.ev.".to_string();
    a.cislo_domovni = 12;
    a.cislo_orientacni = None;
    a.psc = 25101;
    // The part is the street here, so only the municipality follows.
    assert_eq!(format_search_result(&a), "Jažlovice č.ev. 12, Říčany 251 01");
}

#[test]
fn result_line_with_orientation_letter() {
    let mut a = address();
    a.nazev_ulice = Some("Osadnická".to_string());
    a.nazev_obce = "Havířov".to_string();
    a.nazev_momc = None;
    a.nazev_obvodu_prahy = None;
    a.nazev_casti_obce = Some("Šumbark".to_string());
    a.cislo_domovni = 572;
    a.cislo_orientacni = Some(10);
    a.znak_cisla_orientacniho = Some("a".to_string());
    a.psc = 73601;
    assert_eq!(format_search_result(&a), "Osadnická 572/10a, Šumbark, Havířov 736 01");
}

#[test]
fn result_line_when_street_is_the_municipality() {
    let mut a = address();
    a.nazev_ulice = None;
    a.nazev_momc = None;
    a.nazev_obvodu_prahy = None;
    a.nazev_casti_obce = None;
    a.nazev_obce = "Aš".to_string();
    a.cislo_domovni = 5;
    a.cislo_orientacni = None;
    a.psc = 352;
    // No place follows, and a postal code that is not five digits stays as it is.
    assert_eq!(format_search_result(&a), "Aš 5, 352");
}

#[test]
fn card_for_selected_address() {
    let card = address_card(&address()).expect("a card");
    assert_eq!(card.heading, "Roztylská 1860/1");
    assert_eq!(card.location, "Praha 11, Praha 14800");
    assert_eq!(card.postal_code, "14800");
}

#[test]
fn card_without_district() {
    let mut a = address();
    a.nazev_momc = None;
    a.nazev_casti_obce = Some("Praha".to_string());
    a.cislo_orientacni = None;
    let card = address_card(&a).expect("a card");
    assert_eq!(card.heading, "Roztylská 1860");
    assert_eq!(card.location, "Praha 14800");
}

#[test]
fn no_card_without_address() {
    let mut a = address();
    a.kod_adm = 0;
    assert!(address_card(&a).is_none());
}
