use resume_youtube::sous_titres::{
    codes_a_tester, construire_ordre_langues, est_en_tete_fausse_langue_liste_sous_titres,
    parser_codes_langues_depuis_sortie_liste_sous_titres, plan_extraction_transcript, FormatSousTitres,
};

fn cars(s: &str) -> Vec<char> {
    s.chars().collect()
}

fn texte(v: &[char]) -> String {
    v.iter().collect()
}

#[test]
fn parse_liste_sans_section_info_repli_plat() {
    let brut = "Language Name Formats\nen       English                 vtt, json3\n";
    let codes = parser_codes_langues_depuis_sortie_liste_sous_titres(brut);
    assert_eq!(codes.as_slice(), &["en".to_string()]);
}

#[test]
fn parse_liste_sous_titres_ignore_en_tete_language() {
    let brut = r"[info] Available subtitles for dQw4w9WgXcQ:
Language Name                    Formats
en       English                 vtt, ttml, srv3, json3
de-DE    German (Germany)        vtt, json3
[info] Available automatic captions for dQw4w9WgXcQ:
Language Name                    Formats
ab-en    Abkhazian from English vtt, json3
aa       Afar                  vtt, json3
";
    let codes = parser_codes_langues_depuis_sortie_liste_sous_titres(brut);
    assert_eq!(codes[0], "en");
    assert_eq!(codes[1], "de-DE");
    assert!(codes.contains(&"ab-en".into()));
    assert!(codes.contains(&"aa".into()));
    assert!(!codes.iter().any(|c| c == "Language"));
}

#[test]
fn parse_liste_manuels_avant_automatiques_sans_doublon() {
    let brut = "[info] Available automatic captions for x:\nfr  French vtt\nen  English vtt\n[info] Available subtitles for x:\nen  English vtt\nde  German srv3\n";
    let codes = parser_codes_langues_depuis_sortie_liste_sous_titres(brut);
    assert_eq!(codes, vec!["en".to_string(), "de".to_string(), "fr".to_string()]);
}

#[test]
fn parse_liste_sans_format_connu_ou_code_trop_court() {
    let brut = "[info] Available subtitles for x:\nen English ttml\nx  Un vtt\n";
    let codes = parser_codes_langues_depuis_sortie_liste_sous_titres(brut);
    assert!(codes.is_empty());
}

#[test]
fn en_tetes_reconnus() {
    assert!(est_en_tete_fausse_langue_liste_sous_titres("Language"));
    assert!(est_en_tete_fausse_langue_liste_sous_titres("Formats"));
    assert!(est_en_tete_fausse_langue_liste_sous_titres("INFO"));
    assert!(!est_en_tete_fausse_langue_liste_sous_titres("en"));
    assert!(!est_en_tete_fausse_langue_liste_sous_titres("language"));
}

#[test]
fn ordre_langues_preferees_puis_les_autres() {
    let disponibles = vec![cars("de"), cars("en-GB"), cars("fr-orig"), cars("en")];
    let preferences = vec![cars("fr"), cars("en"), cars("it")];
    let ordre = construire_ordre_langues(&disponibles, &preferences);
    let ordre: Vec<String> = ordre.iter().map(|c| texte(c)).collect();
    assert_eq!(ordre, vec!["fr-orig", "en-GB", "de", "en"]);
}

#[test]
fn codes_a_tester_sans_liste_donne_les_preferences() {
    let codes = codes_a_tester(&Vec::new());
    let codes: Vec<String> = codes.iter().map(|c| texte(c)).collect();
    assert_eq!(
        codes,
        vec!["en", "fr", "es", "de", "it", "pt", "ru", "ja", "nl", "pl", "ko", "zh", "hi", "ar", "tr"]
    );
}

#[test]
fn codes_a_tester_limites_a_seize() {
    let disponibles: Vec<Vec<char>> = (0..20).map(|i| cars(&format!("x{i}"))).collect();
    let codes = codes_a_tester(&disponibles);
    assert_eq!(codes.len(), 16);
    assert_eq!(texte(&codes[0]), "x0");
}

#[test]
fn plan_extraction_pour_deux_langues() {
    let plan = plan_extraction_transcript(&vec![cars("fr"), cars("en")]);
    let vue: Vec<(FormatSousTitres, String, bool, bool)> =
        plan.into_iter().map(|t| (t.format, t.langues, t.lire_si_echec, t.retenir_echec)).collect();
    assert_eq!(
        vue,
        vec![
            (FormatSousTitres::Vtt, "en,fr".to_string(), false, false),
            (FormatSousTitres::Vtt, "en".to_string(), true, true),
            (FormatSousTitres::Vtt, "fr".to_string(), true, true),
            (FormatSousTitres::Json3, "en".to_string(), true, true),
            (FormatSousTitres::Srt, "en".to_string(), true, true),
            (FormatSousTitres::Json3, "fr".to_string(), true, true),
            (FormatSousTitres::Srt, "fr".to_string(), true, true),
        ]
    );
}

#[test]
fn anglais_essaye_avant_francais() {
    let codes = codes_a_tester(&vec![cars("de"), cars("fr"), cars("en")]);
    let codes: Vec<String> = codes.iter().map(|c| texte(c)).collect();
    assert_eq!(codes, vec!["en", "fr", "de"]);
    let plan = plan_extraction_transcript(&vec![cars("fr"), cars("en")]);
    assert_eq!(plan[0].langues, "en,fr");
    assert_eq!(plan[1].langues, "en");
    assert_eq!(plan[2].langues, "fr");
}
