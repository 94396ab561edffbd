use resume_youtube::json::ValeurJson;
use resume_youtube::transcript::{
    nettoyer_transcript_supplementaire, parser_json3_vers_texte, parser_srt_vers_texte, parser_vtt_vers_texte, retirer_balises,
    selectionner_meilleur_transcript, supprimer_doublons_consecutifs, texte_depuis_json3,
};

fn objet(membres: Vec<(&str, ValeurJson)>) -> ValeurJson {
    ValeurJson::Objet(membres.into_iter().map(|(k, v)| (k.to_string(), v)).collect())
}

fn chaine(s: &str) -> ValeurJson {
    ValeurJson::Chaine(s.to_string())
}

fn cars(s: &str) -> Vec<char> {
    s.chars().collect()
}

#[test]
fn vtt_sans_minutage_ni_balises_ni_doublons() {
    let vtt = "WEBVTT\nKind: captions\n\n00:00:01.000 --> 00:00:02.000 align:start\n<c>Bonjour</c> le monde\n\n00:00:02.000 --> 00:00:03.000\nBonjour le monde\nSuite   ici\n";
    assert_eq!(parser_vtt_vers_texte(vtt), "Kind: captions Bonjour le monde Suite ici");
}

#[test]
fn vtt_vide() {
    assert_eq!(parser_vtt_vers_texte("WEBVTT\n\n"), "");
}

#[test]
fn srt_sans_numeros_ni_minutage() {
    let srt = "1\r\n00:00:01,000 --> 00:00:02,000\r\n<i>Salut</i>\r\n\r\n2\r\n00:00:02,000 --> 00:00:03,000\r\nSalut\r\nà tous\r\n";
    assert_eq!(parser_srt_vers_texte(srt), "Salut à tous");
}

#[test]
fn json3_par_evenements() {
    let v = objet(vec![(
        "events",
        ValeurJson::Tableau(vec![
            objet(vec![("segs", ValeurJson::Tableau(vec![objet(vec![("utf8", chaine("Bon"))]), objet(vec![("utf8", chaine(" jour "))])]))]),
            objet(vec![("segs", ValeurJson::Tableau(vec![objet(vec![("utf8", chaine("\n"))])]))]),
            objet(vec![("tStartMs", ValeurJson::Nombre("1".to_string()))]),
            objet(vec![("segs", ValeurJson::Tableau(vec![objet(vec![("utf8", chaine("Bon jour"))])]))]),
            objet(vec![("segs", ValeurJson::Tableau(vec![objet(vec![("utf8", chaine("fin"))])]))]),
        ]),
    )]);
    assert_eq!(texte_depuis_json3(&v), "Bon jour fin");
}

#[test]
fn json3_repli_recursif() {
    let v = objet(vec![
        ("a", ValeurJson::Tableau(vec![objet(vec![("utf8", chaine(" x "))]), objet(vec![("b", objet(vec![("utf8", chaine("y"))]))])])),
        ("utf8", chaine("z")),
    ]);
    assert_eq!(texte_depuis_json3(&v), "x y z");
    assert_eq!(texte_depuis_json3(&ValeurJson::Nul), "");
}

#[test]
fn meilleur_transcript_le_plus_long_tronque() {
    let textes = vec!["abc".to_string(), "  ".to_string(), "abcdef".to_string()];
    assert_eq!(selectionner_meilleur_transcript(&textes, 4), Some("abcd".to_string()));
    let egaux = vec!["ab".to_string(), "cd".to_string()];
    assert_eq!(selectionner_meilleur_transcript(&egaux, 10), Some("ab".to_string()));
    assert_eq!(selectionner_meilleur_transcript(&Vec::new(), 10), None);
    assert_eq!(selectionner_meilleur_transcript(&vec!["x".to_string()], 0), None);
}

#[test]
fn doublons_consecutifs_retires() {
    let m = vec![cars(" a "), cars("a"), cars(""), cars("b"), cars(" b"), cars("a")];
    assert_eq!(supprimer_doublons_consecutifs(m), vec![cars("a"), cars("b"), cars("a")]);
}

#[test]
fn balises_retirees() {
    assert_eq!(retirer_balises(&cars("<b>x</b><>y")), cars("x<>y"));
}

#[test]
fn nettoyage_supplementaire() {
    assert_eq!(
        nettoyer_transcript_supplementaire("[Musique]  Bonjour\n[Applaudissements] tout   le [monde\n] fin "),
        "Bonjour tout le [monde ] fin"
    );
    assert_eq!(nettoyer_transcript_supplementaire("a[b[c]d]e"), "ad]e");
    assert_eq!(nettoyer_transcript_supplementaire(" [x] "), "");
}

#[test]
fn json3_depuis_le_texte() {
    let json3 = r#"{"events":[{"segs":[{"utf8":" Bonjour "},{"utf8":"le"}]},{"segs":[{"utf8":"Bonjour le"}]},{"segs":[{"utf8":"  "}]},{"segs":[{"utf8":"monde"}]}]}"#;
    assert_eq!(parser_json3_vers_texte(json3), "Bonjour le monde");
    assert_eq!(parser_json3_vers_texte("pas du json"), "");
    assert_eq!(parser_json3_vers_texte(r#"{"z": {"utf8": "b"}, "a": [{"utf8": " a "}]}"#), "a b");
}
