use resume_youtube::json::{obtenir_membre, ValeurJson};
use resume_youtube::texte::{
    a_partir_de, avant_premier, compacter, contient_motif, decouper, egaux_ascii, est_blanc, joindre_morceaux,
    mettre_en_minuscules, position_parmi, retirer_debut, retirer_fin, rogner, rogner_debut, rogner_fin, tronquer,
    trouver_motif,
};

fn c(s: &str) -> Vec<char> {
    s.chars().collect()
}

#[test]
fn blancs_unicode() {
    assert!(est_blanc(' '));
    assert!(est_blanc('\u{a0}'));
    assert!(est_blanc('\u{3000}'));
    assert!(!est_blanc('x'));
    assert!(!est_blanc('\u{200b}'));
}

#[test]
fn rognage_et_compactage() {
    assert_eq!(rogner(&c("\u{a0} a b \n")), c("a b"));
    assert_eq!(rogner_debut(&c("  a ")), c("a "));
    assert_eq!(rogner_fin(&c("  a ")), c("  a"));
    assert_eq!(compacter(&c("a \t\n b  c ")), c("a b c "));
}

#[test]
fn decoupage_et_jointure() {
    assert_eq!(decouper(&c("a,,b,"), ','), vec![c("a"), c(""), c("b"), c("")]);
    assert_eq!(decouper(&c(""), ','), vec![c("")]);
    assert_eq!(joindre_morceaux(&vec![c("a"), c("b"), c("c")], &c(", ")), c("a, b, c"));
    assert_eq!(joindre_morceaux(&Vec::new(), &c(",")), c(""));
}

#[test]
fn recherche_de_motifs() {
    assert!(contient_motif(&c("abcabd"), &c("abd")));
    assert!(!contient_motif(&c("ab"), &c("abc")));
    assert_eq!(trouver_motif(&c("xxv=1v=2"), &c("v=")), Some(2));
    assert_eq!(trouver_motif(&c("abc"), &c("z")), None);
    assert_eq!(position_parmi(&c("a/b?c"), &c("?/")), Some(1));
    assert_eq!(avant_premier(&c("abc&def"), &c("&")), c("abc"));
    assert_eq!(a_partir_de(&c("abcdef"), 4), c("ef"));
}

#[test]
fn bords_et_casse() {
    assert_eq!(retirer_fin(&c("a///"), '/'), c("a"));
    assert_eq!(retirer_debut(&c("//a/"), '/'), c("a/"));
    assert!(egaux_ascii(&c("ShOrTs"), &c("shorts")));
    assert!(!egaux_ascii(&c("short"), &c("shorts")));
    assert_eq!(mettre_en_minuscules(&c("ABC é")), c("abc é"));
    assert_eq!(tronquer("héllo", 2), "hé");
    assert_eq!(tronquer("abc", 10), "abc");
}

#[test]
fn membre_d_objet_json() {
    let v = ValeurJson::Objet(vec![("a".to_string(), ValeurJson::Booleen(true)), ("b".to_string(), ValeurJson::Nul)]);
    assert!(matches!(obtenir_membre(&v, &"a".to_string()), Some(ValeurJson::Booleen(true))));
    assert!(matches!(obtenir_membre(&v, &"b".to_string()), Some(ValeurJson::Nul)));
    assert!(obtenir_membre(&v, &"c".to_string()).is_none());
    assert!(obtenir_membre(&ValeurJson::Tableau(Vec::new()), &"a".to_string()).is_none());
}
