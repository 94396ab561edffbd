use resume_youtube::config::FormatSortie;
use resume_youtube::resume::{
    construire_messages_resume, construire_messages_resume_texte_libre, formatter_sortie_resume_sortie,
    parser_sortie_ia_vers_sortie, ErreurSortieResume, SortieResume,
};

#[test]
fn messages_avec_titre() {
    let (system, user) = construire_messages_resume("  le transcript \n", Some(" Mon titre "), FormatSortie::CarteMentale);
    assert_eq!(system, "");
    assert_eq!(
        user,
        "Réalise une carte mentale de cette vidéo :\n\nTitre de la vidéo: Mon titre\nTranscript :\n---\nle transcript\n---"
    );
}

#[test]
fn messages_sans_titre() {
    let (_, a) = construire_messages_resume("t", None, FormatSortie::CarteMentale);
    let (_, b) = construire_messages_resume("t", Some("   "), FormatSortie::CarteMentale);
    assert_eq!(a, "Réalise une carte mentale de cette vidéo :\n\nTranscript :\n---\nt\n---");
    assert_eq!(a, b);
}

#[test]
fn messages_texte_libre() {
    let (system, user) = construire_messages_resume_texte_libre("  texte  ", FormatSortie::CarteMentale);
    assert_eq!(system, "");
    assert_eq!(user, "Réalise une carte mentale (Markdown) à partir du texte suivant :\n\n---\ntexte\n---");
}

#[test]
fn sortie_nettoyee() {
    match parser_sortie_ia_vers_sortie(FormatSortie::CarteMentale, "  # Carte\r\n- a\r\n ") {
        Ok(SortieResume::CarteMentaleMarkdown(t)) => assert_eq!(t, "# Carte\n- a"),
        autre => panic!("sortie attendue, pas {autre:?}"),
    }
}

#[test]
fn sortie_vide_refusee() {
    match parser_sortie_ia_vers_sortie(FormatSortie::CarteMentale, " \r\n ") {
        Err(e) => {
            let ErreurSortieResume::Invalide { format, message } = &e;
            assert_eq!(*format, FormatSortie::CarteMentale);
            assert_eq!(message, "sortie vide");
            assert_eq!(e.message(), "sortie IA invalide pour le format CarteMentale: sortie vide");
        }
        autre => panic!("erreur attendue, pas {autre:?}"),
    }
}

#[test]
fn sortie_puis_formatage_rend_le_texte_nettoye() {
    let s = parser_sortie_ia_vers_sortie(FormatSortie::CarteMentale, "a\r\nb").unwrap();
    assert_eq!(formatter_sortie_resume_sortie(FormatSortie::CarteMentale, s), "a\nb");
}

#[test]
fn extension_et_nom_du_format() {
    assert_eq!(FormatSortie::CarteMentale.ext_fichier(), "md");
    assert_eq!(FormatSortie::CarteMentale.nom_pour_prompt(), "carte_mentale");
}
