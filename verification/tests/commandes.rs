use resume_youtube::commandes::{
    bloc_resume, choisir_source_test, configuration_ia_depuis_payload, entree_index, est_fournisseur_local,
    etat_modele_local, format_depuis_chaine, fournisseur_lm_studio_defaut, libelle_format, ligne_rapport, n_ctx_local,
    nom_fichier_sortie, nom_fichier_transcript, plan_synchronisation_textes_libres, preparer_texte_libre, recharger_modele_local,
    ConfigurationLmPayload, EntreeTexteLibreSauvegarde, IssueTest, SourceTest,
};
use resume_youtube::config::FormatSortie;
use resume_youtube::youtube::VideoInfo;

fn payload(fournisseur: &str) -> ConfigurationLmPayload {
    ConfigurationLmPayload {
        fournisseur: fournisseur.to_string(),
        cle_openrouter: None,
        base_url: None,
        route: None,
        modele: None,
        cle_lm_studio: None,
        n_ctx: None,
    }
}

#[test]
fn configuration_lm_studio_par_defaut() {
    let c = configuration_ia_depuis_payload(&payload("  "), 25_000, 18_000).unwrap();
    assert_eq!(c.base_url, "http://192.168.1.71:1234");
    assert_eq!(c.route, "v1/chat/completions");
    assert_eq!(c.modele, Some("google/gemma-4-26b-a4b".to_string()));
    assert_eq!(c.max_caracteres_transcript, 25_000);
    assert_eq!(c.max_caracteres_reponse, 18_000);
    assert_eq!(c.cle_api_bearer, None);
}

#[test]
fn configuration_lm_studio_personnalisee() {
    let mut p = payload("lm_studio");
    p.base_url = Some(" http://h:1 ".into());
    p.route = Some("  //api/chat ".into());
    p.modele = Some(" m ".into());
    p.cle_lm_studio = Some(" k ".into());
    let c = configuration_ia_depuis_payload(&p, 1, 2).unwrap();
    assert_eq!(c.base_url, "http://h:1");
    assert_eq!(c.route, "api/chat");
    assert_eq!(c.modele, Some("m".to_string()));
    assert_eq!(c.cle_api_bearer, Some("k".to_string()));
    p.route = Some(" / ".into());
    assert_eq!(configuration_ia_depuis_payload(&p, 1, 2).unwrap().route, "v1/chat/completions");
}

#[test]
fn configuration_openrouter_exige_une_cle() {
    let mut p = payload(" openrouter ");
    assert_eq!(configuration_ia_depuis_payload(&p, 1, 2).unwrap_err(), "Clé API OpenRouter requise (paramètres).");
    p.cle_openrouter = Some(" sk ".into());
    let c = configuration_ia_depuis_payload(&p, 1, 2).unwrap();
    assert_eq!(c.base_url, "https://openrouter.ai/api/v1");
    assert_eq!(c.route, "chat/completions");
    assert_eq!(c.cle_api_bearer, Some("sk".to_string()));
    assert_eq!(c.modele, Some("google/gemma-4-26b-a4b".to_string()));
}

#[test]
fn formats_connus() {
    assert_eq!(format_depuis_chaine("carte_mentale"), Ok(FormatSortie::CarteMentale));
    assert_eq!(format_depuis_chaine("bullets"), Ok(FormatSortie::CarteMentale));
    assert_eq!(format_depuis_chaine("pdf"), Err("format inconnu: pdf".to_string()));
}

#[test]
fn fournisseur_local_et_fenetre() {
    assert!(est_fournisseur_local(&payload(" local ")));
    assert!(!est_fournisseur_local(&payload("lm_studio")));
    assert_eq!(fournisseur_lm_studio_defaut(), "lm_studio");
    assert_eq!(n_ctx_local(None), 50_000);
    assert_eq!(n_ctx_local(Some(10)), 512);
    assert_eq!(n_ctx_local(Some(1_000_000)), 131_072);
    assert_eq!(n_ctx_local(Some(8192)), 8192);
}

#[test]
fn texte_libre_prepare() {
    assert_eq!(preparer_texte_libre("  ", "t", "carte_mentale").unwrap_err(), "identifiant texte manquant");
    assert_eq!(preparer_texte_libre("id", "t", "x").unwrap_err(), "format inconnu: x");
    assert_eq!(preparer_texte_libre("id", "  ", "bullets").unwrap_err(), "texte vide");
    let p = preparer_texte_libre(" id ", "  bonjour ", "carte_mentale").unwrap();
    assert_eq!(p.id, "id");
    assert_eq!(p.texte, "bonjour");
    assert!(!p.tronque);
    let long = "a".repeat(25_001);
    let p = preparer_texte_libre("id", &long, "carte_mentale").unwrap();
    assert_eq!(p.texte.chars().count(), 25_000);
    assert!(p.tronque);
}

#[test]
fn synchronisation_des_textes_libres() {
    let entrees = vec![
        EntreeTexteLibreSauvegarde { id: " a/b ".into(), contenu: " texte ".into(), resume_carte_mentale: Some(" carte ".into()) },
        EntreeTexteLibreSauvegarde { id: " ".into(), contenu: "x".into(), resume_carte_mentale: None },
        EntreeTexteLibreSauvegarde { id: "c".into(), contenu: "  ".into(), resume_carte_mentale: None },
        EntreeTexteLibreSauvegarde { id: "d".into(), contenu: "y".into(), resume_carte_mentale: Some("  ".into()) },
    ];
    let plan = plan_synchronisation_textes_libres(&entrees);
    assert_eq!(plan.len(), 2);
    assert_eq!(plan[0].dossier, vec!["textes_libres".to_string(), "a_b".to_string()]);
    assert_eq!(plan[0].texte_source, "texte");
    assert_eq!(plan[0].carte_mentale, Some("carte".to_string()));
    assert_eq!(plan[1].dossier, vec!["textes_libres".to_string(), "d".to_string()]);
    assert_eq!(plan[1].carte_mentale, None);
}

#[test]
fn source_du_test() {
    assert_eq!(choisir_source_test(Some("c".into()), None), Ok(("c".to_string(), SourceTest::Chaine)));
    assert_eq!(choisir_source_test(None, Some("v".into())), Ok(("v".to_string(), SourceTest::Video)));
    assert_eq!(choisir_source_test(Some("c".into()), Some("v".into())), Err("Fournis seulement channel_url ou video_url.".to_string()));
    assert_eq!(choisir_source_test(None, None), Err("Fournis channel_url ou video_url.".to_string()));
}

#[test]
fn lignes_du_rapport() {
    assert_eq!(libelle_format(FormatSortie::CarteMentale), "CarteMentale");
    assert_eq!(ligne_rapport("CarteMentale", &IssueTest::Valide), "CarteMentale: OK\n");
    assert_eq!(ligne_rapport("X", &IssueTest::IaIgnoree), "X: IA ignorée (pas de config LM).\n");
    assert_eq!(ligne_rapport("X", &IssueTest::ErreurIa("e".into())), "X: Erreur IA: e\n");
    assert_eq!(ligne_rapport("X", &IssueTest::SortieInvalide("s".into())), "X: Sortie invalide: s\n");
}

#[test]
fn noms_de_fichiers_et_blocs() {
    assert_eq!(bloc_resume("T", "corps"), "=== T ===\ncorps");
    assert_eq!(nom_fichier_sortie("v1", FormatSortie::CarteMentale), "v1_carte_mentale.md");
    assert_eq!(nom_fichier_transcript("v1"), "v1_transcript.txt");
}

#[test]
fn entree_de_l_index() {
    let v = VideoInfo { id: "i".into(), titre: "t".into(), url: "u".into(), date_publication: None };
    let e = entree_index(&v, Some("éé"), Some("i_transcript.txt".into()));
    assert!(e.ok);
    assert_eq!(e.nb_caracteres, Some(2));
    assert_eq!(e.fichier_transcript, Some("i_transcript.txt".to_string()));
    let e = entree_index(&v, None, Some("f".into()));
    assert!(!e.ok);
    assert_eq!(e.nb_caracteres, None);
    assert_eq!(e.fichier_transcript, None);
}

#[test]
fn etat_du_modele_local() {
    let e = etat_modele_local("/m".into(), false, Some(5), Some(4096));
    assert_eq!(e.nom_fichier, "MARTHA-0.8B-Qwen3.5-Omni.Q8_0.gguf");
    assert_eq!(e.identifiant, "MARTHA-0.8B-Qwen3.5-Omni (Q8_0)");
    assert!(e.charge);
    assert_eq!(e.taille_octets, None);
    assert_eq!(e.n_ctx_courant, Some(4096));
    let e = etat_modele_local("/m".into(), true, Some(5), None);
    assert_eq!(e.taille_octets, Some(5));
    assert!(!e.charge);
}

#[test]
fn rechargement_du_modele_local() {
    assert!(recharger_modele_local(None, 4096));
    assert!(recharger_modele_local(Some(2048), 4096));
    assert!(!recharger_modele_local(Some(4096), 4096));
}
