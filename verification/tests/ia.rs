use resume_youtube::ia::{
    apres_reponse_chat, apres_reponse_modeles, conclure_chat, conclure_modeles_openrouter, demande_chat, erreur_modele_charge_annulee,
    est_openrouter, extraire_identifiants_modeles_depuis_json, lister_modeles_lm_studio, modele_a_charger, modeles_gratuits,
    reponse_finale, supprimer_blocs_pensee, url_chargement_modele, url_chat, url_modeles_openai, url_modeles_rest,
    valeur_entete_bearer, verifier_statut, ConfigurationIA, ErreurIA, EtapeModeles, LectureChat, PasChat, PasModeles,
};
use resume_youtube::json::ValeurJson;

fn config(base: &str, route: &str, modele: Option<&str>, cle: Option<&str>) -> ConfigurationIA {
    ConfigurationIA {
        base_url: base.to_string(),
        route: route.to_string(),
        modele: modele.map(|s| s.to_string()),
        max_caracteres_transcript: 25_000,
        max_caracteres_reponse: 18_000,
        cle_api_bearer: cle.map(|s| s.to_string()),
    }
}

fn objet(membres: Vec<(&str, ValeurJson)>) -> ValeurJson {
    ValeurJson::Objet(membres.into_iter().map(|(k, v)| (k.to_string(), v)).collect())
}

fn chaine(s: &str) -> ValeurJson {
    ValeurJson::Chaine(s.to_string())
}

fn s(v: &[&str]) -> Vec<String> {
    v.iter().map(|x| x.to_string()).collect()
}

#[test]
fn blocs_de_pensee_retires() {
    assert_eq!(supprimer_blocs_pensee("<think>x</think> Bonjour "), "Bonjour");
    assert_eq!(supprimer_blocs_pensee("<THINK>a\nb</Think>ok<think>c</think>!"), "ok!");
    assert_eq!(supprimer_blocs_pensee("<think> reste"), "<think> reste");
    assert_eq!(supprimer_blocs_pensee("<thin\u{212A}>k</think>z"), "z");
}

#[test]
fn reponse_tronquee_avant_le_nettoyage() {
    assert_eq!(reponse_finale("<think>abc</think>Réponse", 10), "<think>abc");
    assert_eq!(reponse_finale("<think>abc</think> Réponse longue", 26), "Réponse");
}

#[test]
fn adresses_du_serveur() {
    let c = config("http://h:1234//", "//v1/chat", None, None);
    assert_eq!(url_chat(&c), "http://h:1234/v1/chat");
    assert_eq!(url_modeles_openai(&c), "http://h:1234/v1/models");
    assert_eq!(url_modeles_rest(&c), "http://h:1234/api/v1/models");
    assert_eq!(url_chargement_modele(&c), "http://h:1234/api/v1/models/load");
}

#[test]
fn entete_bearer() {
    assert_eq!(valeur_entete_bearer(&config("b", "r", None, Some("  k "))), Some("Bearer k".to_string()));
    assert_eq!(valeur_entete_bearer(&config("b", "r", None, Some("  "))), None);
    assert_eq!(valeur_entete_bearer(&config("b", "r", None, None)), None);
}

#[test]
fn chargement_annule_et_modele_a_charger() {
    assert!(erreur_modele_charge_annulee(400, "Failed to load model: Operation Canceled"));
    assert!(!erreur_modele_charge_annulee(500, "failed to load model operation canceled"));
    assert!(!erreur_modele_charge_annulee(400, "failed to load model"));
    assert!(est_openrouter(&config("https://openrouter.ai/api/v1", "r", None, None)));
    assert_eq!(modele_a_charger(&config("http://h", "r", Some("m"), None)), Some("m".to_string()));
    assert_eq!(modele_a_charger(&config("http://h", "r", Some("  "), None)), None);
    assert_eq!(modele_a_charger(&config("https://openrouter.ai/api/v1", "r", Some("m"), None)), None);
}

#[test]
fn statut_hors_2xx_refuse() {
    assert!(verifier_statut(204, "").is_ok());
    match verifier_statut(404, &"x".repeat(2000)) {
        Err(ErreurIA::StatutHTTP { statut, corps }) => {
            assert_eq!(statut, 404);
            assert_eq!(corps.len(), 1500);
        }
        autre => panic!("erreur de statut attendue, pas {autre:?}"),
    }
    assert_eq!(
        ErreurIA::StatutHTTP { statut: 503, corps: "indispo".into() }.message(),
        "LM Studio a renvoyé un statut HTTP 503: indispo"
    );
    assert_eq!(ErreurIA::Requete { message: "m".into() }.message(), "échec requête LM Studio: m");
    assert_eq!(ErreurIA::Reponse { message: "m".into() }.message(), "réponse LM Studio inattendue: m");
}

#[test]
fn suite_de_l_appel_de_chat() {
    let c = config("http://h", "r", Some("m"), None);
    match apres_reponse_chat(&c, true, 400, "failed to load model: operation canceled") {
        PasChat::ChargerPuisRenvoyer(m) => assert_eq!(m, Some("m".to_string())),
        autre => panic!("rechargement attendu, pas {autre:?}"),
    }
    match apres_reponse_chat(&c, false, 400, "failed to load model: operation canceled") {
        PasChat::Echec(ErreurIA::StatutHTTP { statut, .. }) => assert_eq!(statut, 400),
        autre => panic!("échec attendu, pas {autre:?}"),
    }
    assert!(matches!(apres_reponse_chat(&c, true, 200, "{}"), PasChat::Lire));
}

#[test]
fn conclusion_du_chat() {
    match conclure_chat(5, LectureChat::Contenu("  abcdefgh".into())) {
        Ok(t) => assert_eq!(t, "abc"),
        autre => panic!("réponse attendue, pas {autre:?}"),
    }
    match conclure_chat(5, LectureChat::AucunChoix) {
        Err(ErreurIA::Reponse { message }) => assert_eq!(message, "aucune choice dans la réponse"),
        autre => panic!("erreur attendue, pas {autre:?}"),
    }
    match conclure_chat(5, LectureChat::Illisible("EOF".into())) {
        Err(ErreurIA::Reponse { message }) => assert_eq!(message, "impossible de parser la réponse JSON: EOF"),
        autre => panic!("erreur attendue, pas {autre:?}"),
    }
}

#[test]
fn identifiants_des_modeles() {
    let v = objet(vec![
        (
            "data",
            ValeurJson::Tableau(vec![
                objet(vec![("id", chaine("b"))]),
                objet(vec![("id", chaine("a"))]),
                chaine("c"),
                objet(vec![("name", chaine(""))]),
                objet(vec![("key", chaine("k")), ("id", chaine("z"))]),
                ValeurJson::Nombre("3".into()),
            ]),
        ),
        ("models", ValeurJson::Tableau(vec![objet(vec![("model", chaine("a"))])])),
    ]);
    assert_eq!(extraire_identifiants_modeles_depuis_json(&v), s(&["a", "b", "c", "k"]));
    let imbrique = objet(vec![("data", objet(vec![("models", ValeurJson::Tableau(vec![chaine("y"), chaine("x")]))]))]);
    assert_eq!(extraire_identifiants_modeles_depuis_json(&imbrique), s(&["x", "y"]));
}

#[test]
fn modeles_gratuits_tries() {
    assert_eq!(modeles_gratuits(s(&["x:free", "a", "b:free", "x:free"])), s(&["b:free", "x:free"]));
}

#[test]
fn liste_des_modeles_lm_studio() {
    let c = config("http://h/", "r", None, None);
    let (url, etape) = lister_modeles_lm_studio(&c);
    assert_eq!(url, "http://h/v1/models");
    assert_eq!(etape, EtapeModeles::OpenAi);
    match apres_reponse_modeles(&c, EtapeModeles::OpenAi, 404, "") {
        PasModeles::Demander(u, e) => {
            assert_eq!(u, "http://h/api/v1/models");
            assert_eq!(e, EtapeModeles::RestApres404);
        }
        autre => panic!("demande attendue, pas {autre:?}"),
    }
    match apres_reponse_modeles(&c, EtapeModeles::OpenAi, 200, r#"{"data": []}"#) {
        PasModeles::Demander(_, e) => assert_eq!(e, EtapeModeles::RestApresVide),
        autre => panic!("demande attendue, pas {autre:?}"),
    }
    match apres_reponse_modeles(&c, EtapeModeles::OpenAi, 200, r#"{"data": ["m", {"id": "b"}], "models": [{"name": "a"}]}"#) {
        PasModeles::Fini(Ok(ids)) => assert_eq!(ids, s(&["a", "b", "m"])),
        autre => panic!("liste attendue, pas {autre:?}"),
    }
    match apres_reponse_modeles(&c, EtapeModeles::RestApresVide, 404, "") {
        PasModeles::Fini(Ok(ids)) => assert!(ids.is_empty()),
        autre => panic!("liste vide attendue, pas {autre:?}"),
    }
    match apres_reponse_modeles(&c, EtapeModeles::RestApresVide, 200, r#"{"models": ["x"]}"#) {
        PasModeles::Fini(Ok(ids)) => assert_eq!(ids, s(&["x"])),
        autre => panic!("liste attendue, pas {autre:?}"),
    }
    match apres_reponse_modeles(&c, EtapeModeles::RestApres404, 500, "err") {
        PasModeles::Fini(Err(ErreurIA::StatutHTTP { statut, corps })) => {
            assert_eq!(statut, 500);
            assert_eq!(corps, "err");
        }
        autre => panic!("erreur attendue, pas {autre:?}"),
    }
    match apres_reponse_modeles(&c, EtapeModeles::OpenAi, 200, "{") {
        PasModeles::Fini(Err(ErreurIA::Reponse { message })) => {
            assert!(message.starts_with("impossible de parser la réponse JSON: "));
            assert!(message.len() > "impossible de parser la réponse JSON: ".len());
        }
        autre => panic!("erreur attendue, pas {autre:?}"),
    }
}

#[test]
fn requete_de_chat() {
    let d = demande_chat(&config("b", "r", Some("m"), None), "sys", "question");
    assert_eq!(d.modele, Some("m".to_string()));
    assert_eq!(d.messages.len(), 2);
    assert_eq!((d.messages[0].role.as_str(), d.messages[0].contenu.as_str()), ("system", "sys"));
    assert_eq!((d.messages[1].role.as_str(), d.messages[1].contenu.as_str()), ("user", "question"));
    assert!(!d.stream);
    assert_eq!(demande_chat(&config("b", "r", None, None), "", "").modele, None);
}

#[test]
fn modeles_openrouter() {
    assert_eq!(conclure_modeles_openrouter(200, "", Ok(s(&["z:free", "y"]))).unwrap(), s(&["z:free"]));
    assert!(matches!(conclure_modeles_openrouter(401, "non", Ok(Vec::new())), Err(ErreurIA::StatutHTTP { statut: 401, .. })));
    assert!(matches!(conclure_modeles_openrouter(200, "", Err("x".into())), Err(ErreurIA::Reponse { .. })));
}
