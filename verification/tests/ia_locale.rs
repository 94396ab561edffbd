use resume_youtube::ia_locale::{
    construire_prompt_chatml, continuer_generation, n_batch_decode, n_ctx_effectif, n_max_sortie, reponse_complete,
    reponse_locale, taille_lot, verifier_fenetre, ErreurIaLocale,
};

#[test]
fn prompt_chatml() {
    assert_eq!(
        construire_prompt_chatml(" sys ", "\nquestion\n"),
        "<|im_start|>system\nsys<|im_end|>\n<|im_start|>user\nquestion<|im_end|>\n<|im_start|>assistant\n"
    );
}

#[test]
fn fenetres_et_limites() {
    assert_eq!(n_ctx_effectif(4096, 100), 512);
    assert_eq!(n_ctx_effectif(4096, 50_000), 4096);
    assert_eq!(n_ctx_effectif(0, 8192), 512);
    assert_eq!(n_max_sortie(10), 64);
    assert_eq!(n_max_sortie(4096), 4096);
    assert_eq!(n_batch_decode(100, 50_000), 2048);
    assert_eq!(n_batch_decode(3000, 50_000), 3000);
    assert_eq!(n_batch_decode(3000, 1024), 1024);
    assert_eq!(taille_lot(10), 512);
    assert_eq!(taille_lot(600), 600);
    assert!(continuer_generation(0, 64, 10, 100));
    assert!(!continuer_generation(64, 64, 10, 100));
    assert!(!continuer_generation(0, 64, 100, 100));
}

#[test]
fn fenetre_trop_petite() {
    assert!(verifier_fenetre(100, 40, 60).is_ok());
    match verifier_fenetre(100, 41, 60) {
        Err(e) => {
            assert!(matches!(e, ErreurIaLocale::ContexteTropPetit { n_ctx: 100, n_prompt: 41, n_max_sortie: 60 }));
            assert_eq!(
                e.message(),
                "la fenêtre de contexte (n_ctx=100) est trop petite pour le prompt (41 tokens) et la sortie demandée (60)."
            );
        }
        Ok(()) => panic!("erreur attendue"),
    }
}

#[test]
fn textes_des_erreurs_locales() {
    assert_eq!(ErreurIaLocale::Decodage("x".into()).message(), "appel decode() échoué: x");
    assert_eq!(ErreurIaLocale::TokenVersTexte("y".into()).message(), "conversion token→texte échouée: y");
    assert_eq!(
        ErreurIaLocale::ContexteTropPetit { n_ctx: -1, n_prompt: 0, n_max_sortie: i32::MIN }.message(),
        "la fenêtre de contexte (n_ctx=-1) est trop petite pour le prompt (0 tokens) et la sortie demandée (-2147483648)."
    );
}

#[test]
fn reponse_locale_nettoyee_puis_tronquee() {
    assert_eq!(reponse_locale("<think>long raisonnement</think>  Bonjour à tous ", 7), "Bonjour");
    assert!(reponse_complete("abc", 3));
    assert!(!reponse_complete("abc", 4));
}

#[test]
fn lot_contient_tout_le_prompt_quand_la_fenetre_suffit() {
    for (n_prompt, n_max, n_ctx) in [(100u32, 64u32, 512u32), (3000, 64, 4096), (2047, 1, 2048), (5000, 100, 5100)] {
        assert!(n_prompt + n_max <= n_ctx);
        let b = n_batch_decode(n_prompt, n_ctx);
        assert!(n_prompt <= b && b <= n_ctx);
    }
}

#[test]
fn fenetre_plafonnee_par_le_modele_et_la_demande() {
    assert_eq!(n_ctx_effectif(8192, 131_072), 8192);
    assert_eq!(n_ctx_effectif(131_072, 4096), 4096);
    assert!(n_ctx_effectif(100, 100) >= 512);
}
