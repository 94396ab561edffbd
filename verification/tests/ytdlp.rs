use resume_youtube::json::ValeurJson;
use resume_youtube::sous_titres::FormatSousTitres;
use resume_youtube::youtube::{EntreeDump, ErreurYoutube, ModeListe};
use resume_youtube::ytdlp::{
    apres_tentative_sous_titres, arguments_extraction_sous_titres, arguments_yt_dlp_effectifs,
    conclure_sortie_ligne_par_ligne, delai_sleep_sous_titres_secondes, echec_sortie_unique, echec_transcript,
    echec_yt_dlp, erreur_delai_depasse, infos_apres_dump, infos_depuis_sortie_unique, infos_video_depuis_url,
    lignes_json, pause_apres_echec, textes_a_lire, IssueYtDlp, LancementYtDlp, PasInfos, PasSousTitres,
    SortieJsonUnique, candidats_yt_dlp, premier_existant, extraire_transcript, PasTranscript,
};

fn s(v: &[&str]) -> Vec<String> {
    v.iter().map(|x| x.to_string()).collect()
}

fn entree(id: &str) -> EntreeDump {
    EntreeDump { id: Some(id.to_string()), title: Some("T".to_string()), webpage_url: None, url: None, upload_date: None }
}

fn entree_vide() -> EntreeDump {
    EntreeDump { id: None, title: None, webpage_url: None, url: Some(ValeurJson::Nul), upload_date: None }
}

fn echec(e: &ErreurYoutube) -> (String, String, String) {
    match e {
        ErreurYoutube::EchecYtDlp { message, commande, stderr_tronque } => {
            (message.clone(), commande.clone(), stderr_tronque.clone())
        }
        _ => panic!("EchecYtDlp attendu, pas {e:?}"),
    }
}

#[test]
fn arguments_avec_extracteur() {
    let r = arguments_yt_dlp_effectifs(None, Some("  youtube:player_client=web ".to_string()), s(&["-J", "u"]));
    assert_eq!(r, s(&["--extractor-args", "youtube:player_client=web", "-J", "u"]));
}

#[test]
fn arguments_sans_extracteur() {
    let r = arguments_yt_dlp_effectifs(Some("1".to_string()), Some("x".to_string()), s(&["-J"]));
    assert_eq!(r, s(&["-J"]));
    let r = arguments_yt_dlp_effectifs(Some("0".to_string()), Some("   ".to_string()), s(&["-J"]));
    assert_eq!(r, s(&["-J"]));
    let r = arguments_yt_dlp_effectifs(Some(" 1".to_string()), Some("x".to_string()), s(&["-J"]));
    assert_eq!(r, s(&["--extractor-args", "x", "-J"]));
}

#[test]
fn commande_affichee() {
    let l = LancementYtDlp::ModulePython { interpreteur: "/usr/bin/python3".to_string() };
    assert_eq!(l.prefixe_debug(), "/usr/bin/python3 -m yt_dlp");
    let c = l.construire_commande_debug(&s(&["--output", "/tmp/a b/%(id)s", "-J"]));
    assert_eq!(c, "/usr/bin/python3 -m yt_dlp --output \"/tmp/a b/%(id)s\" -J");
    let b = LancementYtDlp::Binaire("/bin/yt-dlp".to_string());
    assert_eq!(b.construire_commande_debug(&Vec::new()), "/bin/yt-dlp");
}

#[test]
fn textes_des_erreurs() {
    let e = ErreurYoutube::EchecYtDlp { message: "m".into(), commande: "c".into(), stderr_tronque: "s".into() };
    assert_eq!(e.message(), "yt-dlp a échoué: m\nCommande: c\nStderr: s");
    assert_eq!(
        ErreurYoutube::YtDlpIntrouvable { message: "x".into() }.message(),
        "binaire externe `yt-dlp` introuvable ou inexécutable: x"
    );
    assert_eq!(
        ErreurYoutube::ListeVide.message(),
        "impossible d’extraire la liste de vidéos (yt-dlp a renvoyé zéro entrée)"
    );
    assert_eq!(ErreurYoutube::TranscriptIntrouvable("t".into()).message(), "t");
}

#[test]
fn echec_garde_le_debut_de_la_sortie_d_erreur() {
    let long = "é".repeat(2000);
    let e = echec_yt_dlp("m", "c", &long);
    let (m, c, st) = echec(&e);
    assert_eq!(m, "m");
    assert_eq!(c, "c");
    assert_eq!(st.chars().count(), 1500);
}

#[test]
fn delai_depasse() {
    let e = erreur_delai_depasse(90, "cmd", "err");
    assert_eq!(echec(&e), ("yt-dlp a dépassé le délai maximal (90s)".to_string(), "cmd".to_string(), "err".to_string()));
}

#[test]
fn lignes_json_rognees() {
    let flux = "bla\n  {\"id\": 1}  \r\n{x\n\n }\n[1]\n{";
    assert_eq!(lignes_json(flux), s(&["{\"id\": 1}", "{x", "{"]));
}

#[test]
fn conclusion_ligne_par_ligne() {
    let r = conclure_sortie_ligne_par_ligne(vec![entree("a")], false, "err", "cmd");
    assert_eq!(r.unwrap().len(), 1);
    let r = conclure_sortie_ligne_par_ligne(Vec::new(), true, "err", "cmd");
    assert!(r.unwrap().is_empty());
    let r = conclure_sortie_ligne_par_ligne(Vec::new(), false, "err", "cmd");
    assert_eq!(echec(&r.unwrap_err()), ("échec d’exécution de yt-dlp".to_string(), "cmd".to_string(), "err".to_string()));
}

#[test]
fn echec_de_la_sortie_unique() {
    assert_eq!(echec(&echec_sortie_unique(false, "e", "c")).0, "échec d’exécution de yt-dlp");
    assert_eq!(
        echec(&echec_sortie_unique(true, "e", "c")),
        ("parsing JSON de liste invalide".to_string(), "c".to_string(), String::new())
    );
}

#[test]
fn delai_entre_sous_titres() {
    assert_eq!(delai_sleep_sous_titres_secondes(None), 0);
    assert_eq!(delai_sleep_sous_titres_secondes(Some("12".into())), 12);
    assert_eq!(delai_sleep_sous_titres_secondes(Some("+30".into())), 30);
    assert_eq!(delai_sleep_sous_titres_secondes(Some("31".into())), 0);
    assert_eq!(delai_sleep_sous_titres_secondes(Some(" 5".into())), 0);
    assert_eq!(delai_sleep_sous_titres_secondes(Some("".into())), 0);
    assert_eq!(delai_sleep_sous_titres_secondes(Some("+".into())), 0);
    assert_eq!(delai_sleep_sous_titres_secondes(Some("99999999999999999999999".into())), 0);
    assert_eq!(delai_sleep_sous_titres_secondes(Some("007".into())), 7);
}

#[test]
fn arguments_d_extraction() {
    let a = arguments_extraction_sous_titres("https://v", "/tmp/d", "vtt", "fr,en", 0);
    assert_eq!(
        a,
        s(&[
            "--no-playlist", "--skip-download", "--write-auto-subs", "--write-subs", "--sub-langs", "fr,en",
            "--sub-format", "vtt", "--output", "/tmp/d/%(id)s.%(ext)s", "https://v",
        ])
    );
    let a = arguments_extraction_sous_titres("u", "d", "srt", "fr", 3);
    assert_eq!(&a[..3], &s(&["--no-playlist", "--sleep-subtitles", "3"])[..]);
    assert_eq!(a.len(), 13);
}

#[test]
fn reprises_apres_trop_de_requetes() {
    let attendues = [5u64, 14, 32, 60];
    for (t, p) in attendues.iter().enumerate() {
        match apres_tentative_sous_titres(t, "c", IssueYtDlp::Echouee { stderr: "HTTP Error 429".into() }) {
            PasSousTitres::Patienter(x) => assert_eq!(x, *p),
            autre => panic!("pause attendue, pas {autre:?}"),
        }
    }
    match apres_tentative_sous_titres(4, "c", IssueYtDlp::Echouee { stderr: "Too Many Requests".into() }) {
        PasSousTitres::Fini(Err(e)) => assert_eq!(echec(&e).0, "échec extraction sous-titres (tentative 5)"),
        autre => panic!("échec attendu, pas {autre:?}"),
    }
    match apres_tentative_sous_titres(0, "c", IssueYtDlp::Echouee { stderr: "autre".into() }) {
        PasSousTitres::Fini(Err(e)) => {
            assert_eq!(echec(&e), ("échec extraction sous-titres (tentative 1)".to_string(), "c".to_string(), "autre".to_string()))
        }
        autre => panic!("échec attendu, pas {autre:?}"),
    }
    assert!(matches!(apres_tentative_sous_titres(2, "c", IssueYtDlp::Reussie), PasSousTitres::Fini(Ok(()))));
    assert!(matches!(
        apres_tentative_sous_titres(1, "c", IssueYtDlp::Impossible(ErreurYoutube::ListeVide)),
        PasSousTitres::Fini(Err(ErreurYoutube::ListeVide))
    ));
}

#[test]
fn pause_apres_un_echec_signale_429() {
    let e = ErreurYoutube::EchecYtDlp { message: "m".into(), commande: "c".into(), stderr_tronque: "HTTP 429".into() };
    assert_eq!(pause_apres_echec(&e), 8);
    assert_eq!(pause_apres_echec(&ErreurYoutube::ListeVide), 0);
}

#[test]
fn echec_final_du_transcript() {
    assert!(matches!(echec_transcript(Some(ErreurYoutube::ListeVide)), ErreurYoutube::ListeVide));
    match echec_transcript(None) {
        ErreurYoutube::TranscriptIntrouvable(m) => assert!(m.starts_with("Aucun sous-titre exploitable")),
        autre => panic!("TranscriptIntrouvable attendu, pas {autre:?}"),
    }
}

#[test]
fn infos_url_blanche() {
    assert!(matches!(infos_video_depuis_url("   "), PasInfos::Fini(Err(ErreurYoutube::ListeVide))));
}

#[test]
fn infos_dump_puis_json_unique() {
    match infos_video_depuis_url(" https://www.youtube.com/watch?v=a ") {
        PasInfos::Executer(d) => {
            assert_eq!(d.mode, ModeListe::LigneParLigne);
            assert_eq!(d.arguments, s(&["--no-warnings", "--dump-json", "--no-playlist", "https://www.youtube.com/watch?v=a"]));
        }
        _ => panic!("demande attendue"),
    }
    match infos_apres_dump("u", Some(vec![entree_vide(), entree("b")])) {
        PasInfos::Fini(Ok(v)) => assert_eq!(v.id, "b"),
        _ => panic!("vidéo attendue"),
    }
    match infos_apres_dump("u", Some(vec![entree_vide()])) {
        PasInfos::Executer(d) => {
            assert_eq!(d.mode, ModeListe::JsonUnique);
            assert_eq!(d.arguments, s(&["--no-warnings", "-J", "--no-playlist", "u"]));
        }
        _ => panic!("demande -J attendue"),
    }
}

#[test]
fn textes_lus_dans_la_sortie() {
    assert_eq!(textes_a_lire(" {a} \n", "\terr "), s(&["{a}", "err", "{a}\nerr"]));
}

fn sortie(stdout: &str, stderr: &str, succes: bool, lectures: Vec<Option<Vec<EntreeDump>>>) -> SortieJsonUnique {
    SortieJsonUnique { stdout: stdout.into(), stderr: stderr.into(), succes, commande: "cmd".into(), lectures }
}

#[test]
fn infos_depuis_la_sortie_unique() {
    let r = infos_depuis_sortie_unique(sortie("  ", "", false, Vec::new()));
    assert_eq!(echec(&r.unwrap_err()).0, "échec yt-dlp (-J) pour cette URL");
    let r = infos_depuis_sortie_unique(sortie("", "oups", false, Vec::new()));
    assert!(matches!(r, Err(ErreurYoutube::ListeVide)));
    let r = infos_depuis_sortie_unique(sortie("{}", "", true, vec![None, Some(vec![entree_vide()]), None, Some(vec![entree("p")])]));
    assert_eq!(r.unwrap().id, "p");
    let r = infos_depuis_sortie_unique(sortie("{}", "e", false, vec![None, None]));
    assert_eq!(echec(&r.unwrap_err()), ("échec yt-dlp (-J) pour cette URL".to_string(), "cmd".to_string(), "e".to_string()));
    let r = infos_depuis_sortie_unique(sortie("{}", "e", true, vec![None]));
    assert!(matches!(r, Err(ErreurYoutube::ListeVide)));
}

#[test]
fn ordre_de_recherche_de_yt_dlp() {
    let c = candidats_yt_dlp(
        Some("/opt/yt".into()),
        Some("/ignore".into()),
        Some("/home/u".into()),
        s(&["/w/p", "/w", "/"]),
        s(&["/app/bin"]),
        s(&["/usr/bin"]),
        s(&["C:/Py/Scripts"]),
    );
    assert_eq!(
        c,
        s(&[
            "/opt/yt",
            "/home/u/.local/bin/yt-dlp",
            "/home/u/.local/bin/yt-dlp.exe",
            "/w/p/bin/yt-dlp",
            "/w/p/bin/yt-dlp.exe",
            "/w/bin/yt-dlp",
            "/w/bin/yt-dlp.exe",
            "/bin/yt-dlp",
            "/bin/yt-dlp.exe",
            "/app/bin/yt-dlp",
            "/app/bin/yt-dlp.exe",
            "/app/bin/bin/yt-dlp",
            "/app/bin/bin/yt-dlp.exe",
            "/usr/bin/yt-dlp.exe",
            "/usr/bin/yt-dlp",
            "C:/Py/Scripts/yt-dlp.exe",
            "C:/Py/Scripts/yt-dlp",
        ])
    );
    let c = candidats_yt_dlp(None, Some("/autre".into()), None, Vec::new(), Vec::new(), Vec::new(), Vec::new());
    assert_eq!(c, s(&["/autre"]));
}

#[test]
fn premier_candidat_existant() {
    let c = s(&["a", "b", "c"]);
    assert_eq!(premier_existant(&c, &vec![false, true, true]), Some(1));
    assert_eq!(premier_existant(&c, &vec![false, false, false]), None);
}

fn cars(x: &str) -> Vec<char> {
    x.chars().collect()
}

#[test]
fn extraction_premier_transcript_trouve() {
    let (mut etat, pas) = extraire_transcript(&vec![cars("fr"), cars("en")], 100);
    match pas {
        PasTranscript::Lancer(t) => {
            assert_eq!(t.format, FormatSousTitres::Vtt);
            assert_eq!(t.langues, "en,fr");
        }
        PasTranscript::Fini(_) => panic!("tentative attendue"),
    }
    // Le lot échoue : ses fichiers ne sont pas lus, l'échec n'est pas retenu.
    let (pause, pas) = etat.recevoir(Err(ErreurYoutube::ListeVide), &s(&["ignoré"]));
    assert_eq!(pause, 0);
    match pas {
        PasTranscript::Lancer(t) => assert_eq!((t.format, t.langues.as_str()), (FormatSousTitres::Vtt, "en")),
        PasTranscript::Fini(_) => panic!("tentative attendue"),
    }
    // Échec 429 : pause, échec retenu, fichiers lus quand même (vides ici).
    let e = ErreurYoutube::EchecYtDlp { message: "m".into(), commande: "c".into(), stderr_tronque: "429".into() };
    let (pause, pas) = etat.recevoir(Err(e), &s(&["  "]));
    assert_eq!(pause, 8);
    assert!(matches!(pas, PasTranscript::Lancer(_)));
    // La tentative suivante donne un texte : il est rendu.
    let (pause, pas) = etat.recevoir(Ok(()), &s(&["court", "le plus long"]));
    assert_eq!(pause, 0);
    match pas {
        PasTranscript::Fini(Ok(t)) => assert_eq!(t, "le plus long"),
        _ => panic!("transcript attendu"),
    }
}

#[test]
fn extraction_sans_transcript_rend_le_dernier_echec() {
    let (mut etat, _) = extraire_transcript(&vec![cars("en")], 100);
    let mut nb = 1;
    let mut dernier = None;
    loop {
        let e = ErreurYoutube::TranscriptIntrouvable(format!("échec {nb}"));
        match etat.recevoir(Err(e), &Vec::new()) {
            (_, PasTranscript::Lancer(_)) => nb += 1,
            (_, PasTranscript::Fini(r)) => {
                dernier = Some(r);
                break;
            }
        }
    }
    // Lot, VTT, JSON3, SRT pour une langue.
    assert_eq!(nb, 4);
    match dernier {
        Some(Err(ErreurYoutube::TranscriptIntrouvable(m))) => assert_eq!(m, "échec 4"),
        _ => panic!("dernier échec attendu"),
    }
    let (mut etat, _) = extraire_transcript(&vec![cars("en")], 100);
    let mut fin = None;
    for _ in 0..4 {
        if let (_, PasTranscript::Fini(r)) = etat.recevoir(Ok(()), &Vec::new()) {
            fin = Some(r);
        }
    }
    match fin {
        Some(Err(ErreurYoutube::TranscriptIntrouvable(m))) => assert!(m.starts_with("Aucun sous-titre exploitable")),
        _ => panic!("TranscriptIntrouvable attendu"),
    }
}

#[test]
fn infos_video_depuis_un_dump_enregistre() {
    let url_video = "https://www.youtube.com/watch?v=NUWgXaFhYr8";
    let dump = EntreeDump {
        id: Some("NUWgXaFhYr8".into()),
        title: Some("Une vidéo".into()),
        webpage_url: Some(url_video.into()),
        url: None,
        upload_date: Some("20240115".into()),
    };
    match infos_apres_dump(url_video, Some(vec![dump])) {
        PasInfos::Fini(Ok(v)) => {
            assert_eq!(v.id, "NUWgXaFhYr8");
            assert!(!v.titre.trim().is_empty());
            assert!(v.url.contains("youtube.com/watch?v=NUWgXaFhYr8"), "URL inattendue: {}", v.url);
        }
        _ => panic!("informations attendues"),
    }
}
