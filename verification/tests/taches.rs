use resume_youtube::chaines::{chemins_fallback_pour_chaines_json, garder_premieres};
use resume_youtube::commandes::{
    extraire_transcripts_chaine, lancer_test_suite, preparer_resume, resumer_chaine, resumer_texte_libre,
    resumer_video_direct, AppelModele, ConfigurationLmPayload, DemandeTranscript, EcritureDonnees, EcritureSortie,
    EntreeIndexTranscript, EtapeExtraction, EtapeResumeChaine, EtapeResumeVideo, EtapeTexteLibre, PasExtraction,
    PasResumeChaine, PasResumeVideo, PasTest, PasTexteLibre, JOB_ANNULE,
};
use resume_youtube::donnees::{repertoire_texte_libre, repertoire_video};
use resume_youtube::youtube::VideoInfo;
use resume_youtube::ytdlp::candidats_interpreteurs_python;

const SORTIE_VIDE: &str = "sortie IA invalide pour le format CarteMentale: sortie vide";

fn reglages(fournisseur: &str) -> ConfigurationLmPayload {
    ConfigurationLmPayload {
        fournisseur: fournisseur.to_string(),
        cle_openrouter: None,
        base_url: None,
        route: None,
        modele: None,
        cle_lm_studio: None,
        n_ctx: None,
    }
}

fn video(id: &str, titre: &str) -> VideoInfo {
    VideoInfo { id: id.to_string(), titre: titre.to_string(), url: format!("https://www.youtube.com/watch?v={id}"), date_publication: None }
}

fn chaines(v: &[&str]) -> Vec<String> {
    v.iter().map(|s| s.to_string()).collect()
}

fn pas_video_transcript(p: PasResumeVideo) -> DemandeTranscript {
    match p {
        PasResumeVideo::Transcript(d) => d,
        autre => panic!("attendu un transcript: {autre:?}"),
    }
}

fn pas_video_modele(p: PasResumeVideo) -> AppelModele {
    match p {
        PasResumeVideo::Modele(a) => a,
        autre => panic!("attendu un appel du modèle: {autre:?}"),
    }
}

fn pas_video_fini(p: PasResumeVideo) -> Result<String, String> {
    match p {
        PasResumeVideo::Fini(r) => r,
        autre => panic!("attendu la fin: {autre:?}"),
    }
}

#[test]
fn preparation_format_puis_modele() {
    assert_eq!(preparer_resume("pdf", &reglages("openrouter")).unwrap_err(), "format inconnu: pdf");
    assert_eq!(preparer_resume("bullets", &reglages("openrouter")).unwrap_err(), "Clé API OpenRouter requise (paramètres).");
    let (local, c) = preparer_resume("carte_mentale", &reglages(" local ")).unwrap();
    assert!(local);
    assert_eq!((c.base_url.as_str(), c.route.as_str(), c.modele), ("", "", None));
    assert_eq!((c.max_caracteres_transcript, c.max_caracteres_reponse), (25_000, 18_000));
    let (local, c) = preparer_resume("carte_mentale", &reglages("lm_studio")).unwrap();
    assert!(!local);
    assert_eq!(c.base_url, "http://192.168.1.71:1234");
}

#[test]
fn resume_video_format_inconnu() {
    let (m, p) = resumer_video_direct("https://youtu.be/x", "pdf", None, &reglages("lm_studio"));
    assert_eq!(m.etape, EtapeResumeVideo::Fini);
    assert_eq!(pas_video_fini(p), Err("format inconnu: pdf".to_string()));
}

#[test]
fn resume_video_parcours_complet() {
    let url = "https://www.youtube.com/watch?v=abc123&t=5";
    let (mut m, p) = resumer_video_direct(url, "carte_mentale", None, &reglages("lm_studio"));
    let d = pas_video_transcript(p);
    assert_eq!((d.channel_url, d.id_video.as_str(), d.url.as_str(), d.max_caracteres), (None, "abc123", url, 25_000));
    let a = pas_video_modele(m.recevoir_transcript(Ok("  bonjour  ".to_string()), false));
    assert!(!a.local);
    assert_eq!(a.configuration.route, "v1/chat/completions");
    assert_eq!(a.system, "");
    assert_eq!(
        a.user,
        "Réalise une carte mentale de cette vidéo :\n\nTitre de la vidéo: Vidéo YouTube\nTranscript :\n---\nbonjour\n---"
    );
    let w = match m.recevoir_reponse(Ok(" # Carte\r\n- a ".to_string())) {
        PasResumeVideo::Ecrire(w) => w,
        autre => panic!("{autre:?}"),
    };
    assert_eq!(w.dossier, chaines(&["chaines", "direct", "videos", "abc123"]));
    assert_eq!((w.fichier.as_str(), w.texte.as_str()), ("carte_mentale.md", "# Carte\n- a"));
    assert_eq!(pas_video_fini(m.recevoir_ecriture()), Ok("# Carte\n- a".to_string()));
}

#[test]
fn resume_video_identifiant_par_defaut_et_chaine() {
    let (_, p) = resumer_video_direct("", "bullets", Some("https://www.youtube.com/@abc"), &reglages(" local "));
    let d = pas_video_transcript(p);
    assert_eq!(d.id_video, "video");
    assert_eq!(d.channel_url, Some("https://www.youtube.com/@abc".to_string()));
}

#[test]
fn resume_video_annulation_et_erreurs() {
    let url = "https://www.youtube.com/watch?v=k";
    let (mut m, _) = resumer_video_direct(url, "carte_mentale", None, &reglages("lm_studio"));
    assert_eq!(pas_video_fini(m.recevoir_transcript(Ok("t".to_string()), true)), Err(JOB_ANNULE.to_string()));
    assert_eq!(JOB_ANNULE, "Job annulé par l’utilisateur.");

    let (mut m, _) = resumer_video_direct(url, "carte_mentale", None, &reglages("lm_studio"));
    assert_eq!(pas_video_fini(m.recevoir_transcript(Err("yt-dlp absent".to_string()), true)), Err("yt-dlp absent".to_string()));

    let (mut m, _) = resumer_video_direct(url, "carte_mentale", None, &reglages("lm_studio"));
    let _ = m.recevoir_transcript(Ok("t".to_string()), false);
    assert_eq!(pas_video_fini(m.recevoir_reponse(Ok(" \n ".to_string()))), Err(SORTIE_VIDE.to_string()));

    let (mut m, _) = resumer_video_direct(url, "carte_mentale", None, &reglages("lm_studio"));
    let _ = m.recevoir_transcript(Ok("t".to_string()), false);
    assert_eq!(pas_video_fini(m.recevoir_reponse(Err("HTTP 500".to_string()))), Err("HTTP 500".to_string()));
}

#[test]
fn resume_chaine_passe_les_echecs_et_garde_l_ordre() {
    let url = "https://www.youtube.com/@chaine";
    let (mut m, p) = resumer_chaine("carte_mentale", &reglages("lm_studio"), url, 3, None);
    assert_eq!(m.etape, EtapeResumeChaine::Liste);
    match p {
        PasResumeChaine::Lister { channel_url, nb_videos } => assert_eq!((channel_url.as_str(), nb_videos), (url, 3)),
        autre => panic!("{autre:?}"),
    }
    let vs = vec![video("a", "A"), video("b", "B"), video("c", "C")];
    let d = match m.recevoir_videos(Ok(vs)) {
        PasResumeChaine::Transcript(d) => d,
        autre => panic!("{autre:?}"),
    };
    assert_eq!((d.channel_url.as_deref(), d.id_video.as_str(), d.max_caracteres), (Some(url), "a", 25_000));
    assert_eq!(d.url, "https://www.youtube.com/watch?v=a");
    // a : transcript en échec, passée.
    let d = match m.recevoir(Err("KO".to_string())) {
        PasResumeChaine::Transcript(d) => d,
        autre => panic!("{autre:?}"),
    };
    assert_eq!(d.id_video, "b");
    // b : réponse blanche, passée.
    let a = match m.recevoir(Ok("tb".to_string())) {
        PasResumeChaine::Modele(a) => a,
        autre => panic!("{autre:?}"),
    };
    assert_eq!(a.user, "Réalise une carte mentale de cette vidéo :\n\nTitre de la vidéo: B\nTranscript :\n---\ntb\n---");
    let d = match m.recevoir(Ok("   ".to_string())) {
        PasResumeChaine::Transcript(d) => d,
        autre => panic!("{autre:?}"),
    };
    assert_eq!(d.id_video, "c");
    // c : résumée, enregistrée dans le dossier de la vidéo.
    let _ = m.recevoir(Ok("tc".to_string()));
    let w: EcritureDonnees = match m.recevoir(Ok("carte c".to_string())) {
        PasResumeChaine::Ecrire(w) => w,
        autre => panic!("{autre:?}"),
    };
    assert_eq!(w.dossier, repertoire_video(Some(url), "c"));
    assert_eq!((w.fichier.as_str(), w.texte.as_str()), ("carte_mentale.md", "carte c"));
    match m.recevoir(Err("lecture seule".to_string())) {
        PasResumeChaine::Fini(r) => assert_eq!(r, Ok(vec!["=== C ===\ncarte c".to_string()])),
        autre => panic!("{autre:?}"),
    }
}

#[test]
fn resume_chaine_dossier_de_sortie() {
    let url = "https://www.youtube.com/@chaine";
    let (mut m, _) = resumer_chaine("bullets", &reglages("lm_studio"), url, 2, Some("/tmp/sortie".to_string()));
    let _ = m.recevoir_videos(Ok(vec![video("a", "A"), video("b", "B")]));
    let _ = m.recevoir(Ok("ta".to_string()));
    let w: EcritureSortie = match m.recevoir(Ok("carte a".to_string())) {
        PasResumeChaine::EcrireSortie(w) => w,
        autre => panic!("{autre:?}"),
    };
    assert_eq!((w.dossier.as_str(), w.fichier.as_str(), w.texte.as_str()), ("/tmp/sortie", "a_carte_mentale.md", "carte a"));
    match m.recevoir(Ok(String::new())) {
        PasResumeChaine::Ecrire(w) => assert_eq!(w.dossier, repertoire_video(Some(url), "a")),
        autre => panic!("{autre:?}"),
    }
    let _ = m.recevoir(Ok(String::new()));
    let _ = m.recevoir(Ok("tb".to_string()));
    let _ = m.recevoir(Ok("carte b".to_string()));
    match m.recevoir(Err("disque plein".to_string())) {
        PasResumeChaine::Fini(r) => assert_eq!(r, Err("disque plein".to_string())),
        autre => panic!("{autre:?}"),
    }
}

#[test]
fn resume_chaine_erreurs_et_annulation() {
    let url = "https://www.youtube.com/@chaine";
    match resumer_chaine("pdf", &reglages("lm_studio"), url, 2, None).1 {
        PasResumeChaine::Fini(r) => assert_eq!(r, Err("format inconnu: pdf".to_string())),
        autre => panic!("{autre:?}"),
    }
    let (mut m, _) = resumer_chaine("carte_mentale", &reglages("lm_studio"), url, 2, None);
    match m.recevoir_videos(Err("liste KO".to_string())) {
        PasResumeChaine::Fini(r) => assert_eq!(r, Err("liste KO".to_string())),
        autre => panic!("{autre:?}"),
    }
    let (mut m, _) = resumer_chaine("carte_mentale", &reglages("lm_studio"), url, 2, None);
    match m.recevoir_videos(Ok(Vec::new())) {
        PasResumeChaine::Fini(r) => assert_eq!(r, Ok(Vec::new())),
        autre => panic!("{autre:?}"),
    }
    let (mut m, _) = resumer_chaine("carte_mentale", &reglages("lm_studio"), url, 2, None);
    let _ = m.recevoir_videos(Ok(vec![video("a", "A"), video("b", "B")]));
    let _ = m.recevoir(Ok("ta".to_string()));
    let _ = m.recevoir(Ok("carte a".to_string()));
    let _ = m.recevoir(Ok(String::new()));
    match m.annuler() {
        PasResumeChaine::Fini(r) => assert_eq!(r, Ok(vec!["=== A ===\ncarte a".to_string()])),
        autre => panic!("{autre:?}"),
    }
}

#[test]
fn resume_texte_libre_validations() {
    let lm = reglages("lm_studio");
    let fin = |p: PasTexteLibre| match p {
        PasTexteLibre::Fini(r) => r,
        autre => panic!("{autre:?}"),
    };
    assert_eq!(fin(resumer_texte_libre("  ", "x", "pdf", &lm).1), Err("identifiant texte manquant".to_string()));
    assert_eq!(fin(resumer_texte_libre("id", " ", "pdf", &lm).1), Err("format inconnu: pdf".to_string()));
    assert_eq!(fin(resumer_texte_libre("id", " ", "carte_mentale", &lm).1), Err("texte vide".to_string()));
    assert_eq!(
        fin(resumer_texte_libre("id", "x", "carte_mentale", &reglages("openrouter")).1),
        Err("Clé API OpenRouter requise (paramètres).".to_string())
    );
}

#[test]
fn resume_texte_libre_parcours_complet() {
    let (mut m, p) = resumer_texte_libre(" mon texte ", "  Bonjour  ", "carte_mentale", &reglages("local"));
    assert_eq!(m.etape, EtapeTexteLibre::Modele);
    assert_eq!(m.dossier, repertoire_texte_libre("mon texte"));
    let a = match p {
        PasTexteLibre::Modele(a) => a,
        autre => panic!("{autre:?}"),
    };
    assert!(a.local);
    assert_eq!(a.user, "Réalise une carte mentale (Markdown) à partir du texte suivant :\n\n---\nBonjour\n---");
    match m.recevoir(Ok("# C\r\n".to_string())) {
        PasTexteLibre::Ecrire(w) => {
            assert_eq!(w.dossier, repertoire_texte_libre("mon texte"));
            assert_eq!((w.fichier.as_str(), w.texte.as_str()), ("texte_source.txt", "Bonjour"));
        }
        autre => panic!("{autre:?}"),
    }
    match m.recevoir(Ok(String::new())) {
        PasTexteLibre::Ecrire(w) => assert_eq!((w.fichier.as_str(), w.texte.as_str()), ("carte_mentale.md", "# C")),
        autre => panic!("{autre:?}"),
    }
    match m.recevoir(Ok(String::new())) {
        PasTexteLibre::Fini(r) => assert_eq!(r, Ok("# C".to_string())),
        autre => panic!("{autre:?}"),
    }
}

#[test]
fn resume_texte_libre_tronque_et_erreurs() {
    let long = "a".repeat(25_010);
    let (m, _) = resumer_texte_libre("id", &long, "carte_mentale", &reglages("local"));
    assert_eq!(m.transcript.chars().count(), 25_000);
    let (mut m, _) = resumer_texte_libre("id", "texte", "carte_mentale", &reglages("local"));
    match m.recevoir(Ok("  ".to_string())) {
        PasTexteLibre::Fini(r) => assert_eq!(r, Err(SORTIE_VIDE.to_string())),
        autre => panic!("{autre:?}"),
    }
    let (mut m, _) = resumer_texte_libre("id", "texte", "carte_mentale", &reglages("local"));
    let _ = m.recevoir(Ok("carte".to_string()));
    match m.recevoir(Err("permission refusée".to_string())) {
        PasTexteLibre::Fini(r) => assert_eq!(r, Err("permission refusée".to_string())),
        autre => panic!("{autre:?}"),
    }
}

fn ligne(e: &EntreeIndexTranscript) -> (String, bool, Option<usize>, Option<String>) {
    (e.id.clone(), e.ok, e.nb_caracteres, e.fichier_transcript.clone())
}

#[test]
fn extraction_sans_dossier() {
    let url = "https://www.youtube.com/@chaine";
    let (mut m, p) = extraire_transcripts_chaine(url, 2, None, 1_000);
    match p {
        PasExtraction::Lister { channel_url, nb_videos } => assert_eq!((channel_url.as_str(), nb_videos), (url, 2)),
        autre => panic!("{autre:?}"),
    }
    match m.recevoir_videos(Ok(vec![video("a", "A"), video("b", "B")])) {
        PasExtraction::Transcript(d) => assert_eq!((d.id_video.as_str(), d.max_caracteres), ("a", 1_000)),
        autre => panic!("{autre:?}"),
    }
    let _ = m.recevoir(Err("KO".to_string()));
    match m.recevoir(Ok("héllo".to_string())) {
        PasExtraction::Fini(Ok(index)) => {
            let lignes: Vec<_> = index.iter().map(ligne).collect();
            assert_eq!(
                lignes,
                vec![("a".to_string(), false, None, None), ("b".to_string(), true, Some(5), None)]
            );
            assert_eq!(index[1].titre, "B");
            assert_eq!(index[1].url, "https://www.youtube.com/watch?v=b");
        }
        autre => panic!("{autre:?}"),
    }
}

#[test]
fn extraction_avec_dossier_et_index() {
    let (mut m, _) = extraire_transcripts_chaine("https://www.youtube.com/@c", 2, Some("/out".to_string()), 500);
    let _ = m.recevoir_videos(Ok(vec![video("a", "A"), video("b", "B")]));
    match m.recevoir(Ok("abc".to_string())) {
        PasExtraction::EcrireSortie(w) => {
            assert_eq!((w.dossier.as_str(), w.fichier.as_str(), w.texte.as_str()), ("/out", "a_transcript.txt", "abc"))
        }
        autre => panic!("{autre:?}"),
    }
    match m.recevoir(Ok(String::new())) {
        PasExtraction::Transcript(d) => assert_eq!(d.id_video, "b"),
        autre => panic!("{autre:?}"),
    }
    match m.recevoir(Err("KO".to_string())) {
        PasExtraction::EcrireIndex { dossier, fichier } => assert_eq!((dossier.as_str(), fichier.as_str()), ("/out", "index.json")),
        autre => panic!("{autre:?}"),
    }
    assert_eq!(m.etape, EtapeExtraction::Index);
    assert_eq!(m.index.len(), 2);
    match m.recevoir(Ok(String::new())) {
        PasExtraction::Fini(Ok(index)) => {
            let lignes: Vec<_> = index.iter().map(ligne).collect();
            assert_eq!(
                lignes,
                vec![
                    ("a".to_string(), true, Some(3), Some("a_transcript.txt".to_string())),
                    ("b".to_string(), false, None, None)
                ]
            );
        }
        autre => panic!("{autre:?}"),
    }
}

#[test]
fn extraction_annulation_et_erreurs() {
    let (mut m, _) = extraire_transcripts_chaine("u", 2, None, 10);
    let _ = m.recevoir_videos(Ok(vec![video("a", "A"), video("b", "B")]));
    let _ = m.recevoir(Ok("t".to_string()));
    match m.annuler() {
        PasExtraction::Fini(Ok(index)) => assert_eq!(index.iter().map(ligne).collect::<Vec<_>>(), vec![("a".to_string(), true, Some(1), None)]),
        autre => panic!("{autre:?}"),
    }
    let (mut m, _) = extraire_transcripts_chaine("u", 2, Some("/out".to_string()), 10);
    let _ = m.recevoir_videos(Ok(vec![video("a", "A")]));
    let _ = m.recevoir(Ok("t".to_string()));
    match m.recevoir(Err("disque plein".to_string())) {
        PasExtraction::Fini(r) => assert_eq!(r.unwrap_err(), "disque plein"),
        autre => panic!("{autre:?}"),
    }
    let (mut m, _) = extraire_transcripts_chaine("u", 2, None, 10);
    match m.recevoir_videos(Err("liste KO".to_string())) {
        PasExtraction::Fini(r) => assert_eq!(r.unwrap_err(), "liste KO"),
        autre => panic!("{autre:?}"),
    }
}

fn rapport(p: PasTest) -> Result<String, String> {
    match p {
        PasTest::Fini(r) => r,
        autre => panic!("{autre:?}"),
    }
}

#[test]
fn test_complet_source_et_transcript() {
    assert_eq!(
        rapport(lancer_test_suite(Some("c".into()), Some("v".into()), None).1),
        Err("Fournis seulement channel_url ou video_url.".to_string())
    );
    assert_eq!(rapport(lancer_test_suite(None, None, None).1), Err("Fournis channel_url ou video_url.".to_string()));
    let (mut m, p) = lancer_test_suite(Some("https://www.youtube.com/@c".into()), None, None);
    match p {
        PasTest::Lister { channel_url, nb_videos } => assert_eq!((channel_url.as_str(), nb_videos), ("https://www.youtube.com/@c", 10)),
        autre => panic!("{autre:?}"),
    }
    assert_eq!(rapport(m.recevoir_videos(Ok(Vec::new()))), Err("Chaîne sans vidéo".to_string()));
    let (mut m, _) = lancer_test_suite(Some("c".into()), None, None);
    match m.recevoir_videos(Ok(vec![video("a", "A"), video("b", "B")])) {
        PasTest::Transcript { url, max_caracteres } => assert_eq!((url.as_str(), max_caracteres), ("https://www.youtube.com/watch?v=a", 25_000)),
        autre => panic!("{autre:?}"),
    }
    assert_eq!(m.titre, "A");
    let (mut m, _) = lancer_test_suite(None, Some("https://youtu.be/x".into()), None);
    assert_eq!(rapport(m.recevoir_transcript(Ok("  ".to_string()))), Err("Transcript vide.".to_string()));
    let (mut m, _) = lancer_test_suite(None, Some("https://youtu.be/x".into()), None);
    assert_eq!(rapport(m.recevoir_transcript(Ok("texte".to_string()))), Ok("CarteMentale: IA ignorée (pas de config LM).\n".to_string()));
}

#[test]
fn test_complet_rapport_du_modele() {
    let lancer = || {
        let (mut m, _) = lancer_test_suite(None, Some("https://youtu.be/x".into()), Some(reglages("lm_studio")));
        match m.recevoir_transcript(Ok("texte".to_string())) {
            PasTest::Modele(a) => {
                assert!(!a.local);
                assert_eq!(a.user, "Réalise une carte mentale de cette vidéo :\n\nTitre de la vidéo: Vidéo YouTube\nTranscript :\n---\ntexte\n---");
            }
            autre => panic!("{autre:?}"),
        }
        m
    };
    assert_eq!(rapport(lancer().recevoir_reponse(Ok("carte".to_string()))), Ok("CarteMentale: OK\n".to_string()));
    assert_eq!(rapport(lancer().recevoir_reponse(Err("boom".to_string()))), Ok("CarteMentale: Erreur IA: boom\n".to_string()));
    assert_eq!(
        rapport(lancer().recevoir_reponse(Ok(" ".to_string()))),
        Ok(format!("CarteMentale: Sortie invalide: {SORTIE_VIDE}\n"))
    );
    let (mut m, _) = lancer_test_suite(None, Some("v".into()), Some(reglages("openrouter")));
    assert_eq!(rapport(m.recevoir_transcript(Ok("texte".to_string()))), Err("Clé API OpenRouter requise (paramètres).".to_string()));
}

#[test]
fn premieres_occurrences_sans_exclu() {
    assert_eq!(garder_premieres(&chaines(&["a", "b", "a", "c", "b"]), Some("c")), chaines(&["a", "b"]));
    assert_eq!(garder_premieres(&chaines(&["x", "x"]), None), chaines(&["x"]));
}

#[test]
fn secours_chaines_json_ordre_et_exclusions() {
    let ancetres = chaines(&["/opt/app/bin", "/opt/app", "/opt", "/"]);
    let r = chemins_fallback_pour_chaines_json(Some("/home/u"), &ancetres, Some("/home/u/chaines.json"), "/opt/chaines.json");
    assert_eq!(r, chaines(&["/home/u/chaines.json", "/opt/app/bin/chaines.json", "/opt/app/chaines.json", "/chaines.json"]));
    let profonds: Vec<String> = (0..20).map(|i| format!("/d{i}")).collect();
    let r = chemins_fallback_pour_chaines_json(None, &profonds, None, "/x/chaines.json");
    assert_eq!(r.len(), 14);
    assert_eq!(r[13], "/d13/chaines.json");
}

#[test]
fn interpreteurs_python_dans_l_ordre() {
    assert_eq!(
        candidats_interpreteurs_python(Some(" /usr/bin/py ".into()), Some("  ".into())),
        chaines(&["/usr/bin/py", "python3", "python"])
    );
    assert_eq!(candidats_interpreteurs_python(None, Some("py3".into())), chaines(&["py3", "python3", "python"]));
}
