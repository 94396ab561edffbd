use resume_youtube::json::ValeurJson;
use resume_youtube::youtube::{
    construire_url_video, extraire_id_depuis_url, lister_dernieres_videos, selectionner_entrees_depuis_dump,
    valeur_json_en_chaine, EntreeDump, ErreurYoutube, ModeListe, PasListe, VideoInfo,
};

fn dump(id: Option<&str>, titre: Option<&str>, page: Option<&str>, url: Option<ValeurJson>, date: Option<&str>) -> EntreeDump {
    EntreeDump {
        id: id.map(|s| s.to_string()),
        title: titre.map(|s| s.to_string()),
        webpage_url: page.map(|s| s.to_string()),
        url,
        upload_date: date.map(|s| s.to_string()),
    }
}

fn video_valide(i: usize) -> EntreeDump {
    dump(Some(&format!("id{i}")), Some(&format!("T{i}")), None, None, None)
}

fn ids(v: &[VideoInfo]) -> Vec<String> {
    v.iter().map(|x| x.id.clone()).collect()
}

#[test]
fn id_depuis_parametre_v() {
    assert_eq!(extraire_id_depuis_url("https://www.youtube.com/watch?v=abc123&t=5"), Some("abc123".to_string()));
    assert_eq!(extraire_id_depuis_url("https://www.youtube.com/watch?v= xyz "), Some("xyz".to_string()));
}

#[test]
fn id_depuis_shorts_ou_dernier_segment() {
    assert_eq!(extraire_id_depuis_url("https://youtube.com/SHORTS/XYZ/"), Some("XYZ".to_string()));
    assert_eq!(extraire_id_depuis_url("https://youtu.be/ID42"), Some("ID42".to_string()));
    assert_eq!(extraire_id_depuis_url("https://www.youtube.com/watch?v=&x"), Some("watch?v=&x".to_string()));
    assert_eq!(extraire_id_depuis_url(""), None);
    assert_eq!(extraire_id_depuis_url(" / "), None);
}

#[test]
fn url_video_construite_depuis_l_id() {
    assert_eq!(construire_url_video("  abc "), Some("https://www.youtube.com/watch?v=abc".to_string()));
    assert_eq!(construire_url_video("   "), None);
}

#[test]
fn url_puis_id_rend_l_id() {
    let u = construire_url_video(" k9Z_- ").unwrap();
    assert_eq!(extraire_id_depuis_url(&u), Some("k9Z_-".to_string()));
}

#[test]
fn valeur_url_gardee_si_chaine_non_blanche() {
    assert_eq!(valeur_json_en_chaine(Some(ValeurJson::Chaine(" a ".to_string()))), Some(" a ".to_string()));
    assert_eq!(valeur_json_en_chaine(Some(ValeurJson::Chaine("  ".to_string()))), None);
    assert_eq!(valeur_json_en_chaine(Some(ValeurJson::Nombre("3".to_string()))), None);
    assert_eq!(valeur_json_en_chaine(None), None);
}

#[test]
fn selection_des_entrees_exploitables() {
    let entrees = vec![
        dump(Some("a1"), Some("T"), Some("https://www.youtube.com/watch?v=a1"), None, Some("20240101")),
        dump(None, None, None, Some(ValeurJson::Chaine("abc".to_string())), None),
        dump(None, Some("x"), None, None, None),
        dump(Some("z"), Some("Z"), None, Some(ValeurJson::Nombre("1".to_string())), None),
    ];
    let v = selectionner_entrees_depuis_dump(entrees);
    assert_eq!(v.len(), 3);
    assert_eq!(v[0].id, "a1");
    assert_eq!(v[0].titre, "T");
    assert_eq!(v[0].url, "https://www.youtube.com/watch?v=a1");
    assert_eq!(v[0].date_publication, Some("20240101".to_string()));
    assert_eq!(v[1].id, "abc");
    assert_eq!(v[1].titre, "Titre inconnu");
    assert_eq!(v[1].url, "https://www.youtube.com/watch?v=abc");
    assert_eq!(v[2].id, "z");
    assert_eq!(v[2].url, "https://www.youtube.com/watch?v=z");
}

#[test]
fn liste_essaie_chaque_url_puis_chaque_mode() {
    let (mut etat, d) = lister_dernieres_videos(" https://www.youtube.com/@C ", 3);
    assert_eq!(d.mode, ModeListe::LigneParLigne);
    assert_eq!(d.arguments, vec!["--no-warnings", "--dump-json", "--playlist-items", "1-3", "https://www.youtube.com/@C"]);
    let attendus = [
        (ModeListe::LigneParLigne, "https://www.youtube.com/@C/videos"),
        (ModeListe::JsonUnique, "https://www.youtube.com/@C"),
        (ModeListe::JsonUnique, "https://www.youtube.com/@C/videos"),
    ];
    for (i, (mode, url)) in attendus.iter().enumerate() {
        let entrees = if i == 0 { Some(Vec::new()) } else { None };
        match etat.recevoir(entrees) {
            PasListe::Executer(d) => {
                assert_eq!(d.mode, *mode);
                assert_eq!(d.arguments[1], if *mode == ModeListe::JsonUnique { "-J" } else { "--dump-json" });
                assert_eq!(d.arguments.last().unwrap(), *url);
            }
            PasListe::Fini(_) => panic!("une demande était attendue"),
        }
    }
    match etat.recevoir(None) {
        PasListe::Fini(Err(ErreurYoutube::ListeVide)) => {}
        _ => panic!("ListeVide attendue"),
    }
}

#[test]
fn liste_rend_les_premieres_videos() {
    let (mut etat, _) = lister_dernieres_videos("https://www.youtube.com/@C/videos", 2);
    match etat.recevoir(Some((0..4).map(video_valide).collect())) {
        PasListe::Fini(Ok(v)) => assert_eq!(ids(&v), vec!["id0", "id1"]),
        _ => panic!("vidéos attendues"),
    }
}

#[test]
fn liste_une_seule_url_si_deja_videos_et_au_moins_une_video() {
    let (mut etat, d) = lister_dernieres_videos("https://www.youtube.com/@C/videos", 0);
    assert_eq!(d.arguments[3], "1-1");
    match etat.recevoir(None) {
        PasListe::Executer(d) => {
            assert_eq!(d.mode, ModeListe::JsonUnique);
            assert_eq!(
                d.arguments,
                vec!["--no-warnings", "-J", "--flat-playlist", "--playlist-items", "1-1", "https://www.youtube.com/@C/videos"]
            );
        }
        _ => panic!("demande -J attendue"),
    }
    assert!(matches!(etat.recevoir(None), PasListe::Fini(Err(ErreurYoutube::ListeVide))));
}

#[test]
fn liste_retire_les_barres_finales_avant_videos() {
    let (mut etat, d) = lister_dernieres_videos("https://www.youtube.com/@C//", 5);
    assert_eq!(d.arguments[4], "https://www.youtube.com/@C//");
    match etat.recevoir(None) {
        PasListe::Executer(d) => assert_eq!(d.arguments[4], "https://www.youtube.com/@C/videos"),
        _ => panic!("demande attendue"),
    }
}
