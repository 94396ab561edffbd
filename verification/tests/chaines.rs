use resume_youtube::chaines::{
    ajouter_chaine, ajouter_chaine_depuis_url, candidats_chaines_json, chercher_chaines_json_en_remontant,
    dedoublonner_par_url, nom_depuis_url_chaine, supprimer_chaine_par_url, EntreeChaine,
};

fn entree(nom: &str, url: &str) -> EntreeChaine {
    EntreeChaine { nom: nom.to_string(), url_chaine: url.to_string() }
}

fn segments(v: &[&str]) -> Vec<String> {
    v.iter().map(|s| s.to_string()).collect()
}

#[test]
fn nom_handle_youtube_standard() {
    assert_eq!(nom_depuis_url_chaine("https://www.youtube.com/@VisionIA-FR"), "VisionIA-FR");
}

#[test]
fn nom_avec_chemin_videos() {
    assert_eq!(nom_depuis_url_chaine("https://www.youtube.com/@Chaine/videos"), "Chaine");
}

#[test]
fn dedoublonner_garde_premiere_entree() {
    let liste = vec![
        EntreeChaine { nom: "A".into(), url_chaine: "https://youtube.com/@x".into() },
        EntreeChaine { nom: "B".into(), url_chaine: "https://youtube.com/@x".into() },
    ];
    let d = dedoublonner_par_url(liste);
    assert_eq!(d.len(), 1);
    assert_eq!(d[0].nom, "A");
}

#[test]
fn nom_handle_decode_pourcent() {
    assert_eq!(nom_depuis_url_chaine("https://www.youtube.com/@Caf%C3%A9"), "Café");
}

#[test]
fn nom_handle_pourcent_invalide_garde_le_brut() {
    assert_eq!(nom_depuis_url_chaine("https://www.youtube.com/@%FF"), "%FF");
}

#[test]
fn nom_sans_arobase_donne_le_libelle_par_defaut() {
    assert_eq!(nom_depuis_url_chaine("https://www.youtube.com/channel/UC123"), "Chaîne");
}

#[test]
fn nom_depuis_url_non_analysable() {
    assert_eq!(nom_depuis_url_chaine("youtube.com/@abc/videos"), "abc");
    assert_eq!(nom_depuis_url_chaine("@x?y=1"), "x");
}

#[test]
fn nom_url_rognee_et_handle_vide() {
    assert_eq!(nom_depuis_url_chaine("  https://www.youtube.com/@A  "), "A");
    assert_eq!(nom_depuis_url_chaine("https://www.youtube.com/@/videos"), "Chaîne");
}

#[test]
fn dedoublonner_compare_les_url_rognees() {
    let liste = vec![
        entree("A", " https://youtube.com/@x"),
        entree("B", "https://youtube.com/@y"),
        entree("C", "https://youtube.com/@x  "),
    ];
    let d = dedoublonner_par_url(liste);
    let noms: Vec<&str> = d.iter().map(|e| e.nom.as_str()).collect();
    assert_eq!(noms, vec!["A", "B"]);
}

#[test]
fn dedoublonner_deux_fois_ne_change_plus_rien() {
    let liste = vec![entree("A", "u"), entree("B", "v"), entree("C", "u"), entree("D", "v")];
    let une = dedoublonner_par_url(liste);
    let noms1: Vec<String> = une.iter().map(|e| e.nom.clone()).collect();
    let deux = dedoublonner_par_url(une);
    let noms2: Vec<String> = deux.iter().map(|e| e.nom.clone()).collect();
    assert_eq!(noms1, noms2);
    assert_eq!(noms2, vec!["A".to_string(), "B".to_string()]);
}

#[test]
fn ajouter_chaine_en_fin_de_liste() {
    let mut liste = vec![entree("A", "u")];
    ajouter_chaine(&mut liste, "B".to_string(), "v".to_string());
    assert_eq!(liste.len(), 2);
    assert_eq!(liste[1].nom, "B");
    assert_eq!(liste[1].url_chaine, "v");
}

#[test]
fn ajouter_chaine_depuis_url_derive_le_nom() {
    let mut liste = Vec::new();
    ajouter_chaine_depuis_url(&mut liste, "https://www.youtube.com/@Oxyad/videos".to_string());
    assert_eq!(liste.len(), 1);
    assert_eq!(liste[0].nom, "Oxyad");
    assert_eq!(liste[0].url_chaine, "https://www.youtube.com/@Oxyad/videos");
}

#[test]
fn supprimer_retire_toutes_les_entrees_de_l_url() {
    let mut liste = vec![
        entree("A", " https://youtube.com/@x "),
        entree("B", "https://youtube.com/@y"),
        entree("C", "https://youtube.com/@x"),
    ];
    let n = supprimer_chaine_par_url(&mut liste, "https://youtube.com/@x ");
    assert_eq!(n, 2);
    assert_eq!(liste.len(), 1);
    assert_eq!(liste[0].nom, "B");
}

#[test]
fn supprimer_url_blanche_ne_retire_rien() {
    let mut liste = vec![entree("A", ""), entree("B", "  ")];
    let n = supprimer_chaine_par_url(&mut liste, "   ");
    assert_eq!(n, 0);
    assert_eq!(liste.len(), 2);
}

#[test]
fn ajouter_puis_supprimer_rend_la_liste_de_depart() {
    let mut liste = vec![entree("A", "u"), entree("B", "v")];
    ajouter_chaine(&mut liste, "C".to_string(), "w".to_string());
    let n = supprimer_chaine_par_url(&mut liste, "w");
    assert_eq!(n, 1);
    let noms: Vec<&str> = liste.iter().map(|e| e.nom.as_str()).collect();
    assert_eq!(noms, vec!["A", "B"]);
}

#[test]
fn candidats_depuis_un_chemin_absolu() {
    let c = candidats_chaines_json(&segments(&["/", "a", "b"]), true);
    assert_eq!(
        c,
        vec![
            segments(&["/", "a", "b", "chaines.json"]),
            segments(&["/", "a", "chaines.json"]),
            segments(&["/", "chaines.json"]),
        ]
    );
}

#[test]
fn candidats_depuis_un_chemin_relatif() {
    let c = candidats_chaines_json(&segments(&["a", "b"]), false);
    assert_eq!(
        c,
        vec![segments(&["a", "b", "chaines.json"]), segments(&["a", "chaines.json"]), segments(&["chaines.json"])]
    );
}

#[test]
fn candidats_limites_a_vingt_quatre_niveaux() {
    let profond: Vec<String> = (0..30).map(|i| format!("d{i}")).collect();
    let c = candidats_chaines_json(&profond, false);
    assert_eq!(c.len(), 24);
    assert_eq!(c[23].len(), 30 - 23 + 1);
}

#[test]
fn chercher_rend_le_premier_fichier_existant() {
    let c = candidats_chaines_json(&segments(&["/", "a", "b", "c"]), true);
    let trouve = chercher_chaines_json_en_remontant(c, &vec![false, false, false, true]);
    assert_eq!(trouve, Some(segments(&["/", "chaines.json"])));
    let c2 = candidats_chaines_json(&segments(&["a"]), false);
    assert_eq!(chercher_chaines_json_en_remontant(c2, &vec![false, false]), None);
}

#[test]
fn nom_lu_dans_le_chemin_de_l_url() {
    assert_eq!(nom_depuis_url_chaine("https://user@www.youtube.com/@Chaine"), "Chaine");
    assert_eq!(nom_depuis_url_chaine("https://www.youtube.com/watch?x=@abc"), "abc");
}
