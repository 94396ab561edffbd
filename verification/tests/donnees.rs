use resume_youtube::donnees::{
    chemin_ancien_resume, chemin_modele_local, chemin_transcript_cache, chemins_carte_mentale, cle_chaine_depuis_url,
    dossier_video_sous_chaine, format_resume_reconnu, nettoyer_nom_dossier, nom_fichier_resume, repertoire_modeles_locaux,
    repertoire_texte_libre, repertoire_video,
};

fn s(v: &[&str]) -> Vec<String> {
    v.iter().map(|x| x.to_string()).collect()
}

#[test]
fn noms_de_dossier_surs() {
    assert_eq!(nettoyer_nom_dossier("  Ma Vidéo: 1 "), "Ma_Vid_o__1");
    assert_eq!(nettoyer_nom_dossier(" .a. "), "a");
    assert_eq!(nettoyer_nom_dossier("   "), "inconnu");
    assert_eq!(nettoyer_nom_dossier("..."), "inconnu");
    assert_eq!(nettoyer_nom_dossier("a-b_c.d"), "a-b_c.d");
}

#[test]
fn nom_de_dossier_deja_sur_inchange() {
    let une = nettoyer_nom_dossier(" x/y? ");
    assert_eq!(nettoyer_nom_dossier(&une), une);
}

#[test]
fn cles_de_chaine() {
    assert_eq!(cle_chaine_depuis_url("https://www.youtube.com/@oxyad"), "oxyad");
    assert_eq!(cle_chaine_depuis_url("https://www.youtube.com/@Ox Yad/videos?x=1"), "Ox_Yad");
    assert_eq!(cle_chaine_depuis_url("https://www.youtube.com/channel/UC12/"), "UC12");
    assert_eq!(cle_chaine_depuis_url(" / "), "inconnu");
}

#[test]
fn dossiers_des_videos() {
    assert_eq!(repertoire_video(Some("https://youtube.com/@c"), " id1 "), s(&["chaines", "c", "videos", "id1"]));
    assert_eq!(repertoire_video(Some("  "), "id1"), s(&["chaines", "direct", "videos", "id1"]));
    assert_eq!(repertoire_video(None, "id1"), s(&["chaines", "direct", "videos", "id1"]));
    assert_eq!(chemin_transcript_cache(None, "v"), s(&["chaines", "direct", "videos", "v", "transcript.txt"]));
    assert_eq!(dossier_video_sous_chaine("autre", "v?"), s(&["chaines", "autre", "videos", "v_"]));
}

#[test]
fn autres_dossiers() {
    assert_eq!(repertoire_texte_libre(" t 1 "), s(&["textes_libres", "t_1"]));
    assert_eq!(repertoire_modeles_locaux(), s(&["modeles_locaux"]));
    assert_eq!(chemin_modele_local(), s(&["modeles_locaux", "MARTHA-0.8B-Qwen3.5-Omni.Q8_0.gguf"]));
    assert_eq!(chemin_ancien_resume("v"), s(&["resumes", "v_bullets.txt"]));
}

#[test]
fn fichiers_de_resume() {
    assert_eq!(nom_fichier_resume("v", "carte_mentale"), "carte_mentale.md");
    assert_eq!(nom_fichier_resume("v", "bullets"), "v_resume.txt");
    assert!(format_resume_reconnu("bullets"));
    assert!(format_resume_reconnu("carte_mentale"));
    assert!(!format_resume_reconnu("pdf"));
}

#[test]
fn chemins_de_la_carte_mentale() {
    let c = chemins_carte_mentale(Some("https://youtube.com/@c"), "v", &s(&["a", "c"]));
    assert_eq!(
        c,
        vec![
            s(&["chaines", "c", "videos", "v", "carte_mentale.md"]),
            s(&["chaines", "a", "videos", "v", "carte_mentale.md"]),
            s(&["chaines", "c", "videos", "v", "carte_mentale.md"]),
            s(&["resumes", "v_bullets.txt"]),
        ]
    );
}
