//! Décisions des commandes de l'application de bureau : configuration du fournisseur IA,
//! formats, textes libres, rapports et index, et les tâches longues (résumé d'une vidéo,
//! d'une chaîne ou d'un texte collé, extraction des transcripts, test complet) menées
//! étape par étape.

use vstd::prelude::*;
use crate::config::FormatSortie;
use crate::donnees::{dossier_video, nom_dossier, repertoire_texte_libre, repertoire_video, vue_option_str};
use crate::ia::{vue_option, ConfigurationIA};
use crate::resume::{
    consigne_texte_libre, consigne_video, construire_messages_resume, construire_messages_resume_texte_libre,
    formatter_sortie_resume_sortie, nettoye, parser_sortie_ia_vers_sortie,
};
use crate::texte::{caracteres, chaine_de, debut_de, decimal, etendre, memes, rogne, rogner, retirer_debut, sans_debut};
use crate::youtube::{extraire_id_depuis_url, id_depuis_url, ou_sinon, vue_chaines, VideoInfo};

verus! {

/// Réglages du fournisseur IA envoyés par l'interface. La température, un flottant,
/// est portée à côté par l'appelant.
#[derive(Debug, Clone)]
pub struct ConfigurationLmPayload {
    /// `lm_studio` (défaut), `openrouter` ou `local`.
    pub fournisseur: String,
    pub cle_openrouter: Option<String>,
    pub base_url: Option<String>,
    pub route: Option<String>,
    pub modele: Option<String>,
    pub cle_lm_studio: Option<String>,
    /// Taille de la fenêtre de contexte (fournisseur `local` seulement).
    pub n_ctx: Option<u32>,
}

/// Adresse LM Studio par défaut.
pub const LM_BASE_DEFAUT: &'static str = "http://192.168.1.71:1234";
/// Route de chat par défaut.
pub const LM_ROUTE_DEFAUT: &'static str = "v1/chat/completions";
/// Modèle par défaut.
pub const MODELE_DEFAUT: &'static str = "google/gemma-4-26b-a4b";

/// Une option de texte rognée, rien si elle est blanche.
pub open spec fn option_rognee(o: Option<Seq<char>>) -> Option<Seq<char>> {
    match o {
        Some(s) => if rogne(s).len() > 0 {
            Some(rogne(s))
        } else {
            None
        },
        None => None,
    }
}

fn rognee(o: &Option<String>) -> (r: Option<String>)
    ensures
        vue_option(r) == option_rognee(vue_option(*o)),
{
    match o {
        Some(s) => {
            let c = caracteres(s.as_str());
            let t = rogner(c.as_slice());
            if t.len() > 0 {
                Some(chaine_de(t.as_slice()))
            } else {
                None
            }
        },
        None => None,
    }
}

/// Vue d'une configuration : base, route, modèle, limites, clé.
pub open spec fn vue_config(c: ConfigurationIA) -> (Seq<char>, Seq<char>, Option<Seq<char>>, usize, usize, Option<Seq<char>>) {
    (c.base_url@, c.route@, vue_option(c.modele), c.max_caracteres_transcript, c.max_caracteres_reponse, vue_option(c.cle_api_bearer))
}

/// Le fournisseur demandé, `lm_studio` s'il est blanc.
pub open spec fn fournisseur_effectif(f: Seq<char>) -> Seq<char> {
    if rogne(f).len() == 0 {
        "lm_studio"@
    } else {
        rogne(f)
    }
}

/// La route demandée, rognée et sans `/` initial, si elle n'est pas vide.
pub open spec fn route_demandee(o: Option<Seq<char>>) -> Option<Seq<char>> {
    match o {
        Some(s) => if sans_debut(rogne(s), '/').len() > 0 {
            Some(sans_debut(rogne(s), '/'))
        } else {
            None
        },
        None => None,
    }
}

/// Configuration tirée des réglages : OpenRouter (clé exigée) ou LM Studio (adresse,
/// route et clé optionnelles), modèle par défaut si aucun n'est donné.
pub open spec fn config_depuis_payload(lm: ConfigurationLmPayload, max_t: usize, max_r: usize) -> Result<(Seq<char>, Seq<char>, Option<Seq<char>>, usize, usize, Option<Seq<char>>), Seq<char>> {
    let modele = match option_rognee(vue_option(lm.modele)) {
        Some(m) => m,
        None => MODELE_DEFAUT@,
    };
    if fournisseur_effectif(lm.fournisseur@) == "openrouter"@ {
        match option_rognee(vue_option(lm.cle_openrouter)) {
            None => Err("Clé API OpenRouter requise (paramètres)."@),
            Some(cle) => Ok(("https://openrouter.ai/api/v1"@, "chat/completions"@, Some(modele), max_t, max_r, Some(cle))),
        }
    } else {
        let base = match option_rognee(vue_option(lm.base_url)) {
            Some(b) => b,
            None => LM_BASE_DEFAUT@,
        };
        let route = match route_demandee(vue_option(lm.route)) {
            Some(r) => r,
            None => LM_ROUTE_DEFAUT@,
        };
        Ok((base, route, Some(modele), max_t, max_r, option_rognee(vue_option(lm.cle_lm_studio))))
    }
}

pub open spec fn vue_resultat_config(r: Result<ConfigurationIA, String>) -> Result<(Seq<char>, Seq<char>, Option<Seq<char>>, usize, usize, Option<Seq<char>>), Seq<char>> {
    match r {
        Ok(c) => Ok(vue_config(c)),
        Err(e) => Err(e@),
    }
}

/// Configuration de connexion tirée des réglages de l'interface.
pub fn configuration_ia_depuis_payload(
    lm: &ConfigurationLmPayload,
    max_caracteres_transcript: usize,
    max_caracteres_reponse: usize,
) -> (r: Result<ConfigurationIA, String>)
    ensures
        vue_resultat_config(r) == config_depuis_payload(*lm, max_caracteres_transcript, max_caracteres_reponse),
{
    let f = caracteres(lm.fournisseur.as_str());
    let ft = rogner(f.as_slice());
    let openrouter = caracteres("openrouter");
    proof {
        reveal_strlit("openrouter");
        reveal_strlit("lm_studio");
    }
    let est_openrouter = memes(ft.as_slice(), openrouter.as_slice());
    assert("lm_studio"@.len() == 9 && "openrouter"@.len() == 10);
    assert(est_openrouter == (fournisseur_effectif(lm.fournisseur@) == "openrouter"@));
    let modele = match rognee(&lm.modele) {
        Some(m) => m,
        None => MODELE_DEFAUT.to_owned(),
    };
    if est_openrouter {
        match rognee(&lm.cle_openrouter) {
            None => Err("Clé API OpenRouter requise (paramètres).".to_owned()),
            Some(cle) => Ok(
                ConfigurationIA {
                    base_url: "https://openrouter.ai/api/v1".to_owned(),
                    route: "chat/completions".to_owned(),
                    modele: Some(modele),
                    max_caracteres_transcript,
                    max_caracteres_reponse,
                    cle_api_bearer: Some(cle),
                },
            ),
        }
    } else {
        let base = match rognee(&lm.base_url) {
            Some(b) => b,
            None => LM_BASE_DEFAUT.to_owned(),
        };
        let route = match &lm.route {
            Some(s) => {
                let c = caracteres(s.as_str());
                let t = rogner(c.as_slice());
                let u = retirer_debut(t.as_slice(), '/');
                if u.len() > 0 {
                    chaine_de(u.as_slice())
                } else {
                    LM_ROUTE_DEFAUT.to_owned()
                }
            },
            None => LM_ROUTE_DEFAUT.to_owned(),
        };
        let cle = rognee(&lm.cle_lm_studio);
        Ok(
            ConfigurationIA {
                base_url: base,
                route,
                modele: Some(modele),
                max_caracteres_transcript,
                max_caracteres_reponse,
                cle_api_bearer: cle,
            },
        )
    }
}

/// Le format nommé par l'interface : `carte_mentale`, ou l'ancien nom `bullets`.
pub fn format_depuis_chaine(nom: &str) -> (r: Result<FormatSortie, String>)
    ensures
        match r {
            Ok(f) => f == FormatSortie::CarteMentale && (nom@ == "carte_mentale"@ || nom@ == "bullets"@),
            Err(e) => !(nom@ == "carte_mentale"@ || nom@ == "bullets"@) && e@ == "format inconnu: "@ + nom@,
        },
{
    let n = caracteres(nom);
    let a = caracteres("carte_mentale");
    let b = caracteres("bullets");
    if memes(n.as_slice(), a.as_slice()) || memes(n.as_slice(), b.as_slice()) {
        Ok(FormatSortie::CarteMentale)
    } else {
        let mut m = caracteres("format inconnu: ");
        etendre(&mut m, n.as_slice());
        Err(chaine_de(m.as_slice()))
    }
}

/// Les réglages demandent-ils le moteur local (`local`, blancs ignorés) ?
pub fn est_fournisseur_local(lm: &ConfigurationLmPayload) -> (r: bool)
    ensures
        r == (rogne(lm.fournisseur@) == "local"@),
{
    let f = caracteres(lm.fournisseur.as_str());
    let t = rogner(f.as_slice());
    let l = caracteres("local");
    memes(t.as_slice(), l.as_slice())
}

/// Fournisseur par défaut des réglages.
pub fn fournisseur_lm_studio_defaut() -> (r: String)
    ensures
        r@ == "lm_studio"@,
{
    "lm_studio".to_owned()
}

/// Fenêtre de contexte du moteur local : celle demandée (50 000 par défaut), bornée à
/// [512, 131 072].
pub fn n_ctx_local(n_ctx: Option<u32>) -> (r: u32)
    ensures
        r == ({
            let n = match n_ctx {
                Some(n) => n,
                None => 50_000u32,
            };
            if n < 512 {
                512u32
            } else if n > 131_072 {
                131_072u32
            } else {
                n
            }
        }),
{
    let n = match n_ctx {
        Some(n) => n,
        None => 50_000,
    };
    if n < 512 {
        512
    } else if n > 131_072 {
        131_072
    } else {
        n
    }
}


/// Faut-il (re)charger le modèle local avant une génération ? Oui s'il n'est pas chargé,
/// ou s'il l'a été pour une autre fenêtre de contexte.
pub fn recharger_modele_local(n_ctx_charge: Option<u32>, n_ctx: u32) -> (r: bool)
    ensures
        r == match n_ctx_charge {
            Some(n) => n != n_ctx,
            None => true,
        },
{
    match n_ctx_charge {
        Some(n) => n != n_ctx,
        None => true,
    }
}

/// Longueur maximale, en caractères, d'un texte libre envoyé au modèle.
pub const MAX_CARACTERES_TEXTE_LIBRE: usize = 25_000;

/// Texte libre prêt à résumer.
#[derive(Debug)]
pub struct TexteLibrePrepare {
    /// Identifiant rogné.
    pub id: String,
    pub format: FormatSortie,
    /// Texte rogné, tronqué à 25 000 caractères.
    pub texte: String,
    /// Le texte a-t-il été tronqué ?
    pub tronque: bool,
}

/// Valide et prépare un texte libre : identifiant non blanc, format connu, texte non blanc,
/// tronqué à 25 000 caractères.
pub fn preparer_texte_libre(id_texte: &str, texte: &str, format: &str) -> (r: Result<TexteLibrePrepare, String>)
    ensures
        rogne(id_texte@).len() == 0 ==> (r matches Err(e) && e@ == "identifiant texte manquant"@),
        rogne(id_texte@).len() > 0 && !(format@ == "carte_mentale"@ || format@ == "bullets"@) ==> (r matches Err(e) && e@ == "format inconnu: "@ + format@),
        rogne(id_texte@).len() > 0 && (format@ == "carte_mentale"@ || format@ == "bullets"@) && rogne(texte@).len() == 0 ==> (r matches Err(e) && e@ == "texte vide"@),
        r is Ok <==> rogne(id_texte@).len() > 0 && (format@ == "carte_mentale"@ || format@ == "bullets"@) && rogne(texte@).len() > 0,
        match r {
            Ok(p) => p.id@ == rogne(id_texte@) && p.format == FormatSortie::CarteMentale
                && p.texte@ == debut_de(rogne(texte@), MAX_CARACTERES_TEXTE_LIBRE as nat)
                && p.tronque == (rogne(texte@).len() > MAX_CARACTERES_TEXTE_LIBRE),
            Err(_) => true,
        },
{
    let ci = caracteres(id_texte);
    let id = rogner(ci.as_slice());
    if id.len() == 0 {
        return Err("identifiant texte manquant".to_owned());
    }
    let format_sortie = match format_depuis_chaine(format) {
        Ok(f) => f,
        Err(e) => return Err(e),
    };
    let ct = caracteres(texte);
    let mut brut = rogner(ct.as_slice());
    if brut.len() == 0 {
        return Err("texte vide".to_owned());
    }
    let tronque = brut.len() > MAX_CARACTERES_TEXTE_LIBRE;
    let ghost b0 = brut@;
    brut.truncate(MAX_CARACTERES_TEXTE_LIBRE);
    assert(brut@ =~= debut_de(b0, MAX_CARACTERES_TEXTE_LIBRE as nat));
    Ok(TexteLibrePrepare {
        id: chaine_de(id.as_slice()),
        format: format_sortie,
        texte: chaine_de(brut.as_slice()),
        tronque,
    })
}

/// Un texte libre sauvegardé par l'interface.
#[derive(Debug, Clone)]
pub struct EntreeTexteLibreSauvegarde {
    pub id: String,
    pub contenu: String,
    pub resume_carte_mentale: Option<String>,
}

/// Une écriture sur disque d'un texte libre : dossier (sous la racine des données), texte
/// source, carte mentale éventuelle.
#[derive(Debug)]
pub struct EcritureTexteLibre {
    pub dossier: Vec<String>,
    pub texte_source: String,
    pub carte_mentale: Option<String>,
}

pub open spec fn vue_ecriture(e: EcritureTexteLibre) -> (Seq<Seq<char>>, Seq<char>, Option<Seq<char>>) {
    (vue_chaines(e.dossier@), e.texte_source@, vue_option(e.carte_mentale))
}

/// L'écriture d'une entrée : rien si son identifiant ou son contenu est blanc ; sinon le
/// dossier `textes_libres/<id>`, le contenu rogné et la carte rognée si elle n'est pas blanche.
pub open spec fn ecriture_de(e: EntreeTexteLibreSauvegarde) -> Option<(Seq<Seq<char>>, Seq<char>, Option<Seq<char>>)> {
    if rogne(e.id@).len() == 0 || rogne(e.contenu@).len() == 0 {
        None
    } else {
        Some((seq!["textes_libres"@, nom_dossier(rogne(e.id@))], rogne(e.contenu@), option_rognee(vue_option(e.resume_carte_mentale))))
    }
}

pub open spec fn ecritures(es: Seq<EntreeTexteLibreSauvegarde>) -> Seq<(Seq<Seq<char>>, Seq<char>, Option<Seq<char>>)>
    decreases es.len(),
{
    if es.len() == 0 {
        seq![]
    } else {
        let p = ecritures(es.drop_last());
        match ecriture_de(es.last()) {
            Some(w) => p.push(w),
            None => p,
        }
    }
}

/// Les écritures à faire pour recopier sur disque les textes libres de l'interface ; leur
/// nombre est celui des dossiers écrits.
pub fn plan_synchronisation_textes_libres(entrees: &Vec<EntreeTexteLibreSauvegarde>) -> (r: Vec<EcritureTexteLibre>)
    ensures
        r@.map_values(|e: EcritureTexteLibre| vue_ecriture(e)) == ecritures(entrees@),
{
    let mut r: Vec<EcritureTexteLibre> = Vec::new();
    let mut i: usize = 0;
    while i < entrees.len()
        invariant
            i <= entrees@.len(),
            r@.map_values(|e: EcritureTexteLibre| vue_ecriture(e)) == ecritures(entrees@.take(i as int)),
        decreases entrees@.len() - i,
    {
        proof {
            let t = entrees@.take(i + 1);
            assert(t.drop_last() =~= entrees@.take(i as int));
            assert(t.last() == entrees@[i as int]);
        }
        let e = &entrees[i];
        let ci = caracteres(e.id.as_str());
        let id = rogner(ci.as_slice());
        let cc = caracteres(e.contenu.as_str());
        let contenu = rogner(cc.as_slice());
        if id.len() > 0 && contenu.len() > 0 {
            let ids = chaine_de(id.as_slice());
            let dossier = repertoire_texte_libre(ids.as_str());
            let carte = rognee(&e.resume_carte_mentale);
            let w = EcritureTexteLibre { dossier, texte_source: chaine_de(contenu.as_slice()), carte_mentale: carte };
            let ghost avant = r@;
            r.push(w);
            assert(r@.map_values(|e: EcritureTexteLibre| vue_ecriture(e)) =~= avant.map_values(|e: EcritureTexteLibre| vue_ecriture(e)).push(vue_ecriture(w)));
        }
        i = i + 1;
    }
    assert(entrees@.take(entrees@.len() as int) =~= entrees@);
    r
}

/// Source d'un test complet.
#[derive(Debug, Clone, Copy, PartialEq, Eq, Structural)]
pub enum SourceTest {
    Chaine,
    Video,
}

/// Choisit la source du test : exactement une des deux URL doit être donnée.
pub fn choisir_source_test(channel_url: Option<String>, video_url: Option<String>) -> (r: Result<(String, SourceTest), String>)
    ensures
        match (channel_url, video_url) {
            (Some(c), None) => r matches Ok((u, s)) && u == c && s == SourceTest::Chaine,
            (None, Some(v)) => r matches Ok((u, s)) && u == v && s == SourceTest::Video,
            (Some(_), Some(_)) => r matches Err(e) && e@ == "Fournis seulement channel_url ou video_url."@,
            (None, None) => r matches Err(e) && e@ == "Fournis channel_url ou video_url."@,
        },
{
    match (channel_url, video_url) {
        (Some(c), None) => Ok((c, SourceTest::Chaine)),
        (None, Some(v)) => Ok((v, SourceTest::Video)),
        (Some(_), Some(_)) => Err("Fournis seulement channel_url ou video_url.".to_owned()),
        (None, None) => Err("Fournis channel_url ou video_url.".to_owned()),
    }
}

/// Issue d'un format dans le test complet.
#[derive(Debug)]
pub enum IssueTest {
    IaIgnoree,
    ErreurIa(String),
    Valide,
    SortieInvalide(String),
}

/// Ligne du rapport de test pour un format de libellé donné.
pub open spec fn ligne_rapport_spec(label: Seq<char>, issue: IssueTest) -> Seq<char> {
    match issue {
        IssueTest::IaIgnoree => label + ": IA ignorée (pas de config LM).\n"@,
        IssueTest::ErreurIa(e) => label + ": Erreur IA: "@ + e@ + "\n"@,
        IssueTest::Valide => label + ": OK\n"@,
        IssueTest::SortieInvalide(e) => label + ": Sortie invalide: "@ + e@ + "\n"@,
    }
}

/// Libellé d'un format dans les journaux et le rapport de test.
pub fn libelle_format(format: FormatSortie) -> (r: String)
    ensures
        r@ == "CarteMentale"@,
{
    match format {
        FormatSortie::CarteMentale => "CarteMentale".to_owned(),
    }
}

/// Ligne du rapport de test.
pub fn ligne_rapport(label: &str, issue: &IssueTest) -> (r: String)
    ensures
        r@ == ligne_rapport_spec(label@, *issue),
{
    let mut v = caracteres(label);
    match issue {
        IssueTest::IaIgnoree => {
            let s = caracteres(": IA ignorée (pas de config LM).\n");
            etendre(&mut v, s.as_slice());
        },
        IssueTest::ErreurIa(e) => {
            let s = caracteres(": Erreur IA: ");
            etendre(&mut v, s.as_slice());
            let m = caracteres(e.as_str());
            etendre(&mut v, m.as_slice());
            let f = caracteres("\n");
            etendre(&mut v, f.as_slice());
        },
        IssueTest::Valide => {
            let s = caracteres(": OK\n");
            etendre(&mut v, s.as_slice());
        },
        IssueTest::SortieInvalide(e) => {
            let s = caracteres(": Sortie invalide: ");
            etendre(&mut v, s.as_slice());
            let m = caracteres(e.as_str());
            etendre(&mut v, m.as_slice());
            let f = caracteres("\n");
            etendre(&mut v, f.as_slice());
        },
    }
    chaine_de(v.as_slice())
}

/// Bloc d'un résumé de chaîne : `=== <titre> ===\n<texte>`.
pub fn bloc_resume(titre: &str, texte: &str) -> (r: String)
    ensures
        r@ == "=== "@ + titre@ + " ===\n"@ + texte@,
{
    let mut v = caracteres("=== ");
    let t = caracteres(titre);
    etendre(&mut v, t.as_slice());
    let m = caracteres(" ===\n");
    etendre(&mut v, m.as_slice());
    let x = caracteres(texte);
    etendre(&mut v, x.as_slice());
    chaine_de(v.as_slice())
}

/// Nom du fichier de sortie d'un résumé : `<id>_<format>.<extension>`.
pub fn nom_fichier_sortie(id: &str, format: FormatSortie) -> (r: String)
    ensures
        r@ == id@ + "_"@ + "carte_mentale"@ + "."@ + "md"@,
{
    let mut v = caracteres(id);
    let s = caracteres("_");
    etendre(&mut v, s.as_slice());
    let n = caracteres(format.nom_pour_prompt());
    etendre(&mut v, n.as_slice());
    let p = caracteres(".");
    etendre(&mut v, p.as_slice());
    let e = caracteres(format.ext_fichier());
    etendre(&mut v, e.as_slice());
    chaine_de(v.as_slice())
}

/// Nom du fichier d'un transcript exporté : `<id>_transcript.txt`.
pub fn nom_fichier_transcript(id: &str) -> (r: String)
    ensures
        r@ == id@ + "_transcript.txt"@,
{
    let mut v = caracteres(id);
    let s = caracteres("_transcript.txt");
    etendre(&mut v, s.as_slice());
    chaine_de(v.as_slice())
}

/// Une ligne de l'index des transcripts d'une chaîne.
#[derive(Debug, Clone)]
pub struct EntreeIndexTranscript {
    pub id: String,
    pub titre: String,
    pub url: String,
    pub ok: bool,
    pub nb_caracteres: Option<usize>,
    pub fichier_transcript: Option<String>,
}

/// Ligne d'index d'une vidéo : réussie avec le nombre de caractères du transcript (et le
/// fichier écrit s'il y en a un), ou en échec sans transcript.
pub fn entree_index(video: &VideoInfo, transcript: Option<&str>, fichier: Option<String>) -> (r: EntreeIndexTranscript)
    ensures
        r.id == video.id,
        r.titre == video.titre,
        r.url == video.url,
        r.ok == transcript is Some,
        match transcript {
            Some(t) => r.nb_caracteres == Some(t@.len() as usize) && r.fichier_transcript == fichier,
            None => r.nb_caracteres is None && r.fichier_transcript is None,
        },
{
    match transcript {
        Some(t) => {
            let c = caracteres(t);
            EntreeIndexTranscript {
                id: video.id.clone(),
                titre: video.titre.clone(),
                url: video.url.clone(),
                ok: true,
                nb_caracteres: Some(c.len()),
                fichier_transcript: fichier,
            }
        },
        None => EntreeIndexTranscript {
            id: video.id.clone(),
            titre: video.titre.clone(),
            url: video.url.clone(),
            ok: false,
            nb_caracteres: None,
            fichier_transcript: None,
        },
    }
}

/// La carte mentale enregistrée pour une vidéo, s'il y en a une.
#[derive(Debug, Clone)]
pub struct ResumesEnregistresPourVideo {
    pub carte_mentale: Option<String>,
}

/// État du modèle local (présent sur disque et/ou chargé en mémoire).
#[derive(Debug, Clone)]
pub struct EtatModeleLocal {
    pub identifiant: String,
    pub nom_fichier: String,
    pub url_telechargement: String,
    pub chemin: String,
    pub present: bool,
    pub charge: bool,
    pub taille_octets: Option<u64>,
    pub n_ctx_courant: Option<u32>,
}

/// État du modèle local : identifiant, fichier et adresse fixes ; la taille n'est donnée
/// que si le fichier est présent.
pub fn etat_modele_local(chemin: String, present: bool, taille_octets: Option<u64>, n_ctx_charge: Option<u32>) -> (r: EtatModeleLocal)
    ensures
        r.identifiant@ == crate::donnees::IDENTIFIANT_MODELE_LOCAL@,
        r.nom_fichier@ == crate::donnees::NOM_FICHIER_MODELE_LOCAL@,
        r.url_telechargement@ == crate::donnees::URL_MODELE_LOCAL@,
        r.chemin == chemin,
        r.present == present,
        r.charge == n_ctx_charge is Some,
        r.taille_octets == if present { taille_octets } else { None },
        r.n_ctx_courant == n_ctx_charge,
{
    EtatModeleLocal {
        identifiant: crate::donnees::IDENTIFIANT_MODELE_LOCAL.to_owned(),
        nom_fichier: crate::donnees::NOM_FICHIER_MODELE_LOCAL.to_owned(),
        url_telechargement: crate::donnees::URL_MODELE_LOCAL.to_owned(),
        chemin,
        present,
        charge: n_ctx_charge.is_some(),
        taille_octets: if present { taille_octets } else { None },
        n_ctx_courant: n_ctx_charge,
    }
}

/// Longueur maximale du transcript envoyé au modèle pour un résumé.
pub const MAX_TRANSCRIPT_RESUME: usize = 25_000;
/// Longueur maximale de la réponse du modèle pour un résumé.
pub const MAX_REPONSE_RESUME: usize = 18_000;
/// Erreur rendue quand l'utilisateur annule une tâche.
pub const JOB_ANNULE: &'static str = "Job annulé par l’utilisateur.";
/// Titre donné au modèle pour une vidéo résumée seule.
pub const TITRE_VIDEO_SEULE: &'static str = "Vidéo YouTube";
/// Fichier de la carte mentale, dans le dossier d'une vidéo ou d'un texte libre.
pub const FICHIER_CARTE_MENTALE: &'static str = "carte_mentale.md";
/// Fichier du texte source d'un texte libre.
pub const FICHIER_TEXTE_SOURCE: &'static str = "texte_source.txt";
/// Fichier de l'index des transcripts d'une chaîne.
pub const FICHIER_INDEX: &'static str = "index.json";

/// Le format demandé est-il connu ?
pub open spec fn format_reconnu(f: Seq<char>) -> bool {
    f == "carte_mentale"@ || f == "bullets"@
}

/// Configuration du moteur local : pas de serveur, seules les limites comptent.
pub open spec fn configuration_locale_vue() -> (Seq<char>, Seq<char>, Option<Seq<char>>, usize, usize, Option<Seq<char>>) {
    (Seq::<char>::empty(), Seq::<char>::empty(), None, MAX_TRANSCRIPT_RESUME, MAX_REPONSE_RESUME, None)
}

/// Le modèle d'un résumé : le moteur local si les réglages le demandent, sinon le serveur
/// qu'ils décrivent (erreur s'ils sont incomplets).
pub open spec fn configuration_de_resume(lm: ConfigurationLmPayload) -> Result<(bool, (Seq<char>, Seq<char>, Option<Seq<char>>, usize, usize, Option<Seq<char>>)), Seq<char>> {
    if rogne(lm.fournisseur@) == "local"@ {
        Ok((true, configuration_locale_vue()))
    } else {
        match config_depuis_payload(lm, MAX_TRANSCRIPT_RESUME, MAX_REPONSE_RESUME) {
            Ok(c) => Ok((false, c)),
            Err(e) => Err(e),
        }
    }
}

/// Préparation d'un résumé : le format d'abord, puis le modèle.
pub open spec fn preparation_resume(format: Seq<char>, lm: ConfigurationLmPayload) -> Result<(bool, (Seq<char>, Seq<char>, Option<Seq<char>>, usize, usize, Option<Seq<char>>)), Seq<char>> {
    if !format_reconnu(format) {
        Err("format inconnu: "@ + format)
    } else {
        configuration_de_resume(lm)
    }
}

pub open spec fn vue_choix(r: Result<(bool, ConfigurationIA), String>) -> Result<(bool, (Seq<char>, Seq<char>, Option<Seq<char>>, usize, usize, Option<Seq<char>>)), Seq<char>> {
    match r {
        Ok((l, c)) => Ok((l, vue_config(c))),
        Err(e) => Err(e@),
    }
}

fn configuration_locale() -> (r: ConfigurationIA)
    ensures
        vue_config(r) == configuration_locale_vue(),
{
    ConfigurationIA {
        base_url: String::new(),
        route: String::new(),
        modele: None,
        max_caracteres_transcript: MAX_TRANSCRIPT_RESUME,
        max_caracteres_reponse: MAX_REPONSE_RESUME,
        cle_api_bearer: None,
    }
}

/// Le modèle d'un résumé (moteur local ou serveur) et sa configuration.
pub fn configuration_resume(lm: &ConfigurationLmPayload) -> (r: Result<(bool, ConfigurationIA), String>)
    ensures
        vue_choix(r) == configuration_de_resume(*lm),
{
    if est_fournisseur_local(lm) {
        Ok((true, configuration_locale()))
    } else {
        match configuration_ia_depuis_payload(lm, MAX_TRANSCRIPT_RESUME, MAX_REPONSE_RESUME) {
            Ok(c) => Ok((false, c)),
            Err(e) => Err(e),
        }
    }
}

/// Vérifie le format puis choisit le modèle d'un résumé.
pub fn preparer_resume(format: &str, lm: &ConfigurationLmPayload) -> (r: Result<(bool, ConfigurationIA), String>)
    ensures
        vue_choix(r) == preparation_resume(format@, *lm),
{
    match format_depuis_chaine(format) {
        Err(e) => Err(e),
        Ok(_) => configuration_resume(lm),
    }
}

/// Demande du transcript d'une vidéo (cache des données, sinon yt-dlp).
#[derive(Debug)]
pub struct DemandeTranscript {
    pub channel_url: Option<String>,
    pub id_video: String,
    pub url: String,
    pub max_caracteres: usize,
}

pub open spec fn vue_demande(d: DemandeTranscript) -> (Option<Seq<char>>, Seq<char>, Seq<char>, usize) {
    (vue_option(d.channel_url), d.id_video@, d.url@, d.max_caracteres)
}

/// Appel du modèle : moteur local ou serveur configuré, et les deux messages.
#[derive(Debug)]
pub struct AppelModele {
    pub local: bool,
    pub configuration: ConfigurationIA,
    pub system: String,
    pub user: String,
}

/// Écriture d'un fichier dans un dossier sous la racine des données (créé au besoin).
#[derive(Debug)]
pub struct EcritureDonnees {
    pub dossier: Vec<String>,
    pub fichier: String,
    pub texte: String,
}

pub open spec fn vue_ecriture_donnees(e: EcritureDonnees) -> (Seq<Seq<char>>, Seq<char>, Seq<char>) {
    (vue_chaines(e.dossier@), e.fichier@, e.texte@)
}

/// Écriture d'un fichier dans un dossier choisi par l'utilisateur (créé au besoin).
#[derive(Debug)]
pub struct EcritureSortie {
    pub dossier: String,
    pub fichier: String,
    pub texte: String,
}

/// Texte de l'erreur d'une réponse blanche du modèle.
pub open spec fn message_sortie_vide() -> Seq<char> {
    "sortie IA invalide pour le format "@ + "CarteMentale"@ + ": "@ + "sortie vide"@
}

fn copie_option(o: &Option<String>) -> (r: Option<String>)
    ensures
        r == *o,
{
    match o {
        Some(s) => Some(s.clone()),
        None => None,
    }
}

fn copie_configuration(c: &ConfigurationIA) -> (r: ConfigurationIA)
    ensures
        r == *c,
{
    ConfigurationIA {
        base_url: c.base_url.clone(),
        route: c.route.clone(),
        modele: copie_option(&c.modele),
        max_caracteres_transcript: c.max_caracteres_transcript,
        max_caracteres_reponse: c.max_caracteres_reponse,
        cle_api_bearer: copie_option(&c.cle_api_bearer),
    }
}

/// La réponse du modèle mise en forme : `Err` avec le texte de l'erreur si elle est blanche.
fn mettre_en_forme(contenu: &str) -> (r: Result<String, String>)
    ensures
        rogne(contenu@).len() == 0 ==> (r matches Err(e) && e@ == message_sortie_vide()),
        rogne(contenu@).len() > 0 ==> (r matches Ok(t) && t@ == nettoye(contenu@)),
{
    match parser_sortie_ia_vers_sortie(FormatSortie::CarteMentale, contenu) {
        Ok(s) => Ok(formatter_sortie_resume_sortie(FormatSortie::CarteMentale, s)),
        Err(e) => Err(e.message()),
    }
}

/// Étape du résumé d'une vidéo.
#[derive(Debug, Clone, Copy, PartialEq, Eq, Structural)]
pub enum EtapeResumeVideo {
    Transcript,
    Modele,
    Enregistrement,
    Fini,
}

/// Résumé d'une vidéo : transcript, appel du modèle, puis enregistrement de la carte mentale
/// dans le dossier de la vidéo.
#[derive(Debug)]
pub struct ResumeVideo {
    pub etape: EtapeResumeVideo,
    pub local: bool,
    pub configuration: ConfigurationIA,
    pub channel_url: Option<String>,
    /// Identifiant tiré de l'URL, `video` à défaut.
    pub id_video: String,
    /// La carte mentale, une fois la réponse mise en forme.
    pub texte: String,
}

/// Ce que l'application doit faire ensuite pour le résumé d'une vidéo.
#[derive(Debug)]
pub enum PasResumeVideo {
    Transcript(DemandeTranscript),
    Modele(AppelModele),
    Ecrire(EcritureDonnees),
    Fini(Result<String, String>),
}

/// Les champs que les étapes du résumé d'une vidéo ne changent pas.
pub open spec fn meme_video(a: ResumeVideo, b: ResumeVideo) -> bool {
    &&& a.local == b.local
    &&& a.configuration == b.configuration
    &&& a.channel_url == b.channel_url
    &&& a.id_video == b.id_video
}

/// Commence le résumé d'une vidéo : format et modèle vérifiés d'abord ; puis le transcript
/// de la vidéo (identifiant tiré de l'URL, `video` à défaut), limité à 25 000 caractères.
pub fn resumer_video_direct(video_url: &str, format: &str, channel_url: Option<&str>, lm: &ConfigurationLmPayload) -> (r: (ResumeVideo, PasResumeVideo))
    ensures
        match preparation_resume(format@, *lm) {
            Err(e) => r.0.etape == EtapeResumeVideo::Fini && (r.1 matches PasResumeVideo::Fini(Err(m)) && m@ == e),
            Ok((local, conf)) => {
                &&& r.0.etape == EtapeResumeVideo::Transcript
                &&& r.0.local == local
                &&& vue_config(r.0.configuration) == conf
                &&& vue_option(r.0.channel_url) == vue_option_str(channel_url)
                &&& r.0.id_video@ == ou_sinon(id_depuis_url(video_url@), "video"@)
                &&& r.1 matches PasResumeVideo::Transcript(d)
                &&& vue_demande(d) == (vue_option_str(channel_url), r.0.id_video@, video_url@, MAX_TRANSCRIPT_RESUME)
            },
        },
{
    let canal: Option<String> = match channel_url {
        Some(c) => Some(c.to_owned()),
        None => None,
    };
    let id = match extraire_id_depuis_url(video_url) {
        Some(i) => i,
        None => "video".to_owned(),
    };
    match preparer_resume(format, lm) {
        Err(e) => {
            let m = ResumeVideo {
                etape: EtapeResumeVideo::Fini,
                local: false,
                configuration: configuration_locale(),
                channel_url: canal,
                id_video: id,
                texte: String::new(),
            };
            (m, PasResumeVideo::Fini(Err(e)))
        },
        Ok((local, configuration)) => {
            let d = DemandeTranscript {
                channel_url: copie_option(&canal),
                id_video: id.clone(),
                url: video_url.to_owned(),
                max_caracteres: MAX_TRANSCRIPT_RESUME,
            };
            let m = ResumeVideo {
                etape: EtapeResumeVideo::Transcript,
                local,
                configuration,
                channel_url: canal,
                id_video: id,
                texte: String::new(),
            };
            (m, PasResumeVideo::Transcript(d))
        },
    }
}

impl ResumeVideo {
    /// Reçoit le transcript. Une erreur termine ; une annulation demandée pendant
    /// l'extraction termine par [`JOB_ANNULE`] ; sinon le modèle est appelé avec le titre
    /// « Vidéo YouTube ».
    pub fn recevoir_transcript(&mut self, t: Result<String, String>, annule: bool) -> (p: PasResumeVideo)
        requires
            old(self).etape == EtapeResumeVideo::Transcript,
        ensures
            meme_video(*old(self), *final(self)),
            match t {
                Err(e) => final(self).etape == EtapeResumeVideo::Fini && (p matches PasResumeVideo::Fini(Err(m)) && m == e),
                Ok(tr) => if annule {
                    final(self).etape == EtapeResumeVideo::Fini && (p matches PasResumeVideo::Fini(Err(m)) && m@ == JOB_ANNULE@)
                } else {
                    &&& final(self).etape == EtapeResumeVideo::Modele
                    &&& p matches PasResumeVideo::Modele(a)
                    &&& a.local == old(self).local
                    &&& a.configuration == old(self).configuration
                    &&& a.system@ == Seq::<char>::empty()
                    &&& a.user@ == consigne_video(tr@, Some(TITRE_VIDEO_SEULE@))
                },
            },
    {
        match t {
            Err(e) => {
                self.etape = EtapeResumeVideo::Fini;
                PasResumeVideo::Fini(Err(e))
            },
            Ok(tr) => {
                if annule {
                    self.etape = EtapeResumeVideo::Fini;
                    PasResumeVideo::Fini(Err(JOB_ANNULE.to_owned()))
                } else {
                    let (system, user) = construire_messages_resume(tr.as_str(), Some(TITRE_VIDEO_SEULE), FormatSortie::CarteMentale);
                    self.etape = EtapeResumeVideo::Modele;
                    PasResumeVideo::Modele(AppelModele {
                        local: self.local,
                        configuration: copie_configuration(&self.configuration),
                        system,
                        user,
                    })
                }
            },
        }
    }

    /// Reçoit la réponse du modèle (ou son erreur, annulation comprise). Une réponse blanche
    /// est refusée ; sinon la carte mentale est enregistrée dans le dossier de la vidéo.
    pub fn recevoir_reponse(&mut self, c: Result<String, String>) -> (p: PasResumeVideo)
        requires
            old(self).etape == EtapeResumeVideo::Modele,
        ensures
            meme_video(*old(self), *final(self)),
            match c {
                Err(e) => final(self).etape == EtapeResumeVideo::Fini && (p matches PasResumeVideo::Fini(Err(m)) && m == e),
                Ok(x) => if rogne(x@).len() == 0 {
                    final(self).etape == EtapeResumeVideo::Fini && (p matches PasResumeVideo::Fini(Err(m)) && m@ == message_sortie_vide())
                } else {
                    &&& final(self).etape == EtapeResumeVideo::Enregistrement
                    &&& final(self).texte@ == nettoye(x@)
                    &&& p matches PasResumeVideo::Ecrire(w)
                    &&& vue_ecriture_donnees(w) == (dossier_video(vue_option(old(self).channel_url), old(self).id_video@), FICHIER_CARTE_MENTALE@, nettoye(x@))
                },
            },
    {
        match c {
            Err(e) => {
                self.etape = EtapeResumeVideo::Fini;
                PasResumeVideo::Fini(Err(e))
            },
            Ok(x) => match mettre_en_forme(x.as_str()) {
                Err(m) => {
                    self.etape = EtapeResumeVideo::Fini;
                    PasResumeVideo::Fini(Err(m))
                },
                Ok(texte) => {
                    let dossier = match &self.channel_url {
                        Some(u) => repertoire_video(Some(u.as_str()), self.id_video.as_str()),
                        None => repertoire_video(None, self.id_video.as_str()),
                    };
                    let w = EcritureDonnees { dossier, fichier: FICHIER_CARTE_MENTALE.to_owned(), texte: texte.clone() };
                    self.texte = texte;
                    self.etape = EtapeResumeVideo::Enregistrement;
                    PasResumeVideo::Ecrire(w)
                },
            },
        }
    }

    /// Après l'enregistrement, réussi ou non, rend la carte mentale.
    pub fn recevoir_ecriture(&mut self) -> (p: PasResumeVideo)
        requires
            old(self).etape == EtapeResumeVideo::Enregistrement,
        ensures
            meme_video(*old(self), *final(self)),
            final(self).etape == EtapeResumeVideo::Fini,
            p matches PasResumeVideo::Fini(Ok(t)) && t == old(self).texte,
    {
        self.etape = EtapeResumeVideo::Fini;
        PasResumeVideo::Fini(Ok(self.texte.clone()))
    }
}

/// Étape du résumé des vidéos d'une chaîne.
#[derive(Debug, Clone, Copy, PartialEq, Eq, Structural)]
pub enum EtapeResumeChaine {
    Liste,
    Transcript,
    Modele,
    Sortie,
    Enregistrement,
    Fini,
}

/// Résumé des dernières vidéos d'une chaîne, une à une : une vidéo qui échoue (transcript,
/// modèle ou réponse blanche) est passée ; les réussites s'ajoutent dans l'ordre de la liste.
pub struct ResumeChaine {
    pub etape: EtapeResumeChaine,
    pub local: bool,
    pub configuration: ConfigurationIA,
    pub channel_url: String,
    pub nb_videos: usize,
    pub dossier_sortie: Option<String>,
    pub videos: Vec<VideoInfo>,
    /// La vidéo en cours.
    pub indice: usize,
    /// Un bloc `=== titre ===` par vidéo résumée.
    pub resultats: Vec<String>,
    /// La carte mentale de la vidéo en cours.
    pub texte: String,
    /// L'issue de chaque vidéo traitée, dans l'ordre : sa carte mentale, ou rien si elle a
    /// été passée.
    pub issues: Ghost<Seq<Option<Seq<char>>>>,
}

/// Les blocs `=== titre ===\n<carte>` des vidéos réussies, dans l'ordre de la liste.
pub open spec fn blocs_reussis(videos: Seq<VideoInfo>, issues: Seq<Option<Seq<char>>>) -> Seq<Seq<char>>
    decreases issues.len(),
{
    if issues.len() == 0 {
        seq![]
    } else {
        let p = blocs_reussis(videos, issues.drop_last());
        match issues.last() {
            Some(t) => p.push("=== "@ + videos[issues.len() - 1].titre@ + " ===\n"@ + t),
            None => p,
        }
    }
}

/// Ce qu'un résumé de chaîne rend quand il réussit : les blocs des vidéos réussies.
pub open spec fn rendu_chaine(m: ResumeChaine, p: PasResumeChaine) -> bool {
    p matches PasResumeChaine::Fini(Ok(v)) ==> vue_chaines(v@) == blocs_reussis(m.videos@, m.issues@)
}

/// Ce que l'application doit faire ensuite pour le résumé d'une chaîne.
#[derive(Debug)]
pub enum PasResumeChaine {
    Lister { channel_url: String, nb_videos: usize },
    Transcript(DemandeTranscript),
    Modele(AppelModele),
    EcrireSortie(EcritureSortie),
    Ecrire(EcritureDonnees),
    Fini(Result<Vec<String>, String>),
}

impl ResumeChaine {
    /// Une vidéo est en cours aux étapes qui en traitent une ; son issue est connue après
    /// la réponse du modèle ; les résultats sont les blocs des vidéos réussies.
    pub open spec fn bien_forme(self) -> bool {
        &&& self.issues@.len() <= self.videos@.len()
        &&& (self.etape == EtapeResumeChaine::Transcript || self.etape == EtapeResumeChaine::Modele)
            ==> self.indice < self.videos@.len() && self.issues@.len() == self.indice
        &&& (self.etape == EtapeResumeChaine::Sortie || self.etape == EtapeResumeChaine::Enregistrement)
            ==> self.indice < self.videos@.len() && self.issues@.len() == self.indice + 1
        &&& self.etape != EtapeResumeChaine::Fini ==> vue_chaines(self.resultats@) == blocs_reussis(self.videos@, self.issues@)
    }

    /// Les résultats déjà obtenus : ceux rendus si la tâche vient de finir, sinon ceux en cours.
    pub open spec fn resultats_courants(self, p: PasResumeChaine) -> Seq<String> {
        match p {
            PasResumeChaine::Fini(Ok(v)) => v@,
            _ => self.resultats@,
        }
    }
}

/// Les champs que les étapes du résumé d'une chaîne ne changent pas.
pub open spec fn meme_chaine(a: ResumeChaine, b: ResumeChaine) -> bool {
    &&& a.local == b.local
    &&& a.configuration == b.configuration
    &&& a.channel_url == b.channel_url
    &&& a.nb_videos == b.nb_videos
    &&& a.dossier_sortie == b.dossier_sortie
}

/// La demande du transcript de la vidéo `v` d'une chaîne.
pub open spec fn demande_video_chaine(d: DemandeTranscript, chaine: Seq<char>, v: VideoInfo, max: usize) -> bool {
    vue_demande(d) == (Some(chaine), v.id@, v.url@, max)
}

/// Passage à la vidéo suivante : son transcript, ou la fin avec les résultats obtenus.
pub open spec fn chaine_suivante(a: ResumeChaine, b: ResumeChaine, p: PasResumeChaine) -> bool {
    &&& b.videos == a.videos
    &&& b.indice == a.indice + 1
    &&& b.resultats_courants(p) == a.resultats@
    &&& if a.indice + 1 < a.videos@.len() {
        b.etape == EtapeResumeChaine::Transcript && (p matches PasResumeChaine::Transcript(d)
            && demande_video_chaine(d, a.channel_url@, a.videos@[a.indice + 1], MAX_TRANSCRIPT_RESUME))
    } else {
        b.etape == EtapeResumeChaine::Fini && p is Fini && b.issues@.len() == b.videos@.len()
    }
}

/// Nom du fichier d'un résumé dans le dossier de sortie : `<id>_carte_mentale.md`.
pub open spec fn fichier_sortie_resume(id: Seq<char>) -> Seq<char> {
    id + "_"@ + "carte_mentale"@ + "."@ + "md"@
}

/// Commence le résumé d'une chaîne : format et modèle vérifiés d'abord, puis la liste des
/// dernières vidéos.
pub fn resumer_chaine(format: &str, lm: &ConfigurationLmPayload, channel_url: &str, nb_videos: usize, dossier_sortie: Option<String>) -> (r: (ResumeChaine, PasResumeChaine))
    ensures
        match preparation_resume(format@, *lm) {
            Err(e) => r.0.etape == EtapeResumeChaine::Fini && (r.1 matches PasResumeChaine::Fini(Err(m)) && m@ == e),
            Ok((local, conf)) => {
                &&& r.0.etape == EtapeResumeChaine::Liste
                &&& r.0.local == local
                &&& vue_config(r.0.configuration) == conf
                &&& r.0.channel_url@ == channel_url@
                &&& r.0.nb_videos == nb_videos
                &&& r.0.dossier_sortie == dossier_sortie
                &&& r.0.resultats@.len() == 0
                &&& r.0.issues@.len() == 0
                &&& r.1 matches PasResumeChaine::Lister { channel_url: c, nb_videos: n }
                &&& c@ == channel_url@ && n == nb_videos
            },
        },
{
    let (etape, local, configuration, pas) = match preparer_resume(format, lm) {
        Err(e) => (EtapeResumeChaine::Fini, false, configuration_locale(), PasResumeChaine::Fini(Err(e))),
        Ok((local, configuration)) => (
            EtapeResumeChaine::Liste,
            local,
            configuration,
            PasResumeChaine::Lister { channel_url: channel_url.to_owned(), nb_videos },
        ),
    };
    let m = ResumeChaine {
        etape,
        local,
        configuration,
        channel_url: channel_url.to_owned(),
        nb_videos,
        dossier_sortie,
        videos: Vec::new(),
        indice: 0,
        resultats: Vec::new(),
        texte: String::new(),
        issues: Ghost(Seq::empty()),
    };
    (m, pas)
}

impl ResumeChaine {
    fn demande(&self, i: usize) -> (d: DemandeTranscript)
        requires
            i < self.videos@.len(),
        ensures
            demande_video_chaine(d, self.channel_url@, self.videos@[i as int], MAX_TRANSCRIPT_RESUME),
    {
        DemandeTranscript {
            channel_url: Some(self.channel_url.clone()),
            id_video: self.videos[i].id.clone(),
            url: self.videos[i].url.clone(),
            max_caracteres: MAX_TRANSCRIPT_RESUME,
        }
    }

    fn finir(&mut self) -> (p: PasResumeChaine)
        requires
            vue_chaines(old(self).resultats@) == blocs_reussis(old(self).videos@, old(self).issues@),
        ensures
            meme_chaine(*old(self), *final(self)),
            final(self).videos == old(self).videos,
            final(self).indice == old(self).indice,
            final(self).issues == old(self).issues,
            rendu_chaine(*final(self), p),
            final(self).etape == EtapeResumeChaine::Fini,
            p matches PasResumeChaine::Fini(Ok(v)) && v@ == old(self).resultats@,
    {
        let mut v: Vec<String> = Vec::new();
        std::mem::swap(&mut v, &mut self.resultats);
        self.etape = EtapeResumeChaine::Fini;
        PasResumeChaine::Fini(Ok(v))
    }

    /// La vidéo en cours est passée.
    fn passer(&mut self)
        requires
            old(self).indice < old(self).videos@.len(),
            old(self).issues@.len() == old(self).indice,
            vue_chaines(old(self).resultats@) == blocs_reussis(old(self).videos@, old(self).issues@),
        ensures
            meme_chaine(*old(self), *final(self)),
            final(self).etape == old(self).etape,
            final(self).videos == old(self).videos,
            final(self).indice == old(self).indice,
            final(self).resultats == old(self).resultats,
            final(self).texte == old(self).texte,
            final(self).issues@ == old(self).issues@.push(None),
            vue_chaines(final(self).resultats@) == blocs_reussis(final(self).videos@, final(self).issues@),
    {
        let ghost issues = self.issues@;
        self.issues = Ghost(issues.push(None));
        assert(self.issues@.drop_last() =~= issues);
    }

    fn suivante(&mut self) -> (p: PasResumeChaine)
        requires
            old(self).indice < old(self).videos@.len(),
            old(self).issues@.len() == old(self).indice + 1,
            vue_chaines(old(self).resultats@) == blocs_reussis(old(self).videos@, old(self).issues@),
        ensures
            meme_chaine(*old(self), *final(self)),
            final(self).bien_forme(),
            final(self).issues == old(self).issues,
            chaine_suivante(*old(self), *final(self), p),
            rendu_chaine(*final(self), p),
    {
        let n = self.videos.len();
        self.indice = self.indice + 1;
        if self.indice < n {
            self.etape = EtapeResumeChaine::Transcript;
            PasResumeChaine::Transcript(self.demande(self.indice))
        } else {
            self.finir()
        }
    }

    /// Reçoit la liste des vidéos : son erreur termine ; une liste vide donne un résultat
    /// vide ; sinon le transcript de la première vidéo est demandé.
    pub fn recevoir_videos(&mut self, liste: Result<Vec<VideoInfo>, String>) -> (p: PasResumeChaine)
        requires
            old(self).etape == EtapeResumeChaine::Liste,
            old(self).resultats@.len() == 0,
            old(self).issues@.len() == 0,
        ensures
            meme_chaine(*old(self), *final(self)),
            final(self).bien_forme(),
            final(self).issues == old(self).issues,
            rendu_chaine(*final(self), p),
            match liste {
                Err(e) => final(self).etape == EtapeResumeChaine::Fini && (p matches PasResumeChaine::Fini(Err(m)) && m == e),
                Ok(v) => {
                    &&& final(self).videos@ == v@
                    &&& final(self).indice == 0
                    &&& final(self).resultats_courants(p) == old(self).resultats@
                    &&& if v@.len() == 0 {
                        final(self).etape == EtapeResumeChaine::Fini && p is Fini
                    } else {
                        final(self).etape == EtapeResumeChaine::Transcript && (p matches PasResumeChaine::Transcript(d)
                            && demande_video_chaine(d, old(self).channel_url@, v@[0], MAX_TRANSCRIPT_RESUME))
                    }
                },
            },
    {
        match liste {
            Err(e) => {
                self.etape = EtapeResumeChaine::Fini;
                PasResumeChaine::Fini(Err(e))
            },
            Ok(v) => {
                self.videos = v;
                self.indice = 0;
                proof {
                    assert(vue_chaines(self.resultats@) =~= Seq::<Seq<char>>::empty());
                    assert(blocs_reussis(self.videos@, self.issues@) == Seq::<Seq<char>>::empty());
                }
                if self.videos.len() == 0 {
                    self.finir()
                } else {
                    self.etape = EtapeResumeChaine::Transcript;
                    PasResumeChaine::Transcript(self.demande(0))
                }
            },
        }
    }

    /// Annulation demandée avant la vidéo en cours : fin avec les résultats obtenus.
    pub fn annuler(&mut self) -> (p: PasResumeChaine)
        requires
            old(self).bien_forme(),
            old(self).etape == EtapeResumeChaine::Transcript,
        ensures
            final(self).issues == old(self).issues,
            rendu_chaine(*final(self), p),
            meme_chaine(*old(self), *final(self)),
            final(self).etape == EtapeResumeChaine::Fini,
            p matches PasResumeChaine::Fini(Ok(v)) && v@ == old(self).resultats@,
    {
        self.finir()
    }

    /// Reçoit l'issue de l'étape en cours : transcript, réponse du modèle ou écriture.
    /// Une vidéo dont le transcript, l'appel du modèle ou la réponse échoue est passée sans
    /// erreur ; une réponse valide ajoute `=== titre ===\n<carte>` aux résultats, écrite dans
    /// le dossier de sortie s'il y en a un (son échec termine en erreur), puis enregistrée
    /// dans le dossier de la vidéo (son échec est ignoré).
    pub fn recevoir(&mut self, issue: Result<String, String>) -> (p: PasResumeChaine)
        requires
            old(self).bien_forme(),
            old(self).etape == EtapeResumeChaine::Transcript || old(self).etape == EtapeResumeChaine::Modele
                || old(self).etape == EtapeResumeChaine::Sortie || old(self).etape == EtapeResumeChaine::Enregistrement,
        ensures
            meme_chaine(*old(self), *final(self)),
            final(self).bien_forme(),
            rendu_chaine(*final(self), p),
            final(self).issues@ == match (old(self).etape, issue) {
                (EtapeResumeChaine::Transcript, Err(_)) => old(self).issues@.push(None),
                (EtapeResumeChaine::Modele, Err(_)) => old(self).issues@.push(None),
                (EtapeResumeChaine::Modele, Ok(c)) => old(self).issues@.push(
                    if rogne(c@).len() == 0 { None } else { Some(nettoye(c@)) },
                ),
                _ => old(self).issues@,
            },
            ({
                let i = old(self).indice as int;
                let video = old(self).videos@[i];
                match old(self).etape {
                    EtapeResumeChaine::Transcript => match issue {
                        Err(_) => chaine_suivante(*old(self), *final(self), p),
                        Ok(t) => {
                            &&& final(self).etape == EtapeResumeChaine::Modele
                            &&& final(self).videos == old(self).videos && final(self).indice == old(self).indice
                            &&& final(self).resultats@ == old(self).resultats@
                            &&& p matches PasResumeChaine::Modele(a)
                            &&& a.local == old(self).local && a.configuration == old(self).configuration
                            &&& a.system@ == Seq::<char>::empty()
                            &&& a.user@ == consigne_video(t@, Some(video.titre@))
                        },
                    },
                    EtapeResumeChaine::Modele => match issue {
                        Err(_) => chaine_suivante(*old(self), *final(self), p),
                        Ok(c) => if rogne(c@).len() == 0 {
                            chaine_suivante(*old(self), *final(self), p)
                        } else {
                            &&& final(self).videos == old(self).videos && final(self).indice == old(self).indice
                            &&& final(self).texte@ == nettoye(c@)
                            &&& final(self).resultats@.len() == old(self).resultats@.len() + 1
                            &&& final(self).resultats@.drop_last() == old(self).resultats@
                            &&& final(self).resultats@.last()@ == "=== "@ + video.titre@ + " ===\n"@ + nettoye(c@)
                            &&& match old(self).dossier_sortie {
                                Some(d) => final(self).etape == EtapeResumeChaine::Sortie && (p matches PasResumeChaine::EcrireSortie(w)
                                    && w.dossier == d && w.fichier@ == fichier_sortie_resume(video.id@) && w.texte@ == nettoye(c@)),
                                None => final(self).etape == EtapeResumeChaine::Enregistrement && (p matches PasResumeChaine::Ecrire(w)
                                    && vue_ecriture_donnees(w) == (dossier_video(Some(old(self).channel_url@), video.id@), FICHIER_CARTE_MENTALE@, nettoye(c@))),
                            }
                        },
                    },
                    EtapeResumeChaine::Sortie => match issue {
                        Err(e) => final(self).etape == EtapeResumeChaine::Fini && (p matches PasResumeChaine::Fini(Err(m)) && m == e),
                        Ok(_) => {
                            &&& final(self).etape == EtapeResumeChaine::Enregistrement
                            &&& final(self).videos == old(self).videos && final(self).indice == old(self).indice
                            &&& final(self).resultats@ == old(self).resultats@
                            &&& p matches PasResumeChaine::Ecrire(w)
                            &&& vue_ecriture_donnees(w) == (dossier_video(Some(old(self).channel_url@), video.id@), FICHIER_CARTE_MENTALE@, old(self).texte@)
                        },
                    },
                    _ => chaine_suivante(*old(self), *final(self), p),
                }
            }),
    {
        let i = self.indice;
        match self.etape {
            EtapeResumeChaine::Transcript => match issue {
                Err(_) => {
                    self.passer();
                    self.suivante()
                },
                Ok(t) => {
                    let (system, user) = construire_messages_resume(t.as_str(), Some(self.videos[i].titre.as_str()), FormatSortie::CarteMentale);
                    self.etape = EtapeResumeChaine::Modele;
                    PasResumeChaine::Modele(AppelModele {
                        local: self.local,
                        configuration: copie_configuration(&self.configuration),
                        system,
                        user,
                    })
                },
            },
            EtapeResumeChaine::Modele => match issue {
                Err(_) => {
                    self.passer();
                    self.suivante()
                },
                Ok(c) => match mettre_en_forme(c.as_str()) {
                    Err(_) => {
                        self.passer();
                        self.suivante()
                    },
                    Ok(texte) => {
                        let bloc = bloc_resume(self.videos[i].titre.as_str(), texte.as_str());
                        let ghost avant = self.resultats@;
                        let ghost issues = self.issues@;
                        self.resultats.push(bloc);
                        self.issues = Ghost(issues.push(Some(texte@)));
                        proof {
                            assert(self.issues@.drop_last() =~= issues);
                            assert(vue_chaines(self.resultats@) =~= vue_chaines(avant).push(bloc@));
                        }
                        self.texte = texte;
                        match &self.dossier_sortie {
                            Some(d) => {
                                let w = EcritureSortie {
                                    dossier: d.clone(),
                                    fichier: nom_fichier_sortie(self.videos[i].id.as_str(), FormatSortie::CarteMentale),
                                    texte: self.texte.clone(),
                                };
                                self.etape = EtapeResumeChaine::Sortie;
                                PasResumeChaine::EcrireSortie(w)
                            },
                            None => {
                                let w = EcritureDonnees {
                                    dossier: repertoire_video(Some(self.channel_url.as_str()), self.videos[i].id.as_str()),
                                    fichier: FICHIER_CARTE_MENTALE.to_owned(),
                                    texte: self.texte.clone(),
                                };
                                self.etape = EtapeResumeChaine::Enregistrement;
                                PasResumeChaine::Ecrire(w)
                            },
                        }
                    },
                },
            },
            EtapeResumeChaine::Sortie => match issue {
                Err(e) => {
                    self.etape = EtapeResumeChaine::Fini;
                    PasResumeChaine::Fini(Err(e))
                },
                Ok(_) => {
                    let w = EcritureDonnees {
                        dossier: repertoire_video(Some(self.channel_url.as_str()), self.videos[i].id.as_str()),
                        fichier: FICHIER_CARTE_MENTALE.to_owned(),
                        texte: self.texte.clone(),
                    };
                    self.etape = EtapeResumeChaine::Enregistrement;
                    PasResumeChaine::Ecrire(w)
                },
            },
            _ => self.suivante(),
        }
    }
}

/// Étape du résumé d'un texte libre.
#[derive(Debug, Clone, Copy, PartialEq, Eq, Structural)]
pub enum EtapeTexteLibre {
    Modele,
    Source,
    Carte,
    Fini,
}

/// Résumé d'un texte collé : appel du modèle, puis `texte_source.txt` et `carte_mentale.md`
/// dans `textes_libres/<id>`.
#[derive(Debug)]
pub struct ResumeTexteLibre {
    pub etape: EtapeTexteLibre,
    /// `textes_libres/<id nettoyé>` sous la racine des données.
    pub dossier: Vec<String>,
    /// Le texte envoyé au modèle (rogné, tronqué).
    pub transcript: String,
    /// La carte mentale, une fois la réponse mise en forme.
    pub texte: String,
}

/// Ce que l'application doit faire ensuite pour le résumé d'un texte libre.
#[derive(Debug)]
pub enum PasTexteLibre {
    Modele(AppelModele),
    Ecrire(EcritureDonnees),
    Fini(Result<String, String>),
}

/// Les erreurs de validation d'un texte libre, dans l'ordre où elles sont vérifiées.
pub open spec fn erreur_texte_libre(id_texte: Seq<char>, texte: Seq<char>, format: Seq<char>) -> Option<Seq<char>> {
    if rogne(id_texte).len() == 0 {
        Some("identifiant texte manquant"@)
    } else if !format_reconnu(format) {
        Some("format inconnu: "@ + format)
    } else if rogne(texte).len() == 0 {
        Some("texte vide"@)
    } else {
        None
    }
}

/// Commence le résumé d'un texte libre : identifiant, format et texte validés, puis le
/// modèle choisi ; le texte rogné et tronqué à 25 000 caractères est envoyé au modèle.
pub fn resumer_texte_libre(id_texte: &str, texte: &str, format: &str, lm: &ConfigurationLmPayload) -> (r: (ResumeTexteLibre, PasTexteLibre))
    ensures
        match erreur_texte_libre(id_texte@, texte@, format@) {
            Some(e) => r.0.etape == EtapeTexteLibre::Fini && (r.1 matches PasTexteLibre::Fini(Err(m)) && m@ == e),
            None => match configuration_de_resume(*lm) {
                Err(e) => r.0.etape == EtapeTexteLibre::Fini && (r.1 matches PasTexteLibre::Fini(Err(m)) && m@ == e),
                Ok((local, conf)) => {
                    &&& r.0.etape == EtapeTexteLibre::Modele
                    &&& vue_chaines(r.0.dossier@) == seq!["textes_libres"@, nom_dossier(rogne(id_texte@))]
                    &&& r.0.transcript@ == debut_de(rogne(texte@), MAX_CARACTERES_TEXTE_LIBRE as nat)
                    &&& r.1 matches PasTexteLibre::Modele(a)
                    &&& a.local == local && vue_config(a.configuration) == conf
                    &&& a.system@ == Seq::<char>::empty()
                    &&& a.user@ == consigne_texte_libre(r.0.transcript@)
                },
            },
        },
{
    let vide = ResumeTexteLibre { etape: EtapeTexteLibre::Fini, dossier: Vec::new(), transcript: String::new(), texte: String::new() };
    let p = match preparer_texte_libre(id_texte, texte, format) {
        Err(e) => return (vide, PasTexteLibre::Fini(Err(e))),
        Ok(p) => p,
    };
    match configuration_resume(lm) {
        Err(e) => (vide, PasTexteLibre::Fini(Err(e))),
        Ok((local, configuration)) => {
            let (system, user) = construire_messages_resume_texte_libre(p.texte.as_str(), p.format);
            let m = ResumeTexteLibre {
                etape: EtapeTexteLibre::Modele,
                dossier: repertoire_texte_libre(p.id.as_str()),
                transcript: p.texte,
                texte: String::new(),
            };
            (m, PasTexteLibre::Modele(AppelModele { local, configuration, system, user }))
        },
    }
}

impl ResumeTexteLibre {
    /// Reçoit l'issue de l'étape en cours. Réponse du modèle : son erreur ou une réponse
    /// blanche termine ; sinon le texte source est écrit, puis la carte mentale, puis la
    /// carte est rendue. L'échec d'une écriture termine avec son erreur.
    pub fn recevoir(&mut self, issue: Result<String, String>) -> (p: PasTexteLibre)
        requires
            old(self).etape != EtapeTexteLibre::Fini,
        ensures
            final(self).dossier == old(self).dossier,
            final(self).transcript == old(self).transcript,
            match issue {
                Err(e) => final(self).etape == EtapeTexteLibre::Fini && (p matches PasTexteLibre::Fini(Err(m)) && m == e),
                Ok(x) => match old(self).etape {
                    EtapeTexteLibre::Modele => if rogne(x@).len() == 0 {
                        final(self).etape == EtapeTexteLibre::Fini && (p matches PasTexteLibre::Fini(Err(m)) && m@ == message_sortie_vide())
                    } else {
                        &&& final(self).etape == EtapeTexteLibre::Source
                        &&& final(self).texte@ == nettoye(x@)
                        &&& p matches PasTexteLibre::Ecrire(w)
                        &&& vue_ecriture_donnees(w) == (vue_chaines(old(self).dossier@), FICHIER_TEXTE_SOURCE@, old(self).transcript@)
                    },
                    EtapeTexteLibre::Source => {
                        &&& final(self).etape == EtapeTexteLibre::Carte
                        &&& final(self).texte == old(self).texte
                        &&& p matches PasTexteLibre::Ecrire(w)
                        &&& vue_ecriture_donnees(w) == (vue_chaines(old(self).dossier@), FICHIER_CARTE_MENTALE@, old(self).texte@)
                    },
                    _ => final(self).etape == EtapeTexteLibre::Fini && (p matches PasTexteLibre::Fini(Ok(t)) && t == old(self).texte),
                },
            },
    {
        match issue {
            Err(e) => {
                self.etape = EtapeTexteLibre::Fini;
                PasTexteLibre::Fini(Err(e))
            },
            Ok(x) => match self.etape {
                EtapeTexteLibre::Modele => match mettre_en_forme(x.as_str()) {
                    Err(m) => {
                        self.etape = EtapeTexteLibre::Fini;
                        PasTexteLibre::Fini(Err(m))
                    },
                    Ok(texte) => {
                        self.texte = texte;
                        self.etape = EtapeTexteLibre::Source;
                        PasTexteLibre::Ecrire(EcritureDonnees {
                            dossier: copie_chaines(&self.dossier),
                            fichier: FICHIER_TEXTE_SOURCE.to_owned(),
                            texte: self.transcript.clone(),
                        })
                    },
                },
                EtapeTexteLibre::Source => {
                    self.etape = EtapeTexteLibre::Carte;
                    PasTexteLibre::Ecrire(EcritureDonnees {
                        dossier: copie_chaines(&self.dossier),
                        fichier: FICHIER_CARTE_MENTALE.to_owned(),
                        texte: self.texte.clone(),
                    })
                },
                _ => {
                    self.etape = EtapeTexteLibre::Fini;
                    PasTexteLibre::Fini(Ok(self.texte.clone()))
                },
            },
        }
    }
}

fn copie_chaines(v: &Vec<String>) -> (r: Vec<String>)
    ensures
        r@ == v@,
{
    let mut r: Vec<String> = Vec::new();
    let mut i: usize = 0;
    while i < v.len()
        invariant
            i <= v@.len(),
            r@ == v@.take(i as int),
        decreases v@.len() - i,
    {
        r.push(v[i].clone());
        proof {
            assert(v@.take(i + 1) =~= v@.take(i as int).push(v@[i as int]));
        }
        i = i + 1;
    }
    assert(v@.take(v@.len() as int) =~= v@);
    r
}

/// Vue d'une ligne d'index : identifiant, titre, URL, réussite, nombre de caractères, fichier.
pub open spec fn vue_entree_index(e: EntreeIndexTranscript) -> (Seq<char>, Seq<char>, Seq<char>, bool, Option<usize>, Option<Seq<char>>) {
    (e.id@, e.titre@, e.url@, e.ok, e.nb_caracteres, vue_option(e.fichier_transcript))
}

/// La ligne d'index attendue pour une vidéo, selon son transcript et le fichier écrit.
pub open spec fn entree_attendue(v: VideoInfo, transcript: Option<Seq<char>>, fichier: Option<Seq<char>>) -> (Seq<char>, Seq<char>, Seq<char>, bool, Option<usize>, Option<Seq<char>>) {
    match transcript {
        Some(t) => (v.id@, v.titre@, v.url@, true, Some(t.len() as usize), fichier),
        None => (v.id@, v.titre@, v.url@, false, None, None),
    }
}

/// `apres` est `avant` suivi d'une ligne de vue `attendue`.
pub open spec fn index_pousse(avant: Seq<EntreeIndexTranscript>, apres: Seq<EntreeIndexTranscript>, attendue: (Seq<char>, Seq<char>, Seq<char>, bool, Option<usize>, Option<Seq<char>>)) -> bool {
    &&& apres.len() == avant.len() + 1
    &&& apres.drop_last() == avant
    &&& vue_entree_index(apres.last()) == attendue
}

/// Étape de l'extraction des transcripts d'une chaîne.
#[derive(Debug, Clone, Copy, PartialEq, Eq, Structural)]
pub enum EtapeExtraction {
    Liste,
    Transcript,
    Ecriture,
    Index,
    Fini,
}

/// Extraction des transcripts des dernières vidéos d'une chaîne : une ligne d'index par
/// vidéo, dans l'ordre de la liste ; `<id>_transcript.txt` et `index.json` sont écrits
/// quand un dossier de sortie est donné.
#[derive(Debug)]
pub struct ExtractionTranscripts {
    pub etape: EtapeExtraction,
    pub channel_url: String,
    pub nb_videos: usize,
    pub dossier_sortie: Option<String>,
    pub max_caracteres: usize,
    pub videos: Vec<VideoInfo>,
    /// La vidéo en cours.
    pub indice: usize,
    pub index: Vec<EntreeIndexTranscript>,
    /// Le transcript de la vidéo en cours, en attente d'écriture.
    pub transcript: String,
}

/// Ce que l'application doit faire ensuite pour l'extraction des transcripts.
#[derive(Debug)]
pub enum PasExtraction {
    Lister { channel_url: String, nb_videos: usize },
    Transcript(DemandeTranscript),
    EcrireSortie(EcritureSortie),
    /// Écrire l'index (les lignes du champ `index`) dans ce fichier du dossier de sortie.
    EcrireIndex { dossier: String, fichier: String },
    Fini(Result<Vec<EntreeIndexTranscript>, String>),
}

impl ExtractionTranscripts {
    /// Une vidéo est en cours aux étapes qui en traitent une ; l'index a une ligne par
    /// vidéo traitée, dans l'ordre de la liste.
    pub open spec fn bien_forme(self) -> bool {
        &&& self.index@.len() <= self.videos@.len()
        &&& (self.etape == EtapeExtraction::Transcript || self.etape == EtapeExtraction::Ecriture)
            ==> self.indice < self.videos@.len() && self.index@.len() == self.indice
        &&& forall|k: int| 0 <= k < self.index@.len() ==> #[trigger] self.index@[k].id == self.videos@[k].id
    }

    /// L'index obtenu : celui rendu si la tâche vient de finir, sinon celui en cours.
    pub open spec fn index_courant(self, p: PasExtraction) -> Seq<EntreeIndexTranscript> {
        match p {
            PasExtraction::Fini(Ok(v)) => v@,
            _ => self.index@,
        }
    }
}

/// L'index rendu suit la liste des vidéos : une ligne par vidéo traitée, dans l'ordre.
pub open spec fn rendu_extraction(m: ExtractionTranscripts, p: PasExtraction) -> bool {
    p matches PasExtraction::Fini(Ok(v)) ==> v@.len() <= m.videos@.len()
        && forall|k: int| 0 <= k < v@.len() ==> #[trigger] v@[k].id == m.videos@[k].id
}

/// Les champs que les étapes de l'extraction ne changent pas.
pub open spec fn meme_extraction(a: ExtractionTranscripts, b: ExtractionTranscripts) -> bool {
    &&& a.channel_url == b.channel_url
    &&& a.nb_videos == b.nb_videos
    &&& a.dossier_sortie == b.dossier_sortie
    &&& a.max_caracteres == b.max_caracteres
}

/// Fin de l'extraction : l'index à écrire s'il y a un dossier de sortie, sinon l'index rendu.
pub open spec fn extraction_fin(b: ExtractionTranscripts, p: PasExtraction) -> bool {
    match b.dossier_sortie {
        Some(d) => b.etape == EtapeExtraction::Index && (p matches PasExtraction::EcrireIndex { dossier, fichier }
            && dossier == d && fichier@ == FICHIER_INDEX@),
        None => b.etape == EtapeExtraction::Fini && p is Fini,
    }
}

/// Passage à la vidéo suivante (son transcript), ou la fin.
pub open spec fn extraction_suivante(a: ExtractionTranscripts, b: ExtractionTranscripts, p: PasExtraction) -> bool {
    &&& b.videos == a.videos
    &&& b.indice == a.indice + 1
    &&& if a.indice + 1 < a.videos@.len() {
        b.etape == EtapeExtraction::Transcript && (p matches PasExtraction::Transcript(d)
            && demande_video_chaine(d, a.channel_url@, a.videos@[a.indice + 1], a.max_caracteres))
    } else {
        extraction_fin(b, p) && b.index_courant(p).len() == a.videos@.len()
    }
}

/// Commence l'extraction des transcripts d'une chaîne par la liste de ses dernières vidéos.
pub fn extraire_transcripts_chaine(channel_url: &str, nb_videos: usize, dossier_sortie: Option<String>, max_caracteres: usize) -> (r: (ExtractionTranscripts, PasExtraction))
    ensures
        r.0.etape == EtapeExtraction::Liste,
        r.0.channel_url@ == channel_url@,
        r.0.nb_videos == nb_videos,
        r.0.dossier_sortie == dossier_sortie,
        r.0.max_caracteres == max_caracteres,
        r.0.index@.len() == 0,
        r.0.bien_forme(),
        r.1 matches PasExtraction::Lister { channel_url: c, nb_videos: n } && c@ == channel_url@ && n == nb_videos,
{
    let m = ExtractionTranscripts {
        etape: EtapeExtraction::Liste,
        channel_url: channel_url.to_owned(),
        nb_videos,
        dossier_sortie,
        max_caracteres,
        videos: Vec::new(),
        indice: 0,
        index: Vec::new(),
        transcript: String::new(),
    };
    (m, PasExtraction::Lister { channel_url: channel_url.to_owned(), nb_videos })
}

impl ExtractionTranscripts {
    fn demande(&self, i: usize) -> (d: DemandeTranscript)
        requires
            i < self.videos@.len(),
        ensures
            demande_video_chaine(d, self.channel_url@, self.videos@[i as int], self.max_caracteres),
    {
        DemandeTranscript {
            channel_url: Some(self.channel_url.clone()),
            id_video: self.videos[i].id.clone(),
            url: self.videos[i].url.clone(),
            max_caracteres: self.max_caracteres,
        }
    }

    fn finir(&mut self) -> (p: PasExtraction)
        requires
            old(self).index@.len() <= old(self).videos@.len(),
            forall|k: int| 0 <= k < old(self).index@.len() ==> #[trigger] old(self).index@[k].id == old(self).videos@[k].id,
        ensures
            meme_extraction(*old(self), *final(self)),
            final(self).videos == old(self).videos,
            final(self).indice == old(self).indice,
            final(self).bien_forme(),
            rendu_extraction(*final(self), p),
            extraction_fin(*final(self), p),
            final(self).index_courant(p) == old(self).index@,
    {
        match &self.dossier_sortie {
            Some(d) => {
                self.etape = EtapeExtraction::Index;
                PasExtraction::EcrireIndex { dossier: d.clone(), fichier: FICHIER_INDEX.to_owned() }
            },
            None => {
                let mut v: Vec<EntreeIndexTranscript> = Vec::new();
                std::mem::swap(&mut v, &mut self.index);
                self.etape = EtapeExtraction::Fini;
                PasExtraction::Fini(Ok(v))
            },
        }
    }

    fn suivante(&mut self) -> (p: PasExtraction)
        requires
            old(self).indice < old(self).videos@.len(),
            old(self).index@.len() == old(self).indice + 1,
            forall|k: int| 0 <= k < old(self).index@.len() ==> #[trigger] old(self).index@[k].id == old(self).videos@[k].id,
        ensures
            rendu_extraction(*final(self), p),
            meme_extraction(*old(self), *final(self)),
            final(self).bien_forme(),
            extraction_suivante(*old(self), *final(self), p),
            final(self).index_courant(p) == old(self).index@,
    {
        let n = self.videos.len();
        self.indice = self.indice + 1;
        if self.indice < n {
            self.etape = EtapeExtraction::Transcript;
            PasExtraction::Transcript(self.demande(self.indice))
        } else {
            self.finir()
        }
    }

    /// Reçoit la liste des vidéos : son erreur termine ; sinon le transcript de la première
    /// vidéo est demandé (ou l'extraction finit aussitôt si la liste est vide).
    pub fn recevoir_videos(&mut self, liste: Result<Vec<VideoInfo>, String>) -> (p: PasExtraction)
        requires
            old(self).etape == EtapeExtraction::Liste,
            old(self).index@.len() == 0,
        ensures
            rendu_extraction(*final(self), p),
            meme_extraction(*old(self), *final(self)),
            final(self).bien_forme(),
            match liste {
                Err(e) => final(self).etape == EtapeExtraction::Fini && (p matches PasExtraction::Fini(Err(m)) && m == e),
                Ok(v) => {
                    &&& final(self).videos@ == v@
                    &&& final(self).indice == 0
                    &&& final(self).index_courant(p) == old(self).index@
                    &&& if v@.len() == 0 {
                        extraction_fin(*final(self), p)
                    } else {
                        final(self).etape == EtapeExtraction::Transcript && (p matches PasExtraction::Transcript(d)
                            && demande_video_chaine(d, old(self).channel_url@, v@[0], old(self).max_caracteres))
                    }
                },
            },
    {
        match liste {
            Err(e) => {
                self.etape = EtapeExtraction::Fini;
                PasExtraction::Fini(Err(e))
            },
            Ok(v) => {
                self.videos = v;
                self.indice = 0;
                if self.videos.len() == 0 {
                    self.finir()
                } else {
                    self.etape = EtapeExtraction::Transcript;
                    PasExtraction::Transcript(self.demande(0))
                }
            },
        }
    }

    /// Annulation demandée avant la vidéo en cours : l'index obtenu est écrit (s'il y a un
    /// dossier de sortie) puis rendu.
    pub fn annuler(&mut self) -> (p: PasExtraction)
        requires
            old(self).bien_forme(),
            old(self).etape == EtapeExtraction::Transcript,
        ensures
            rendu_extraction(*final(self), p),
            meme_extraction(*old(self), *final(self)),
            final(self).bien_forme(),
            extraction_fin(*final(self), p),
            final(self).index_courant(p) == old(self).index@,
    {
        self.finir()
    }

    /// Reçoit l'issue de l'étape en cours. Transcript : en échec, une ligne d'index sans
    /// transcript ; réussi, son fichier est écrit s'il y a un dossier de sortie, puis la
    /// ligne ajoutée. L'échec d'une écriture termine avec son erreur. Après l'index écrit,
    /// l'index est rendu.
    pub fn recevoir(&mut self, issue: Result<String, String>) -> (p: PasExtraction)
        requires
            old(self).bien_forme(),
            old(self).etape == EtapeExtraction::Transcript || old(self).etape == EtapeExtraction::Ecriture
                || old(self).etape == EtapeExtraction::Index,
        ensures
            rendu_extraction(*final(self), p),
            meme_extraction(*old(self), *final(self)),
            final(self).bien_forme(),
            ({
                let i = old(self).indice as int;
                let video = old(self).videos@[i];
                match old(self).etape {
                    EtapeExtraction::Transcript => match issue {
                        Err(_) => extraction_suivante(*old(self), *final(self), p)
                            && index_pousse(old(self).index@, final(self).index_courant(p), entree_attendue(video, None, None)),
                        Ok(t) => match old(self).dossier_sortie {
                            Some(d) => {
                                &&& final(self).etape == EtapeExtraction::Ecriture
                                &&& final(self).videos == old(self).videos && final(self).indice == old(self).indice
                                &&& final(self).index@ == old(self).index@
                                &&& final(self).transcript == t
                                &&& p matches PasExtraction::EcrireSortie(w)
                                &&& w.dossier == d && w.fichier@ == video.id@ + "_transcript.txt"@ && w.texte == t
                            },
                            None => extraction_suivante(*old(self), *final(self), p)
                                && index_pousse(old(self).index@, final(self).index_courant(p), entree_attendue(video, Some(t@), None)),
                        },
                    },
                    EtapeExtraction::Ecriture => match issue {
                        Err(e) => final(self).etape == EtapeExtraction::Fini && (p matches PasExtraction::Fini(Err(m)) && m == e),
                        Ok(_) => extraction_suivante(*old(self), *final(self), p)
                            && index_pousse(old(self).index@, final(self).index_courant(p),
                                entree_attendue(video, Some(old(self).transcript@), Some(video.id@ + "_transcript.txt"@))),
                    },
                    _ => match issue {
                        Err(e) => final(self).etape == EtapeExtraction::Fini && (p matches PasExtraction::Fini(Err(m)) && m == e),
                        Ok(_) => final(self).etape == EtapeExtraction::Fini && (p matches PasExtraction::Fini(Ok(v)) && v@ == old(self).index@),
                    },
                }
            }),
    {
        let i = self.indice;
        match self.etape {
            EtapeExtraction::Transcript => match issue {
                Err(_) => {
                    let e = entree_index(&self.videos[i], None, None);
                    let ghost avant = self.index@;
                    self.index.push(e);
                    assert(self.index@.drop_last() =~= avant);
                    self.suivante()
                },
                Ok(t) => match &self.dossier_sortie {
                    Some(d) => {
                        let w = EcritureSortie { dossier: d.clone(), fichier: nom_fichier_transcript(self.videos[i].id.as_str()), texte: t.clone() };
                        self.transcript = t;
                        self.etape = EtapeExtraction::Ecriture;
                        PasExtraction::EcrireSortie(w)
                    },
                    None => {
                        let e = entree_index(&self.videos[i], Some(t.as_str()), None);
                        let ghost avant = self.index@;
                        self.index.push(e);
                        assert(self.index@.drop_last() =~= avant);
                        self.suivante()
                    },
                },
            },
            EtapeExtraction::Ecriture => match issue {
                Err(e) => {
                    self.etape = EtapeExtraction::Fini;
                    PasExtraction::Fini(Err(e))
                },
                Ok(_) => {
                    let fichier = nom_fichier_transcript(self.videos[i].id.as_str());
                    let e = entree_index(&self.videos[i], Some(self.transcript.as_str()), Some(fichier));
                    let ghost avant = self.index@;
                    self.index.push(e);
                    assert(self.index@.drop_last() =~= avant);
                    self.suivante()
                },
            },
            _ => match issue {
                Err(e) => {
                    self.etape = EtapeExtraction::Fini;
                    PasExtraction::Fini(Err(e))
                },
                Ok(_) => {
                    let mut v: Vec<EntreeIndexTranscript> = Vec::new();
                    std::mem::swap(&mut v, &mut self.index);
                    self.etape = EtapeExtraction::Fini;
                    PasExtraction::Fini(Ok(v))
                },
            },
        }
    }
}

/// Nombre de vidéos listées pour choisir celle d'un test complet sur une chaîne.
pub const NB_VIDEOS_TEST: usize = 10;

/// Étape d'un test complet.
#[derive(Debug, Clone, Copy, PartialEq, Eq, Structural)]
pub enum EtapeTest {
    Liste,
    Transcript,
    Modele,
    Fini,
}

/// Test complet sur une vidéo (la plus récente d'une chaîne, ou une URL) : transcript,
/// puis, si des réglages du modèle sont donnés, un résumé validé ; rend le rapport.
#[derive(Debug)]
pub struct TestComplet {
    pub etape: EtapeTest,
    pub lm: Option<ConfigurationLmPayload>,
    /// Titre de la vidéo testée.
    pub titre: String,
}

/// Ce que l'application doit faire ensuite pour un test complet.
#[derive(Debug)]
pub enum PasTest {
    Lister { channel_url: String, nb_videos: usize },
    /// Extraire le transcript (yt-dlp, sans cache) de cette URL, limité à tant de caractères.
    Transcript { url: String, max_caracteres: usize },
    Modele(AppelModele),
    Fini(Result<String, String>),
}

/// Commence un test complet : exactement une des deux URL doit être donnée ; une chaîne
/// est d'abord listée, une vidéo est testée sous le titre « Vidéo YouTube ».
pub fn lancer_test_suite(channel_url: Option<String>, video_url: Option<String>, lm: Option<ConfigurationLmPayload>) -> (r: (TestComplet, PasTest))
    ensures
        r.0.lm == lm,
        match (channel_url, video_url) {
            (Some(c), None) => r.0.etape == EtapeTest::Liste
                && (r.1 matches PasTest::Lister { channel_url: u, nb_videos: n } && u == c && n == NB_VIDEOS_TEST),
            (None, Some(v)) => r.0.etape == EtapeTest::Transcript && r.0.titre@ == TITRE_VIDEO_SEULE@
                && (r.1 matches PasTest::Transcript { url: u, max_caracteres: n } && u == v && n == MAX_TRANSCRIPT_RESUME),
            (Some(_), Some(_)) => r.0.etape == EtapeTest::Fini
                && (r.1 matches PasTest::Fini(Err(e)) && e@ == "Fournis seulement channel_url ou video_url."@),
            (None, None) => r.0.etape == EtapeTest::Fini
                && (r.1 matches PasTest::Fini(Err(e)) && e@ == "Fournis channel_url ou video_url."@),
        },
{
    match choisir_source_test(channel_url, video_url) {
        Err(e) => (TestComplet { etape: EtapeTest::Fini, lm, titre: String::new() }, PasTest::Fini(Err(e))),
        Ok((source, SourceTest::Chaine)) => (
            TestComplet { etape: EtapeTest::Liste, lm, titre: String::new() },
            PasTest::Lister { channel_url: source, nb_videos: NB_VIDEOS_TEST },
        ),
        Ok((source, SourceTest::Video)) => (
            TestComplet { etape: EtapeTest::Transcript, lm, titre: TITRE_VIDEO_SEULE.to_owned() },
            PasTest::Transcript { url: source, max_caracteres: MAX_TRANSCRIPT_RESUME },
        ),
    }
}

impl TestComplet {
    /// Reçoit les vidéos de la chaîne : la première est testée ; une erreur, ou une chaîne
    /// sans vidéo, termine.
    pub fn recevoir_videos(&mut self, liste: Result<Vec<VideoInfo>, String>) -> (p: PasTest)
        requires
            old(self).etape == EtapeTest::Liste,
        ensures
            final(self).lm == old(self).lm,
            match liste {
                Err(e) => final(self).etape == EtapeTest::Fini && (p matches PasTest::Fini(Err(m)) && m == e),
                Ok(v) => if v@.len() == 0 {
                    final(self).etape == EtapeTest::Fini && (p matches PasTest::Fini(Err(m)) && m@ == "Chaîne sans vidéo"@)
                } else {
                    &&& final(self).etape == EtapeTest::Transcript
                    &&& final(self).titre == v@[0].titre
                    &&& p matches PasTest::Transcript { url: u, max_caracteres: n }
                    &&& u == v@[0].url && n == MAX_TRANSCRIPT_RESUME
                },
            },
    {
        match liste {
            Err(e) => {
                self.etape = EtapeTest::Fini;
                PasTest::Fini(Err(e))
            },
            Ok(v) => {
                if v.len() == 0 {
                    self.etape = EtapeTest::Fini;
                    PasTest::Fini(Err("Chaîne sans vidéo".to_owned()))
                } else {
                    self.titre = v[0].titre.clone();
                    self.etape = EtapeTest::Transcript;
                    PasTest::Transcript { url: v[0].url.clone(), max_caracteres: MAX_TRANSCRIPT_RESUME }
                }
            },
        }
    }

    /// Reçoit le transcript : une erreur, ou un transcript blanc, termine en erreur ; sans
    /// réglages du modèle, le rapport dit que l'IA est ignorée ; sinon le serveur configuré
    /// par les réglages (erreur s'ils sont incomplets) est appelé.
    pub fn recevoir_transcript(&mut self, t: Result<String, String>) -> (p: PasTest)
        requires
            old(self).etape == EtapeTest::Transcript,
        ensures
            final(self).lm == old(self).lm,
            final(self).titre == old(self).titre,
            match t {
                Err(e) => final(self).etape == EtapeTest::Fini && (p matches PasTest::Fini(Err(m)) && m == e),
                Ok(tr) => if rogne(tr@).len() == 0 {
                    final(self).etape == EtapeTest::Fini && (p matches PasTest::Fini(Err(m)) && m@ == "Transcript vide."@)
                } else {
                    match old(self).lm {
                        None => final(self).etape == EtapeTest::Fini && (p matches PasTest::Fini(Ok(rapport))
                            && rapport@ == ligne_rapport_spec("CarteMentale"@, IssueTest::IaIgnoree)),
                        Some(l) => match config_depuis_payload(l, MAX_TRANSCRIPT_RESUME, MAX_REPONSE_RESUME) {
                            Err(e) => final(self).etape == EtapeTest::Fini && (p matches PasTest::Fini(Err(m)) && m@ == e),
                            Ok(conf) => {
                                &&& final(self).etape == EtapeTest::Modele
                                &&& p matches PasTest::Modele(a)
                                &&& !a.local && vue_config(a.configuration) == conf
                                &&& a.system@ == Seq::<char>::empty()
                                &&& a.user@ == consigne_video(tr@, Some(old(self).titre@))
                            },
                        },
                    }
                },
            },
    {
        match t {
            Err(e) => {
                self.etape = EtapeTest::Fini;
                PasTest::Fini(Err(e))
            },
            Ok(tr) => {
                let c = caracteres(tr.as_str());
                let r = rogner(c.as_slice());
                if r.len() == 0 {
                    self.etape = EtapeTest::Fini;
                    return PasTest::Fini(Err("Transcript vide.".to_owned()));
                }
                self.etape = EtapeTest::Fini;
                match &self.lm {
                    None => {
                        let label = libelle_format(FormatSortie::CarteMentale);
                        PasTest::Fini(Ok(ligne_rapport(label.as_str(), &IssueTest::IaIgnoree)))
                    },
                    Some(l) => match configuration_ia_depuis_payload(l, MAX_TRANSCRIPT_RESUME, MAX_REPONSE_RESUME) {
                        Err(e) => PasTest::Fini(Err(e)),
                        Ok(configuration) => {
                            let (system, user) = construire_messages_resume(tr.as_str(), Some(self.titre.as_str()), FormatSortie::CarteMentale);
                            self.etape = EtapeTest::Modele;
                            PasTest::Modele(AppelModele { local: false, configuration, system, user })
                        },
                    },
                }
            },
        }
    }

    /// Reçoit la réponse du modèle et rend le rapport : erreur de l'IA, sortie invalide
    /// (réponse blanche) ou format validé.
    pub fn recevoir_reponse(&mut self, c: Result<String, String>) -> (p: PasTest)
        requires
            old(self).etape == EtapeTest::Modele,
        ensures
            final(self).etape == EtapeTest::Fini,
            p matches PasTest::Fini(Ok(rapport)) && rapport@ == match c {
                Err(e) => "CarteMentale"@ + ": Erreur IA: "@ + e@ + "\n"@,
                Ok(x) => if rogne(x@).len() == 0 {
                    "CarteMentale"@ + ": Sortie invalide: "@ + message_sortie_vide() + "\n"@
                } else {
                    "CarteMentale"@ + ": OK\n"@
                },
            },
    {
        self.etape = EtapeTest::Fini;
        let label = libelle_format(FormatSortie::CarteMentale);
        let issue = match c {
            Err(e) => IssueTest::ErreurIa(e),
            Ok(x) => match mettre_en_forme(x.as_str()) {
                Ok(_) => IssueTest::Valide,
                Err(m) => IssueTest::SortieInvalide(m),
            },
        };
        PasTest::Fini(Ok(ligne_rapport(label.as_str(), &issue)))
    }
}

} // verus!
