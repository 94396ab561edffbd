//! Lancement de yt-dlp : arguments effectifs, commande affichée, textes d'erreur et
//! conclusions tirées de ce que yt-dlp a rendu.

use vstd::prelude::*;
use crate::texte::{
    caracteres, chaine_de, contient, contient_motif, debut_de, decimal, decouper, ecrire_decimal,
    ecrire_decimal_u64, etendre, lignes, memes, rogne,
    rogner, tronquer,
};
use crate::sous_titres::{
    codes_a_tester_spec, plan_extraction, plan_extraction_transcript, vue_tentative, FormatSousTitres,
    TentativeSousTitres,
};
use crate::transcript::{meilleur_transcript, selectionner_meilleur_transcript};
use crate::youtube::{
    DemandeYtDlp, EntreeDump, ErreurYoutube, ModeListe, VideoInfo, selectionner_entrees_depuis_dump,
    videos_de_dump, vue_chaines, vue_option, vue_video, vue_videos,
};

verus! {

/// Arguments passés à yt-dlp : `--extractor-args <valeur rognée>` devant les arguments
/// donnés quand une valeur non blanche est fournie et que l'absence d'arguments
/// d'extracteur n'est pas exigée (`"1"`).
pub open spec fn arguments_effectifs(
    sans_extracteur: Option<Seq<char>>,
    extracteur: Option<Seq<char>>,
    args: Seq<Seq<char>>,
) -> Seq<Seq<char>> {
    let prefixe = if sans_extracteur != Some("1"@) {
        match extracteur {
            Some(s) => if rogne(s).len() > 0 {
                seq!["--extractor-args"@, rogne(s)]
            } else {
                seq![]
            },
            None => seq![],
        }
    } else {
        seq![]
    };
    prefixe + args
}

/// Les arguments effectifs de yt-dlp, à partir des valeurs lues dans l'environnement
/// (`YT_DLP_NO_EXTRACTOR_ARGS`, `YT_DLP_EXTRACTOR_ARGS_YOUTUBE`).
pub fn arguments_yt_dlp_effectifs(
    sans_extracteur: Option<String>,
    extracteur: Option<String>,
    args: Vec<String>,
) -> (r: Vec<String>)
    ensures
        vue_chaines(r@) == arguments_effectifs(
            vue_option(sans_extracteur),
            vue_option(extracteur),
            vue_chaines(args@),
        ),
{
    let mut r: Vec<String> = Vec::new();
    let un = caracteres("1");
    let force = match &sans_extracteur {
        Some(s) => {
            let c = caracteres(s.as_str());
            memes(c.as_slice(), un.as_slice())
        },
        None => false,
    };
    if !force {
        match &extracteur {
            Some(s) => {
                let c = caracteres(s.as_str());
                let t = rogner(c.as_slice());
                if t.len() > 0 {
                    r.push("--extractor-args".to_owned());
                    r.push(chaine_de(t.as_slice()));
                }
            },
            None => {},
        }
    }
    let ghost prefixe = r@;
    let mut reste = args;
    r.append(&mut reste);
    assert(vue_chaines(r@) =~= vue_chaines(prefixe) + vue_chaines(args@));
    r
}

/// Comment yt-dlp est lancé : un exécutable, ou un interpréteur Python avec `-m yt_dlp`.
/// Les chemins sont donnés tels qu'affichés.
#[derive(Debug, Clone)]
pub enum LancementYtDlp {
    Binaire(String),
    ModulePython { interpreteur: String },
}

/// Le début de la commande affichée.
pub open spec fn prefixe_commande(l: LancementYtDlp) -> Seq<char> {
    match l {
        LancementYtDlp::Binaire(p) => p@,
        LancementYtDlp::ModulePython { interpreteur } => interpreteur@ + " -m yt_dlp"@,
    }
}

/// Un argument affiché : entre guillemets s'il contient une espace.
pub open spec fn argument_affiche(a: Seq<char>) -> Seq<char> {
    if a.contains(' ') {
        seq!['"'] + a + seq!['"']
    } else {
        a
    }
}

/// Les arguments affichés, chacun précédé d'une espace.
pub open spec fn arguments_affiches(args: Seq<Seq<char>>) -> Seq<char>
    decreases args.len(),
{
    if args.len() == 0 {
        seq![]
    } else {
        arguments_affiches(args.drop_last()) + seq![' '] + argument_affiche(args.last())
    }
}

fn contient_car(s: &[char], c: char) -> (r: bool)
    ensures
        r == s@.contains(c),
{
    let mut i: usize = 0;
    while i < s.len()
        invariant
            i <= s@.len(),
            forall|j: int| 0 <= j < i ==> s@[j] != c,
        decreases s@.len() - i,
    {
        if s[i] == c {
            assert(s@[i as int] == c);
            return true;
        }
        i = i + 1;
    }
    false
}

impl LancementYtDlp {
    /// Le début de la commande affichée.
    pub fn prefixe_debug(&self) -> (r: String)
        ensures
            r@ == prefixe_commande(*self),
    {
        match self {
            LancementYtDlp::Binaire(p) => p.clone(),
            LancementYtDlp::ModulePython { interpreteur } => {
                let mut v = caracteres(interpreteur.as_str());
                let suite = caracteres(" -m yt_dlp");
                etendre(&mut v, suite.as_slice());
                chaine_de(v.as_slice())
            },
        }
    }

    /// La commande affichée dans les messages d'erreur.
    pub fn construire_commande_debug(&self, args: &Vec<String>) -> (r: String)
        ensures
            r@ == prefixe_commande(*self) + arguments_affiches(vue_chaines(args@)),
    {
        let p = self.prefixe_debug();
        let mut v = caracteres(p.as_str());
        let mut i: usize = 0;
        while i < args.len()
            invariant
                i <= args@.len(),
                v@ == prefixe_commande(*self) + arguments_affiches(vue_chaines(args@).take(i as int)),
            decreases args@.len() - i,
        {
            let ghost avant = v@;
            let a = caracteres(args[i].as_str());
            v.push(' ');
            if contient_car(a.as_slice(), ' ') {
                v.push('"');
                etendre(&mut v, a.as_slice());
                v.push('"');
            } else {
                etendre(&mut v, a.as_slice());
            }
            proof {
                let t = vue_chaines(args@).take(i + 1);
                assert(t.drop_last() =~= vue_chaines(args@).take(i as int));
                assert(t.last() == args@[i as int]@);
                assert(v@ =~= avant + seq![' '] + argument_affiche(args@[i as int]@));
            }
            i = i + 1;
        }
        assert(vue_chaines(args@).take(args@.len() as int) =~= vue_chaines(args@));
        chaine_de(v.as_slice())
    }
}


/// Le texte d'une erreur de yt-dlp.
pub open spec fn texte_erreur_youtube(e: ErreurYoutube) -> Seq<char> {
    match e {
        ErreurYoutube::YtDlpIntrouvable { message } => "binaire externe `yt-dlp` introuvable ou inexécutable: "@
            + message@,
        ErreurYoutube::EchecYtDlp { message, commande, stderr_tronque } => "yt-dlp a échoué: "@ + message@
            + "\nCommande: "@ + commande@ + "\nStderr: "@ + stderr_tronque@,
        ErreurYoutube::ListeVide => "impossible d’extraire la liste de vidéos (yt-dlp a renvoyé zéro entrée)"@,
        ErreurYoutube::TranscriptIntrouvable(m) => m@,
    }
}

impl ErreurYoutube {
    /// Le texte de l'erreur.
    pub fn message(&self) -> (r: String)
        ensures
            r@ == texte_erreur_youtube(*self),
    {
        match self {
            ErreurYoutube::YtDlpIntrouvable { message } => {
                let mut v = caracteres("binaire externe `yt-dlp` introuvable ou inexécutable: ");
                let m = caracteres(message.as_str());
                etendre(&mut v, m.as_slice());
                chaine_de(v.as_slice())
            },
            ErreurYoutube::EchecYtDlp { message, commande, stderr_tronque } => {
                let mut v = caracteres("yt-dlp a échoué: ");
                let m = caracteres(message.as_str());
                etendre(&mut v, m.as_slice());
                let a = caracteres("\nCommande: ");
                etendre(&mut v, a.as_slice());
                let c = caracteres(commande.as_str());
                etendre(&mut v, c.as_slice());
                let b = caracteres("\nStderr: ");
                etendre(&mut v, b.as_slice());
                let s = caracteres(stderr_tronque.as_str());
                etendre(&mut v, s.as_slice());
                chaine_de(v.as_slice())
            },
            ErreurYoutube::ListeVide => "impossible d’extraire la liste de vidéos (yt-dlp a renvoyé zéro entrée)".to_owned(),
            ErreurYoutube::TranscriptIntrouvable(m) => m.clone(),
        }
    }
}

/// Nombre de caractères de la sortie d'erreur gardés dans un message.
pub const MAX_STDERR: usize = 1500;

/// `EchecYtDlp` avec le message, la commande, et le début de la sortie d'erreur.
pub open spec fn est_echec(e: ErreurYoutube, message: Seq<char>, commande: Seq<char>, stderr: Seq<char>) -> bool {
    &&& e matches ErreurYoutube::EchecYtDlp { message: m, commande: c, stderr_tronque: s }
    &&& m@ == message
    &&& c@ == commande
    &&& s@ == debut_de(stderr, MAX_STDERR as nat)
}

/// Un échec de yt-dlp : le message, la commande, et les 1500 premiers caractères de la
/// sortie d'erreur.
pub fn echec_yt_dlp(message: &str, commande: &str, stderr: &str) -> (r: ErreurYoutube)
    ensures
        est_echec(r, message@, commande@, stderr@),
{
    ErreurYoutube::EchecYtDlp {
        message: message.to_owned(),
        commande: commande.to_owned(),
        stderr_tronque: tronquer(stderr, MAX_STDERR),
    }
}

/// L'erreur rendue quand yt-dlp dépasse le délai accordé (en secondes).
pub fn erreur_delai_depasse(secondes: u64, commande: &str, stderr: &str) -> (r: ErreurYoutube)
    ensures
        est_echec(r, "yt-dlp a dépassé le délai maximal ("@ + decimal(secondes as nat) + "s)"@, commande@, stderr@),
{
    let mut v = caracteres("yt-dlp a dépassé le délai maximal (");
    ecrire_decimal_u64(secondes, &mut v);
    let fin = caracteres("s)");
    etendre(&mut v, fin.as_slice());
    let m = chaine_de(v.as_slice());
    echec_yt_dlp(m.as_str(), commande, stderr)
}

/// Les lignes rognées qui commencent par `{`, dans l'ordre.
pub open spec fn objets_json(ls: Seq<Seq<char>>) -> Seq<Seq<char>>
    decreases ls.len(),
{
    if ls.len() == 0 {
        seq![]
    } else {
        let p = objets_json(ls.drop_last());
        let t = rogne(ls.last());
        if t.len() > 0 && t[0] == '{' {
            p.push(t)
        } else {
            p
        }
    }
}

/// Les lignes de la sortie de yt-dlp qui peuvent porter un objet JSON : rognées, et
/// commençant par `{`.
pub fn lignes_json(flux: &str) -> (r: Vec<String>)
    ensures
        vue_chaines(r@) == objets_json(lignes(flux@)),
{
    let c = caracteres(flux);
    let ls = decouper(c.as_slice(), '\n');
    let ghost lv = ls.deep_view();
    let mut r: Vec<String> = Vec::new();
    let mut i: usize = 0;
    while i < ls.len()
        invariant
            i <= ls@.len(),
            lv == ls.deep_view(),
            lv == lignes(flux@),
            vue_chaines(r@) == objets_json(lv.take(i as int)),
        decreases ls@.len() - i,
    {
        let t = rogner(ls[i].as_slice());
        proof {
            let u = lv.take(i + 1);
            assert(u.drop_last() =~= lv.take(i as int));
            assert(u.last() =~= ls[i as int]@);
        }
        if t.len() > 0 && t[0] == '{' {
            let ghost avant = r@;
            r.push(chaine_de(t.as_slice()));
            assert(vue_chaines(r@) =~= vue_chaines(avant).push(t@));
        }
        i = i + 1;
    }
    assert(lv.take(ls@.len() as int) =~= lv);
    r
}


/// Ce que rend une exécution `--dump-json` : les entrées lues si yt-dlp en a donné ; sinon
/// un échec quand yt-dlp a échoué, avec sa sortie d'erreur ; sinon aucune entrée.
pub fn conclure_sortie_ligne_par_ligne(
    entrees: Vec<EntreeDump>,
    succes: bool,
    stderr: &str,
    commande: &str,
) -> (r: Result<Vec<EntreeDump>, ErreurYoutube>)
    ensures
        entrees@.len() > 0 ==> (r matches Ok(v) && v@ == entrees@),
        entrees@.len() == 0 && succes ==> (r matches Ok(v) && v@.len() == 0),
        entrees@.len() == 0 && !succes ==> (r matches Err(e) && est_echec(
            e,
            "échec d’exécution de yt-dlp"@,
            commande@,
            stderr@,
        )),
{
    if entrees.len() > 0 {
        return Ok(entrees);
    }
    if !succes {
        return Err(echec_yt_dlp("échec d’exécution de yt-dlp", commande, stderr));
    }
    Ok(Vec::new())
}

/// L'erreur d'une exécution `-J` dont aucune sortie n'a pu être lue : l'échec de yt-dlp
/// s'il a échoué, sinon une lecture JSON invalide.
pub fn echec_sortie_unique(succes: bool, stderr: &str, commande: &str) -> (r: ErreurYoutube)
    ensures
        !succes ==> est_echec(r, "échec d’exécution de yt-dlp"@, commande@, stderr@),
        succes ==> est_echec(r, "parsing JSON de liste invalide"@, commande@, seq![]),
{
    if !succes {
        echec_yt_dlp("échec d’exécution de yt-dlp", commande, stderr)
    } else {
        ErreurYoutube::EchecYtDlp {
            message: "parsing JSON de liste invalide".to_owned(),
            commande: commande.to_owned(),
            stderr_tronque: String::new(),
        }
    }
}

/// Une suite de chiffres décimaux ASCII.
pub open spec fn que_des_chiffres(d: Seq<char>) -> bool {
    forall|i: int| 0 <= i < d.len() ==> '0' <= #[trigger] d[i] && d[i] <= '9'
}

/// La valeur d'une suite de chiffres décimaux.
pub open spec fn valeur_chiffres(d: Seq<char>) -> nat
    decreases d.len(),
{
    if d.len() == 0 {
        0
    } else {
        valeur_chiffres(d.drop_last()) * 10 + ((d.last() as nat) - 48) as nat
    }
}

/// `s.parse::<u64>()` : un `+` facultatif puis au moins un chiffre, d'une valeur qui tient
/// dans un `u64`.
pub open spec fn entier_u64(s: Seq<char>) -> Option<nat> {
    let d = if s.len() > 0 && s[0] == '+' {
        s.skip(1)
    } else {
        s
    };
    if d.len() > 0 && que_des_chiffres(d) && valeur_chiffres(d) <= u64::MAX {
        Some(valeur_chiffres(d))
    } else {
        None
    }
}

/// Pause entre sous-titres demandée à yt-dlp (`--sleep-subtitles`), lue dans
/// `YT_DLP_SLEEP_SOUS_TITRES_SEC` : un entier de 0 à 30, sinon 0.
pub open spec fn delai_sous_titres_spec(valeur: Option<Seq<char>>) -> nat {
    match valeur {
        Some(s) => match entier_u64(s) {
            Some(n) => if n <= 30 {
                n
            } else {
                0
            },
            None => 0,
        },
        None => 0,
    }
}

/// La pause entre sous-titres ne dépasse jamais 30 secondes.
pub proof fn loi_delai_borne(valeur: Option<Seq<char>>)
    ensures
        delai_sous_titres_spec(valeur) <= 30,
{
}

/// La pause entre sous-titres (en secondes) pour la valeur lue dans l'environnement.
pub fn delai_sleep_sous_titres_secondes(valeur: Option<String>) -> (r: u64)
    ensures
        r == delai_sous_titres_spec(vue_option(valeur)),
{
    let s = match &valeur {
        Some(s) => s,
        None => return 0,
    };
    let c = caracteres(s.as_str());
    let debut: usize = if c.len() > 0 && c[0] == '+' { 1 } else { 0 };
    let ghost d = if c@.len() > 0 && c@[0] == '+' { c@.skip(1) } else { c@ };
    assert(d =~= c@.skip(debut as int));
    if debut >= c.len() {
        return 0;
    }
    // Valeur du préfixe lu, plafonnée à 31.
    let mut v: u64 = 0;
    let mut i: usize = debut;
    while i < c.len()
        invariant
            debut <= i <= c@.len(),
            d =~= c@.skip(debut as int),
            vue_option(valeur) == Some(c@),
            d == (if c@.len() > 0 && c@[0] == '+' { c@.skip(1) } else { c@ }),
            v <= 31,
            que_des_chiffres(d.take(i - debut)),
            v == if valeur_chiffres(d.take(i - debut)) <= 30 { valeur_chiffres(d.take(i - debut)) } else { 31 },
        decreases c@.len() - i,
    {
        let x = c[i];
        if !('0' <= x && x <= '9') {
            assert(d[i - debut] == x);
            return 0;
        }
        let chiffre = (x as u64) - 48;
        proof {
            let p = d.take(i - debut);
            let q = d.take(i - debut + 1);
            assert(q.drop_last() =~= p);
            assert(q.last() == x);
            assert(valeur_chiffres(q) == valeur_chiffres(p) * 10 + chiffre);
            assert forall|j: int| 0 <= j < q.len() implies '0' <= #[trigger] q[j] && q[j] <= '9' by {
                if j < p.len() {
                    assert(q[j] == p[j]);
                }
            }
        }
        if v <= 30 {
            let w = v * 10 + chiffre;
            v = if w <= 30 { w } else { 31 };
        }
        i = i + 1;
    }
    assert(d.take(c@.len() - debut) =~= d);
    if v <= 30 {
        v
    } else {
        0
    }
}

/// Arguments d'une extraction de sous-titres vers un dossier, dans un format et pour des
/// langues (séparées par des virgules), avec une pause éventuelle entre sous-titres.
pub open spec fn arguments_sous_titres(
    video_url: Seq<char>,
    dossier: Seq<char>,
    format: Seq<char>,
    langues: Seq<char>,
    pause: nat,
) -> Seq<Seq<char>> {
    seq!["--no-playlist"@] + (if pause > 0 {
        seq!["--sleep-subtitles"@, decimal(pause)]
    } else {
        seq![]
    }) + seq![
        "--skip-download"@,
        "--write-auto-subs"@,
        "--write-subs"@,
        "--sub-langs"@,
        langues,
        "--sub-format"@,
        format,
        "--output"@,
        dossier + "/%(id)s.%(ext)s"@,
        video_url,
    ]
}

/// Les arguments de yt-dlp pour extraire des sous-titres.
pub fn arguments_extraction_sous_titres(
    video_url: &str,
    dossier: &str,
    format: &str,
    langues: &str,
    pause: u64,
) -> (r: Vec<String>)
    ensures
        vue_chaines(r@) == arguments_sous_titres(video_url@, dossier@, format@, langues@, pause as nat),
{
    let mut r: Vec<String> = Vec::new();
    r.push("--no-playlist".to_owned());
    if pause > 0 {
        r.push("--sleep-subtitles".to_owned());
        let mut p: Vec<char> = Vec::new();
        ecrire_decimal_u64(pause, &mut p);
        r.push(chaine_de(p.as_slice()));
    }
    r.push("--skip-download".to_owned());
    r.push("--write-auto-subs".to_owned());
    r.push("--write-subs".to_owned());
    r.push("--sub-langs".to_owned());
    r.push(langues.to_owned());
    r.push("--sub-format".to_owned());
    r.push(format.to_owned());
    r.push("--output".to_owned());
    let mut sortie = caracteres(dossier);
    let motif = caracteres("/%(id)s.%(ext)s");
    etendre(&mut sortie, motif.as_slice());
    r.push(chaine_de(sortie.as_slice()));
    r.push(video_url.to_owned());
    assert(vue_chaines(r@) =~= arguments_sous_titres(video_url@, dossier@, format@, langues@, pause as nat));
    r
}


/// Une réponse « trop de requêtes » de YouTube.
pub open spec fn est_429(s: Seq<char>) -> bool {
    contient(s, "429"@) || contient(s, "Too Many Requests"@)
}

fn texte_429(s: &str) -> (r: bool)
    ensures
        r == est_429(s@),
{
    let c = caracteres(s);
    let a = caracteres("429");
    let b = caracteres("Too Many Requests");
    contient_motif(c.as_slice(), a.as_slice()) || contient_motif(c.as_slice(), b.as_slice())
}

/// Nombre d'exécutions de yt-dlp pour une extraction de sous-titres.
pub const NB_TENTATIVES_SOUS_TITRES: usize = 5;

/// Pause (en secondes) après la tentative `t` refusée pour trop de requêtes.
pub open spec fn pause_429(t: nat) -> u64 {
    if t == 0 {
        5
    } else if t == 1 {
        14
    } else if t == 2 {
        32
    } else if t == 3 {
        60
    } else {
        95
    }
}

/// Issue d'une exécution de yt-dlp.
#[derive(Debug)]
pub enum IssueYtDlp {
    /// yt-dlp a terminé avec succès.
    Reussie,
    /// yt-dlp a terminé en échec, avec cette sortie d'erreur.
    Echouee { stderr: String },
    /// yt-dlp n'a pas pu être lancé, ou a dépassé son délai.
    Impossible(ErreurYoutube),
}

/// Suite d'une extraction de sous-titres.
#[derive(Debug)]
pub enum PasSousTitres {
    /// Attendre ce nombre de secondes, puis relancer yt-dlp.
    Patienter(u64),
    Fini(Result<(), ErreurYoutube>),
}

/// Décide de la suite après la tentative `tentative` (à partir de 0) d'extraction de
/// sous-titres : réussite ; pause puis nouvelle tentative si YouTube a refusé pour trop de
/// requêtes et qu'il en reste ; sinon l'échec de cette tentative.
pub fn apres_tentative_sous_titres(tentative: usize, commande: &str, issue: IssueYtDlp) -> (r: PasSousTitres)
    requires
        tentative < NB_TENTATIVES_SOUS_TITRES,
    ensures
        match issue {
            IssueYtDlp::Reussie => r matches PasSousTitres::Fini(Ok(())),
            IssueYtDlp::Echouee { stderr } => if est_429(stderr@) && tentative + 1 < NB_TENTATIVES_SOUS_TITRES {
                r == PasSousTitres::Patienter(pause_429(tentative as nat))
            } else {
                r matches PasSousTitres::Fini(Err(e)) && est_echec(
                    e,
                    "échec extraction sous-titres (tentative "@ + decimal(tentative as nat + 1) + ")"@,
                    commande@,
                    stderr@,
                )
            },
            IssueYtDlp::Impossible(e) => r == PasSousTitres::Fini(Err(e)),
        },
{
    match issue {
        IssueYtDlp::Reussie => PasSousTitres::Fini(Ok(())),
        IssueYtDlp::Echouee { stderr } => {
            if texte_429(stderr.as_str()) && tentative + 1 < NB_TENTATIVES_SOUS_TITRES {
                let pause: u64 = if tentative == 0 {
                    5
                } else if tentative == 1 {
                    14
                } else if tentative == 2 {
                    32
                } else {
                    60
                };
                PasSousTitres::Patienter(pause)
            } else {
                let mut v = caracteres("échec extraction sous-titres (tentative ");
                ecrire_decimal(tentative + 1, &mut v);
                let fin = caracteres(")");
                etendre(&mut v, fin.as_slice());
                let m = chaine_de(v.as_slice());
                PasSousTitres::Fini(Err(echec_yt_dlp(m.as_str(), commande, stderr.as_str())))
            }
        },
        IssueYtDlp::Impossible(e) => PasSousTitres::Fini(Err(e)),
    }
}

/// Pause (en secondes) avant la tentative suivante d'extraction après un échec : 8 s si
/// l'erreur dit que YouTube a refusé pour trop de requêtes, sinon aucune.
pub fn pause_apres_echec(e: &ErreurYoutube) -> (r: u64)
    ensures
        r == if est_429(texte_erreur_youtube(*e)) { 8u64 } else { 0u64 },
{
    let m = e.message();
    if texte_429(m.as_str()) {
        8
    } else {
        0
    }
}

/// Message quand aucune tentative n'a donné de sous-titres exploitables sans que yt-dlp
/// ait échoué.
pub open spec fn aucun_sous_titre() -> Seq<char> {
    "Aucun sous-titre exploitable (VTT/SRT/JSON) après plusieurs langues. La vidéo peut n’avoir aucun sous-titre (ni automatique), ou yt-dlp doit être mis à jour (`python3 -m pip install -U yt-dlp`, puis `python3 -m yt_dlp --version`). Variables utiles : YT_DLP_CHEMIN (script yt-dlp), PYTHON (interpréteur pour `python -m yt_dlp`)."@
}

/// L'erreur d'une extraction de transcript sans résultat : le dernier échec retenu de
/// yt-dlp, sinon `TranscriptIntrouvable`.
pub fn echec_transcript(dernier_echec: Option<ErreurYoutube>) -> (r: ErreurYoutube)
    ensures
        match dernier_echec {
            Some(e) => r == e,
            None => r matches ErreurYoutube::TranscriptIntrouvable(m) && m@ == aucun_sous_titre(),
        },
{
    match dernier_echec {
        Some(e) => e,
        None => ErreurYoutube::TranscriptIntrouvable(
            "Aucun sous-titre exploitable (VTT/SRT/JSON) après plusieurs langues. La vidéo peut n’avoir aucun sous-titre (ni automatique), ou yt-dlp doit être mis à jour (`python3 -m pip install -U yt-dlp`, puis `python3 -m yt_dlp --version`). Variables utiles : YT_DLP_CHEMIN (script yt-dlp), PYTHON (interpréteur pour `python -m yt_dlp`).".to_owned(),
        ),
    }
}


/// Arguments d'une lecture des informations d'une vidéo seule.
pub open spec fn arguments_infos(mode: ModeListe, url: Seq<char>) -> Seq<Seq<char>> {
    seq![
        "--no-warnings"@,
        match mode {
            ModeListe::LigneParLigne => "--dump-json"@,
            ModeListe::JsonUnique => "-J"@,
        },
        "--no-playlist"@,
        rogne(url),
    ]
}

/// Suite de la lecture des informations d'une vidéo.
pub enum PasInfos {
    Executer(DemandeYtDlp),
    Fini(Result<VideoInfo, ErreurYoutube>),
}

fn demande_infos(mode: ModeListe, url: &str) -> (r: DemandeYtDlp)
    ensures
        r.mode == mode,
        vue_chaines(r.arguments@) == arguments_infos(mode, url@),
{
    let c = caracteres(url);
    let t = rogner(c.as_slice());
    let mut arguments: Vec<String> = Vec::new();
    arguments.push("--no-warnings".to_owned());
    arguments.push(
        match mode {
            ModeListe::LigneParLigne => "--dump-json".to_owned(),
            ModeListe::JsonUnique => "-J".to_owned(),
        },
    );
    arguments.push("--no-playlist".to_owned());
    arguments.push(chaine_de(t.as_slice()));
    assert(vue_chaines(arguments@) =~= arguments_infos(mode, url@));
    DemandeYtDlp { mode, arguments }
}

/// Commence la lecture des informations d'une vidéo depuis son URL : `ListeVide` si l'URL
/// est blanche, sinon une exécution `--dump-json` à faire, dont les entrées lues vont à
/// `infos_apres_dump`.
pub fn infos_video_depuis_url(url: &str) -> (r: PasInfos)
    ensures
        rogne(url@).len() == 0 ==> (r matches PasInfos::Fini(Err(ErreurYoutube::ListeVide))),
        rogne(url@).len() > 0 ==> (r matches PasInfos::Executer(d) && d.mode == ModeListe::LigneParLigne
            && vue_chaines(d.arguments@) == arguments_infos(ModeListe::LigneParLigne, url@)),
{
    let c = caracteres(url);
    let t = rogner(c.as_slice());
    if t.len() == 0 {
        return PasInfos::Fini(Err(ErreurYoutube::ListeVide));
    }
    PasInfos::Executer(demande_infos(ModeListe::LigneParLigne, url))
}

/// La première vidéo exploitable d'une lecture réussie.
pub open spec fn premiere_video(es: Option<Seq<EntreeDump>>) -> Option<(Seq<char>, Seq<char>, Seq<char>, Option<Seq<char>>)> {
    match es {
        Some(es) => if videos_de_dump(es).len() > 0 {
            Some(videos_de_dump(es)[0])
        } else {
            None
        },
        None => None,
    }
}

pub open spec fn vue_lecture(o: Option<Vec<EntreeDump>>) -> Option<Seq<EntreeDump>> {
    match o {
        Some(v) => Some(v@),
        None => None,
    }
}

fn premiere_de(entrees: Option<Vec<EntreeDump>>) -> (r: Option<VideoInfo>)
    ensures
        match premiere_video(vue_lecture(entrees)) {
            Some(v) => r matches Some(x) && vue_video(x) == v,
            None => r is None,
        },
{
    match entrees {
        Some(es) => {
            let mut vs = selectionner_entrees_depuis_dump(es);
            if vs.len() > 0 {
                assert(vue_videos(vs@)[0] == vue_video(vs@[0]));
                Some(vs.remove(0))
            } else {
                None
            }
        },
        None => None,
    }
}

/// Après l'exécution `--dump-json` (ses entrées, ou rien si elle a échoué) : la première
/// vidéo exploitable, sinon une exécution `-J` à faire, dont la sortie va à
/// `infos_depuis_sortie_unique`.
pub fn infos_apres_dump(url: &str, entrees: Option<Vec<EntreeDump>>) -> (r: PasInfos)
    ensures
        match premiere_video(vue_lecture(entrees)) {
            Some(v) => r matches PasInfos::Fini(Ok(x)) && vue_video(x) == v,
            None => r matches PasInfos::Executer(d) && d.mode == ModeListe::JsonUnique
                && vue_chaines(d.arguments@) == arguments_infos(ModeListe::JsonUnique, url@),
        },
{
    match premiere_de(entrees) {
        Some(v) => PasInfos::Fini(Ok(v)),
        None => PasInfos::Executer(demande_infos(ModeListe::JsonUnique, url)),
    }
}

/// Les textes à lire dans la sortie d'une exécution `-J` : la sortie standard rognée, la
/// sortie d'erreur rognée, puis les deux jointes par un saut de ligne.
pub open spec fn textes_sortie(stdout: Seq<char>, stderr: Seq<char>) -> Seq<Seq<char>> {
    seq![rogne(stdout), rogne(stderr), rogne(stdout) + seq!['\n'] + rogne(stderr)]
}

/// Les textes à lire dans la sortie d'une exécution `-J`, dans l'ordre des lectures.
pub fn textes_a_lire(stdout: &str, stderr: &str) -> (r: Vec<String>)
    ensures
        vue_chaines(r@) == textes_sortie(stdout@, stderr@),
{
    let a = caracteres(stdout);
    let b = caracteres(stderr);
    let ta = rogner(a.as_slice());
    let tb = rogner(b.as_slice());
    let mut tc: Vec<char> = Vec::new();
    etendre(&mut tc, ta.as_slice());
    tc.push('\n');
    etendre(&mut tc, tb.as_slice());
    let mut r: Vec<String> = Vec::new();
    r.push(chaine_de(ta.as_slice()));
    r.push(chaine_de(tb.as_slice()));
    r.push(chaine_de(tc.as_slice()));
    assert(tc@ =~= ta@ + seq!['\n'] + tb@);
    assert(vue_chaines(r@)[2] == textes_sortie(stdout@, stderr@)[2]);
    assert(vue_chaines(r@) =~= textes_sortie(stdout@, stderr@));
    r
}

/// Sortie d'une exécution `-J` pour une vidéo. `lectures` tient, dans l'ordre, chaque texte
/// de `textes_a_lire` lu comme une entrée seule (une liste d'un élément), puis chacun lu
/// comme une playlist (ses entrées présentes) ; rien là où la lecture a échoué.
pub struct SortieJsonUnique {
    pub stdout: String,
    pub stderr: String,
    pub succes: bool,
    pub commande: String,
    pub lectures: Vec<Option<Vec<EntreeDump>>>,
}

/// La première vidéo exploitable de la première lecture qui en donne une.
pub open spec fn premiere_lue(ls: Seq<Option<Seq<EntreeDump>>>) -> Option<(Seq<char>, Seq<char>, Seq<char>, Option<Seq<char>>)>
    decreases ls.len(),
{
    if ls.len() == 0 {
        None
    } else {
        match premiere_video(ls[0]) {
            Some(v) => Some(v),
            None => premiere_lue(ls.skip(1)),
        }
    }
}

pub open spec fn vue_lectures(ls: Seq<Option<Vec<EntreeDump>>>) -> Seq<Option<Seq<EntreeDump>>> {
    ls.map_values(|o: Option<Vec<EntreeDump>>| vue_lecture(o))
}

/// Message des échecs de l'exécution `-J` pour une vidéo.
pub open spec fn echec_infos() -> Seq<char> {
    "échec yt-dlp (-J) pour cette URL"@
}

/// Les informations d'une vidéo tirées de la sortie d'une exécution `-J` : si la sortie
/// standard est blanche, un échec quand yt-dlp a échoué sans rien écrire en erreur, sinon
/// `ListeVide` ; sinon la première vidéo des lectures, sinon l'échec de yt-dlp s'il a
/// échoué, sinon `ListeVide`.
pub fn infos_depuis_sortie_unique(sortie: SortieJsonUnique) -> (r: Result<VideoInfo, ErreurYoutube>)
    ensures
        rogne(sortie.stdout@).len() == 0 ==> if !sortie.succes && rogne(sortie.stderr@).len() == 0 {
            r matches Err(e) && est_echec(e, echec_infos(), sortie.commande@, sortie.stderr@)
        } else {
            r matches Err(ErreurYoutube::ListeVide)
        },
        rogne(sortie.stdout@).len() > 0 ==> match premiere_lue(vue_lectures(sortie.lectures@)) {
            Some(v) => r matches Ok(x) && vue_video(x) == v,
            None => if !sortie.succes {
                r matches Err(e) && est_echec(e, echec_infos(), sortie.commande@, sortie.stderr@)
            } else {
                r matches Err(ErreurYoutube::ListeVide)
            },
        },
{
    let SortieJsonUnique { stdout, stderr, succes, commande, lectures } = sortie;
    let a = caracteres(stdout.as_str());
    let ta = rogner(a.as_slice());
    if ta.len() == 0 {
        let b = caracteres(stderr.as_str());
        let tb = rogner(b.as_slice());
        if !succes && tb.len() == 0 {
            return Err(echec_yt_dlp("échec yt-dlp (-J) pour cette URL", commande.as_str(), stderr.as_str()));
        }
        return Err(ErreurYoutube::ListeVide);
    }
    let ghost ls = vue_lectures(lectures@);
    let mut restant = lectures;
    let ghost mut i: int = 0;
    assert(ls.skip(0) =~= ls);
    while restant.len() > 0
        invariant
            0 <= i <= ls.len(),
            ls == vue_lectures(sortie.lectures@),
            rogne(sortie.stdout@).len() > 0,
            vue_lectures(restant@) == ls.skip(i),
            premiere_lue(ls) == premiere_lue(ls.skip(i)),
        decreases restant@.len(),
    {
        let l = restant.remove(0);
        proof {
            let q = ls.skip(i);
            assert(q[0] == vue_lecture(l));
            assert(q.skip(1) =~= ls.skip(i + 1));
        }
        match premiere_de(l) {
            Some(v) => {
                return Ok(v);
            },
            None => {},
        }
        proof {
            assert(vue_lectures(restant@) =~= ls.skip(i + 1));
            i = i + 1;
        }
    }
    assert(ls.skip(i).len() == 0);
    if !succes {
        return Err(echec_yt_dlp("échec yt-dlp (-J) pour cette URL", commande.as_str(), stderr.as_str()));
    }
    Err(ErreurYoutube::ListeVide)
}


/// `dossier` joint à un chemin relatif, séparés par `/` (rien n'est ajouté après un
/// dossier vide ou qui finit déjà par `/`).
pub open spec fn joint(dossier: Seq<char>, nom: Seq<char>) -> Seq<char> {
    if dossier.len() == 0 || dossier.last() == '/' {
        dossier + nom
    } else {
        dossier + seq!['/'] + nom
    }
}

/// Pour chaque dossier, dans l'ordre, chacun des noms qui y sont joints, dans l'ordre.
pub open spec fn sous_chaque(dossiers: Seq<Seq<char>>, noms: Seq<Seq<char>>) -> Seq<Seq<char>>
    decreases dossiers.len(),
{
    if dossiers.len() == 0 {
        seq![]
    } else {
        sous_chaque(dossiers.drop_last(), noms) + noms.map_values(|n: Seq<char>| joint(dossiers.last(), n))
    }
}

/// Les chemins où chercher l'exécutable `yt-dlp`, dans l'ordre : le chemin donné par
/// `YT_DLP_CHEMIN` (sinon par `YTDLP_CHEMIN`) ; `$HOME/.local/bin` ; `bin/` dans le répertoire
/// courant puis chacun de ses ancêtres ; à côté de l'exécutable de l'application (et dans
/// son `bin/`), puis dans chacun de ses ancêtres ; chaque dossier du `PATH` ; chaque dossier
/// `Scripts` des installations Python sous `%APPDATA%`.
pub open spec fn ordre_candidats_yt_dlp(
    yt_dlp_chemin: Option<Seq<char>>,
    ytdlp_chemin: Option<Seq<char>>,
    home: Option<Seq<char>>,
    ancetres_cwd: Seq<Seq<char>>,
    ancetres_exe: Seq<Seq<char>>,
    dossiers_path: Seq<Seq<char>>,
    scripts_appdata: Seq<Seq<char>>,
) -> Seq<Seq<char>> {
    let env = match yt_dlp_chemin {
        Some(p) => seq![p],
        None => match ytdlp_chemin {
            Some(p) => seq![p],
            None => seq![],
        },
    };
    let maison = match home {
        Some(h) => seq![joint(h, ".local/bin/yt-dlp"@), joint(h, ".local/bin/yt-dlp.exe"@)],
        None => seq![],
    };
    env + maison + sous_chaque(ancetres_cwd, seq!["bin/yt-dlp"@, "bin/yt-dlp.exe"@]) + sous_chaque(
        ancetres_exe,
        seq!["yt-dlp"@, "yt-dlp.exe"@, "bin/yt-dlp"@, "bin/yt-dlp.exe"@],
    ) + sous_chaque(dossiers_path, seq!["yt-dlp.exe"@, "yt-dlp"@]) + sous_chaque(
        scripts_appdata,
        seq!["yt-dlp.exe"@, "yt-dlp"@],
    )
}

pub(crate) fn joindre_chemin(dossier: &str, nom: &str) -> (r: String)
    ensures
        r@ == joint(dossier@, nom@),
{
    let mut v = caracteres(dossier);
    let n = v.len();
    if !(n == 0 || v[n - 1] == '/') {
        v.push('/');
    }
    let c = caracteres(nom);
    etendre(&mut v, c.as_slice());
    chaine_de(v.as_slice())
}

fn ajouter_sous_chaque(r: &mut Vec<String>, dossiers: &Vec<String>, noms: &Vec<String>)
    ensures
        vue_chaines(final(r)@) == vue_chaines(old(r)@) + sous_chaque(vue_chaines(dossiers@), vue_chaines(noms@)),
{
    let ghost ds = vue_chaines(dossiers@);
    let ghost ns = vue_chaines(noms@);
    let mut i: usize = 0;
    assert(ds.take(0) =~= Seq::<Seq<char>>::empty());
    assert(vue_chaines(r@) =~= vue_chaines(old(r)@) + sous_chaque(ds.take(0), ns));
    while i < dossiers.len()
        invariant
            i <= dossiers@.len(),
            ds == vue_chaines(dossiers@),
            ns == vue_chaines(noms@),
            vue_chaines(r@) == vue_chaines(old(r)@) + sous_chaque(ds.take(i as int), ns),
        decreases dossiers@.len() - i,
    {
        let ghost debut = vue_chaines(r@);
        let mut j: usize = 0;
        while j < noms.len()
            invariant
                j <= noms@.len(),
                i < dossiers@.len(),
                ds == vue_chaines(dossiers@),
                ns == vue_chaines(noms@),
                vue_chaines(r@) == debut + ns.take(j as int).map_values(|n: Seq<char>| joint(ds[i as int], n)),
            decreases noms@.len() - j,
        {
            let ghost avant = vue_chaines(r@);
            let x = joindre_chemin(dossiers[i].as_str(), noms[j].as_str());
            r.push(x);
            proof {
                assert(ds[i as int] == dossiers@[i as int]@);
                assert(ns[j as int] == noms@[j as int]@);
                assert(vue_chaines(r@) =~= avant.push(x@));
                assert(ns.take(j + 1).map_values(|n: Seq<char>| joint(ds[i as int], n)) =~= ns.take(j as int).map_values(
                    |n: Seq<char>| joint(ds[i as int], n),
                ).push(joint(ds[i as int], ns[j as int])));
            }
            j = j + 1;
        }
        proof {
            assert(ns.take(noms@.len() as int) =~= ns);
            let t = ds.take(i + 1);
            assert(t.drop_last() =~= ds.take(i as int));
            assert(t.last() == ds[i as int]);
        }
        i = i + 1;
    }
    assert(ds.take(dossiers@.len() as int) =~= ds);
}

fn noms(a: &str, b: &str) -> (r: Vec<String>)
    ensures
        vue_chaines(r@) == seq![a@, b@],
{
    let mut r: Vec<String> = Vec::new();
    r.push(a.to_owned());
    r.push(b.to_owned());
    assert(vue_chaines(r@) =~= seq![a@, b@]);
    r
}

/// Les chemins où chercher l'exécutable `yt-dlp`, dans l'ordre de recherche, à partir des
/// valeurs lues dans l'environnement et des dossiers donnés par l'appelant.
pub fn candidats_yt_dlp(
    yt_dlp_chemin: Option<String>,
    ytdlp_chemin: Option<String>,
    home: Option<String>,
    ancetres_cwd: Vec<String>,
    ancetres_exe: Vec<String>,
    dossiers_path: Vec<String>,
    scripts_appdata: Vec<String>,
) -> (r: Vec<String>)
    ensures
        vue_chaines(r@) == ordre_candidats_yt_dlp(
            vue_option(yt_dlp_chemin),
            vue_option(ytdlp_chemin),
            vue_option(home),
            vue_chaines(ancetres_cwd@),
            vue_chaines(ancetres_exe@),
            vue_chaines(dossiers_path@),
            vue_chaines(scripts_appdata@),
        ),
{
    let mut r: Vec<String> = Vec::new();
    match yt_dlp_chemin {
        Some(p) => r.push(p),
        None => match ytdlp_chemin {
            Some(p) => r.push(p),
            None => {},
        },
    }
    let ghost a = vue_chaines(r@);
    assert(a =~= match vue_option(yt_dlp_chemin) {
        Some(p) => seq![p],
        None => match vue_option(ytdlp_chemin) {
            Some(p) => seq![p],
            None => seq![],
        },
    });
    match &home {
        Some(h) => {
            r.push(joindre_chemin(h.as_str(), ".local/bin/yt-dlp"));
            r.push(joindre_chemin(h.as_str(), ".local/bin/yt-dlp.exe"));
        },
        None => {},
    }
    let ghost b = vue_chaines(r@);
    assert(b =~= a + match vue_option(home) {
        Some(h) => seq![joint(h, ".local/bin/yt-dlp"@), joint(h, ".local/bin/yt-dlp.exe"@)],
        None => seq![],
    });
    let bin = noms("bin/yt-dlp", "bin/yt-dlp.exe");
    ajouter_sous_chaque(&mut r, &ancetres_cwd, &bin);
    let mut quatre = noms("yt-dlp", "yt-dlp.exe");
    let ghost q0 = vue_chaines(quatre@);
    let x = "bin/yt-dlp".to_owned();
    let y = "bin/yt-dlp.exe".to_owned();
    quatre.push(x);
    quatre.push(y);
    assert(vue_chaines(quatre@) =~= q0.push(x@).push(y@));
    assert(vue_chaines(quatre@) =~= seq!["yt-dlp"@, "yt-dlp.exe"@, "bin/yt-dlp"@, "bin/yt-dlp.exe"@]);
    let ghost c = vue_chaines(r@);
    ajouter_sous_chaque(&mut r, &ancetres_exe, &quatre);
    let ghost d = vue_chaines(r@);
    let deux = noms("yt-dlp.exe", "yt-dlp");
    ajouter_sous_chaque(&mut r, &dossiers_path, &deux);
    let ghost e = vue_chaines(r@);
    ajouter_sous_chaque(&mut r, &scripts_appdata, &deux);
    assert(c == b + sous_chaque(vue_chaines(ancetres_cwd@), seq!["bin/yt-dlp"@, "bin/yt-dlp.exe"@]));
    assert(d == c + sous_chaque(vue_chaines(ancetres_exe@), seq!["yt-dlp"@, "yt-dlp.exe"@, "bin/yt-dlp"@, "bin/yt-dlp.exe"@]));
    assert(e == d + sous_chaque(vue_chaines(dossiers_path@), seq!["yt-dlp.exe"@, "yt-dlp"@]));
    assert(vue_chaines(r@) == e + sous_chaque(vue_chaines(scripts_appdata@), seq!["yt-dlp.exe"@, "yt-dlp"@]));
    assert(vue_chaines(r@) =~= ordre_candidats_yt_dlp(
        vue_option(yt_dlp_chemin),
        vue_option(ytdlp_chemin),
        vue_option(home),
        vue_chaines(ancetres_cwd@),
        vue_chaines(ancetres_exe@),
        vue_chaines(dossiers_path@),
        vue_chaines(scripts_appdata@),
    ));
    r
}

/// Le premier candidat qui existe : le plus petit indice marqué existant, rien s'il n'y en
/// a pas.
pub fn premier_existant(candidats: &Vec<String>, existe: &Vec<bool>) -> (r: Option<usize>)
    requires
        existe@.len() == candidats@.len(),
    ensures
        match r {
            Some(i) => i < candidats@.len() && existe@[i as int] && forall|j: int| 0 <= j < i ==> !existe@[j],
            None => forall|j: int| 0 <= j < existe@.len() ==> !existe@[j],
        },
{
    let mut i: usize = 0;
    while i < existe.len()
        invariant
            i <= existe@.len(),
            existe@.len() == candidats@.len(),
            forall|j: int| 0 <= j < i ==> !existe@[j],
        decreases existe@.len() - i,
    {
        if existe[i] {
            return Some(i);
        }
        i = i + 1;
    }
    None
}


/// L'erreur finale d'une extraction sans transcript : le dernier échec retenu, sinon
/// `TranscriptIntrouvable`.
pub open spec fn est_echec_final(e: ErreurYoutube, dernier: Option<ErreurYoutube>) -> bool {
    match dernier {
        Some(x) => e == x,
        None => e matches ErreurYoutube::TranscriptIntrouvable(m) && m@ == aucun_sous_titre(),
    }
}

/// Les fichiers écrits par une tentative sont lus si yt-dlp a réussi, ou si la tentative
/// le prévoit malgré l'échec.
pub open spec fn fichiers_lus(issue: Result<(), ErreurYoutube>, t: (FormatSousTitres, Seq<char>, bool, bool)) -> bool {
    issue is Ok || t.2
}

/// L'échec retenu d'une tentative : celui de yt-dlp, quand la tentative lit ses fichiers
/// malgré l'échec et retient l'échec.
pub open spec fn echec_retenu(issue: Result<(), ErreurYoutube>, t: (FormatSousTitres, Seq<char>, bool, bool)) -> Option<ErreurYoutube> {
    match issue {
        Err(e) => if t.2 && t.3 {
            Some(e)
        } else {
            None
        },
        Ok(()) => None,
    }
}

/// Où en est l'extraction du transcript d'une vidéo : le plan des tentatives, la tentative
/// en cours, le dernier échec retenu.
pub struct ExtractionTranscript {
    plan: Vec<TentativeSousTitres>,
    etape: usize,
    dernier_echec: Option<ErreurYoutube>,
    max_caracteres: usize,
}

/// Suite de l'extraction.
pub enum PasTranscript {
    /// Lancer yt-dlp pour cette tentative (dans un dossier vide), puis passer son issue et
    /// les textes tirés des fichiers écrits à `ExtractionTranscript::recevoir`.
    Lancer(TentativeSousTitres),
    Fini(Result<String, ErreurYoutube>),
}

fn copie_tentative(t: &TentativeSousTitres) -> (r: TentativeSousTitres)
    ensures
        vue_tentative(r) == vue_tentative(*t),
{
    TentativeSousTitres {
        format: t.format,
        langues: t.langues.clone(),
        lire_si_echec: t.lire_si_echec,
        retenir_echec: t.retenir_echec,
    }
}

impl ExtractionTranscript {
    /// Les tentatives prévues.
    pub closed spec fn plan_vue(self) -> Seq<(FormatSousTitres, Seq<char>, bool, bool)> {
        self.plan@.map_values(|t: TentativeSousTitres| vue_tentative(t))
    }

    /// Indice de la tentative en cours.
    pub closed spec fn etape_vue(self) -> nat {
        self.etape as nat
    }

    /// Le dernier échec retenu.
    pub closed spec fn dernier_vue(self) -> Option<ErreurYoutube> {
        self.dernier_echec
    }

    /// Longueur maximale du transcript.
    pub closed spec fn max_vue(self) -> nat {
        self.max_caracteres as nat
    }

    /// Reçoit l'issue de yt-dlp pour la tentative en cours et les textes tirés des fichiers
    /// de sous-titres qu'il a écrits. Rend la pause à faire (en secondes) puis la suite : le
    /// transcript dès qu'une tentative en donne un, sinon la tentative suivante, sinon
    /// l'erreur du dernier échec retenu (ou `TranscriptIntrouvable`).
    pub fn recevoir(&mut self, issue: Result<(), ErreurYoutube>, textes: &Vec<String>) -> (r: (u64, PasTranscript))
        ensures
            final(self).plan_vue() == old(self).plan_vue(),
            final(self).max_vue() == old(self).max_vue(),
            old(self).etape_vue() >= old(self).plan_vue().len() ==> r.0 == 0 && (r.1 matches PasTranscript::Fini(Err(e))
                && est_echec_final(e, old(self).dernier_vue())),
            old(self).etape_vue() < old(self).plan_vue().len() ==> ({
                let t = old(self).plan_vue()[old(self).etape_vue() as int];
                let retenu = echec_retenu(issue, t);
                let dernier = match retenu {
                    Some(e) => Some(e),
                    None => old(self).dernier_vue(),
                };
                let trouve = if fichiers_lus(issue, t) {
                    meilleur_transcript(textes@.map_values(|s: String| s@), old(self).max_vue())
                } else {
                    None
                };
                &&& r.0 == match retenu {
                    Some(e) => if est_429(texte_erreur_youtube(e)) { 8u64 } else { 0u64 },
                    None => 0u64,
                }
                &&& match trouve {
                    Some(b) => r.1 matches PasTranscript::Fini(Ok(x)) && x@ == b,
                    None => if old(self).etape_vue() + 1 < old(self).plan_vue().len() {
                        &&& final(self).etape_vue() == old(self).etape_vue() + 1
                        &&& final(self).dernier_vue() == dernier
                        &&& r.1 matches PasTranscript::Lancer(t2) && vue_tentative(t2) == old(self).plan_vue()[(old(self).etape_vue() + 1) as int]
                    } else {
                        r.1 matches PasTranscript::Fini(Err(e)) && est_echec_final(e, dernier)
                    },
                }
            }),
    {
        let n = self.plan.len();
        if self.etape >= n {
            let d = self.dernier_echec.take();
            return (0, PasTranscript::Fini(Err(echec_transcript(d))));
        }
        let k = self.etape;
        let lire_si_echec = self.plan[k].lire_si_echec;
        let retenir = self.plan[k].retenir_echec;
        assert(self.plan_vue()[k as int] == vue_tentative(self.plan@[k as int]));
        let mut pause: u64 = 0;
        let lire = match issue {
            Ok(()) => true,
            Err(e) => {
                if lire_si_echec {
                    if retenir {
                        pause = pause_apres_echec(&e);
                        self.dernier_echec = Some(e);
                    }
                    true
                } else {
                    false
                }
            },
        };
        if lire {
            match selectionner_meilleur_transcript(textes, self.max_caracteres) {
                Some(t) => {
                    return (pause, PasTranscript::Fini(Ok(t)));
                },
                None => {},
            }
        }
        if k + 1 < n {
            self.etape = k + 1;
            let t = copie_tentative(&self.plan[k + 1]);
            assert(self.plan_vue()[k + 1] == vue_tentative(self.plan@[k + 1]));
            (pause, PasTranscript::Lancer(t))
        } else {
            let d = self.dernier_echec.take();
            (pause, PasTranscript::Fini(Err(echec_transcript(d))))
        }
    }
}

/// Commence l'extraction du transcript d'une vidéo pour les langues listées par yt-dlp :
/// rend l'état et la première tentative (le plan n'est jamais vide : sans langue listée,
/// on essaie les langues préférées).
pub fn extraire_transcript(disponibles: &Vec<Vec<char>>, max_caracteres_transcript: usize) -> (r: (
    ExtractionTranscript,
    PasTranscript,
))
    ensures
        r.0.plan_vue() == plan_extraction(codes_a_tester_spec(disponibles.deep_view())),
        r.0.etape_vue() == 0,
        r.0.dernier_vue() is None,
        r.0.max_vue() == max_caracteres_transcript,
        r.0.plan_vue().len() > 0 ==> (r.1 matches PasTranscript::Lancer(t) && vue_tentative(t) == r.0.plan_vue()[0]),
        r.0.plan_vue().len() == 0 ==> (r.1 matches PasTranscript::Fini(Err(e)) && est_echec_final(e, None)),
{
    let plan = plan_extraction_transcript(disponibles);
    if plan.len() == 0 {
        let etat = ExtractionTranscript { plan, etape: 0, dernier_echec: None, max_caracteres: max_caracteres_transcript };
        return (etat, PasTranscript::Fini(Err(echec_transcript(None))));
    }
    let t = copie_tentative(&plan[0]);
    let etat = ExtractionTranscript { plan, etape: 0, dernier_echec: None, max_caracteres: max_caracteres_transcript };
    assert(etat.plan_vue()[0] == vue_tentative(etat.plan@[0]));
    (etat, PasTranscript::Lancer(t))
}

/// La valeur rognée d'une variable d'environnement, seule si elle n'est pas blanche.
pub open spec fn valeur_non_blanche(v: Option<Seq<char>>) -> Seq<Seq<char>> {
    match v {
        Some(x) => if rogne(x).len() > 0 {
            seq![rogne(x)]
        } else {
            seq![]
        },
        None => seq![],
    }
}

/// Les interpréteurs Python à essayer pour `python -m yt_dlp`, dans l'ordre : `PYTHON`,
/// puis `PYTHON3` (rognés, s'ils ne sont pas blancs), puis `python3` et `python`.
pub open spec fn noms_interpreteurs_python(python: Option<Seq<char>>, python3: Option<Seq<char>>) -> Seq<Seq<char>> {
    valeur_non_blanche(python) + valeur_non_blanche(python3) + seq!["python3"@, "python"@]
}

fn pousser_non_blanche(v: &mut Vec<String>, x: &Option<String>)
    ensures
        vue_chaines(final(v)@) == vue_chaines(old(v)@) + valeur_non_blanche(vue_option(*x)),
{
    let ghost avant = vue_chaines(v@);
    match x {
        Some(s) => {
            let c = caracteres(s.as_str());
            let t = rogner(c.as_slice());
            if t.len() > 0 {
                v.push(chaine_de(t.as_slice()));
                assert(vue_chaines(v@) =~= avant + valeur_non_blanche(vue_option(*x)));
            } else {
                assert(vue_chaines(v@) =~= avant + valeur_non_blanche(vue_option(*x)));
            }
        },
        None => {
            assert(vue_chaines(v@) =~= avant + valeur_non_blanche(vue_option(*x)));
        },
    }
}

/// Les noms des interpréteurs Python à essayer, tirés des variables `PYTHON` et `PYTHON3`.
pub fn candidats_interpreteurs_python(python: Option<String>, python3: Option<String>) -> (r: Vec<String>)
    ensures
        vue_chaines(r@) == noms_interpreteurs_python(vue_option(python), vue_option(python3)),
{
    let mut v: Vec<String> = Vec::new();
    assert(vue_chaines(v@) =~= Seq::<Seq<char>>::empty());
    pousser_non_blanche(&mut v, &python);
    pousser_non_blanche(&mut v, &python3);
    let ghost avant = vue_chaines(v@);
    v.push("python3".to_owned());
    v.push("python".to_owned());
    assert(vue_chaines(v@) =~= avant + seq!["python3"@, "python"@]);
    v
}

} // verus!
