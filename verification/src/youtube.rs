//! Vidéos YouTube : identifiants, URL, sélection des entrées renvoyées par yt-dlp.

use vstd::prelude::*;
use crate::json::ValeurJson;
use crate::texte::{
    decimal, ecrire_decimal, finit_par, retirer_fin, sans_fin,
    apparait_en, lemme_position_premier, lemme_premiere_occurrence, lemme_rogne, lemme_rogne_propre, position_premier,
    a_partir_de, avant_premier, avant_separateur, caracteres, chaine_de, commence_par, decoupe,
    decouper, egaux_ascii, egaux_sans_casse_ascii, etendre, apparait_a, premiere_occurrence,
    rogne, rogner, trouver_motif,
};

verus! {

/// Une vidéo d'une chaîne.
#[derive(Debug, Clone)]
pub struct VideoInfo {
    pub id: String,
    pub titre: String,
    pub url: String,
    /// Date de publication brute telle que renvoyée par yt-dlp (ex : "20240115").
    pub date_publication: Option<String>,
}

/// Erreurs autour de yt-dlp.
#[derive(Debug)]
pub enum ErreurYoutube {
    YtDlpIntrouvable { message: String },
    EchecYtDlp { message: String, commande: String, stderr_tronque: String },
    ListeVide,
    TranscriptIntrouvable(String),
}

/// Une entrée JSON renvoyée par yt-dlp, réduite aux champs lus.
#[derive(Debug)]
pub struct EntreeDump {
    pub id: Option<String>,
    pub title: Option<String>,
    pub webpage_url: Option<String>,
    pub url: Option<ValeurJson>,
    /// Date de publication au format AAAAMMJJ (`upload_date`).
    pub upload_date: Option<String>,
}

pub open spec fn vue_option(o: Option<String>) -> Option<Seq<char>> {
    match o {
        Some(s) => Some(s@),
        None => None,
    }
}

/// Vue d'une vidéo : identifiant, titre, URL, date.
pub open spec fn vue_video(v: VideoInfo) -> (Seq<char>, Seq<char>, Seq<char>, Option<Seq<char>>) {
    (v.id@, v.titre@, v.url@, vue_option(v.date_publication))
}

/// Les morceaux non blancs.
pub open spec fn non_blancs(ls: Seq<Seq<char>>) -> Seq<Seq<char>>
    decreases ls.len(),
{
    if ls.len() == 0 {
        seq![]
    } else {
        let p = non_blancs(ls.drop_last());
        if rogne(ls.last()).len() > 0 {
            p.push(ls.last())
        } else {
            p
        }
    }
}

/// Premier indice `i < len - 1` dont le segment vaut `shorts` (casse ASCII ignorée).
pub open spec fn indice_shorts(segs: Seq<Seq<char>>) -> Option<int> {
    if exists|i: int| 0 <= i < segs.len() - 1 && egaux_sans_casse_ascii(#[trigger] segs[i], "shorts"@) {
        Some(
            choose|i: int|
                0 <= i < segs.len() - 1 && egaux_sans_casse_ascii(#[trigger] segs[i], "shorts"@)
                    && forall|j: int| 0 <= j < i ==> !egaux_sans_casse_ascii(#[trigger] segs[j], "shorts"@),
        )
    } else {
        None
    }
}

/// L'identifiant d'une vidéo tiré de son URL : ce qui suit le premier `v=` jusqu'au
/// premier `&` (rogné, s'il n'est pas vide) ; sinon le segment qui suit `shorts` ;
/// sinon le dernier segment non blanc.
pub open spec fn id_depuis_url(url: Seq<char>) -> Option<Seq<char>> {
    let par_v = match premiere_occurrence(url, "v="@) {
        Some(p) => {
            let cle = rogne(avant_separateur(url.skip(p + 2), seq!['&']));
            if cle.len() > 0 {
                Some(cle)
            } else {
                None
            }
        },
        None => None,
    };
    if par_v is Some {
        par_v
    } else {
        let segs = non_blancs(decoupe(url, '/'));
        match indice_shorts(segs) {
            Some(i) => Some(segs[i + 1]),
            None => if segs.len() > 0 {
                Some(segs.last())
            } else {
                None
            },
        }
    }
}

/// L'URL de la vidéo d'identifiant `id` (rogné), rien s'il est blanc.
pub open spec fn url_video(id: Seq<char>) -> Option<Seq<char>> {
    if rogne(id).len() == 0 {
        None
    } else {
        Some("https://www.youtube.com/watch?v="@ + rogne(id))
    }
}

fn segments_non_blancs(url: &[char]) -> (r: Vec<Vec<char>>)
    ensures
        r.deep_view() == non_blancs(decoupe(url@, '/')),
{
    let morceaux = decouper(url, '/');
    let mut r: Vec<Vec<char>> = Vec::new();
    let mut i: usize = 0;
    let mut restant = morceaux;
    let ghost orig = restant.deep_view();
    let n0 = restant.len();
    assert(orig.len() == n0);
    assert(orig.skip(0) =~= orig);
    while restant.len() > 0
        invariant
            0 <= i <= orig.len(),
            restant.deep_view() == orig.skip(i as int),
            restant@.len() + i == orig.len(),
            orig.len() <= usize::MAX,
            r.deep_view() == non_blancs(orig.take(i as int)),
        decreases restant@.len(),
    {
        let ghost avant = restant.deep_view();
        let m = restant.remove(0);
        proof {
            let t = orig.take(i + 1);
            assert(t.drop_last() =~= orig.take(i as int));
            assert(orig.skip(i as int)[0] == orig[i as int]);
            assert(restant.deep_view() =~= avant.skip(1));
            assert(avant.skip(1) =~= orig.skip(i + 1));
            assert(m@ =~= orig[i as int]);
        }
        let t = rogner(m.as_slice());
        if t.len() > 0 {
            let ghost avant = r.deep_view();
            let ghost vue = m@;
            assert(m.deep_view() =~= vue);
            r.push(m);
            assert(r.deep_view() =~~= avant.push(vue));
        }
        i = i + 1;
    }
    assert(orig.take(orig.len() as int) =~= orig);
    r
}

fn trouver_shorts(segs: &Vec<Vec<char>>) -> (r: Option<usize>)
    ensures
        match r {
            Some(i) => indice_shorts(segs.deep_view()) == Some(i as int) && i + 1 < segs@.len(),
            None => indice_shorts(segs.deep_view()) is None,
        },
{
    let shorts = caracteres("shorts");
    let ghost ss = segs.deep_view();
    if segs.len() < 2 {
        return None;
    }
    let mut i: usize = 0;
    while i < segs.len() - 1
        invariant
            i <= segs@.len() - 1,
            segs@.len() >= 2,
            shorts@ == "shorts"@,
            ss == segs.deep_view(),
            forall|j: int| 0 <= j < i ==> !egaux_sans_casse_ascii(#[trigger] ss[j], "shorts"@),
        decreases segs@.len() - 1 - i,
    {
        assert(ss[i as int] =~= segs[i as int]@);
        if egaux_ascii(segs[i].as_slice(), shorts.as_slice()) {
            proof {
                let k = choose|k: int|
                    0 <= k < ss.len() - 1 && egaux_sans_casse_ascii(#[trigger] ss[k], "shorts"@)
                        && forall|j: int| 0 <= j < k ==> !egaux_sans_casse_ascii(#[trigger] ss[j], "shorts"@);
                if k < i {
                    assert(!egaux_sans_casse_ascii(ss[k], "shorts"@));
                } else if k > i {
                    assert(!egaux_sans_casse_ascii(ss[i as int], "shorts"@));
                }
            }
            return Some(i);
        }
        i = i + 1;
    }
    None
}

/// Identifiant de vidéo tiré d'une URL (`?v=…`, `/shorts/…`, ou dernier segment).
pub fn extraire_id_depuis_url(url: &str) -> (r: Option<String>)
    ensures
        vue_option(r) == id_depuis_url(url@),
{
    let u = caracteres(url);
    let motif = caracteres("v=");
    proof {
        reveal_strlit("v=");
    }
    match trouver_motif(u.as_slice(), motif.as_slice()) {
        Some(pos) => {
            assert("v="@.len() == 2);
            let n = u.len();
            assert(pos + 2 <= n);
            let apres = a_partir_de(u.as_slice(), pos + 2);
            let esperluette = vec!['&'];
            assert(esperluette@ =~= seq!['&']);
            let cle = avant_premier(apres.as_slice(), esperluette.as_slice());
            let t = rogner(cle.as_slice());
            if t.len() > 0 {
                return Some(chaine_de(t.as_slice()));
            }
        },
        None => {},
    }
    let segs = segments_non_blancs(u.as_slice());
    match trouver_shorts(&segs) {
        Some(i) => {
            assert(segs.deep_view()[i + 1] =~= segs[i + 1]@);
            Some(chaine_de(segs[i + 1].as_slice()))
        },
        None => {
            let n = segs.len();
            if n > 0 {
                assert(segs.deep_view().last() =~= segs[n - 1]@);
                Some(chaine_de(segs[n - 1].as_slice()))
            } else {
                None
            }
        },
    }
}

/// URL de la vidéo d'identifiant donné (rogné), rien s'il est blanc.
pub fn construire_url_video(id: &str) -> (r: Option<String>)
    ensures
        vue_option(r) == url_video(id@),
{
    let c = caracteres(id);
    let t = rogner(c.as_slice());
    if t.len() == 0 {
        return None;
    }
    let mut u = caracteres("https://www.youtube.com/watch?v=");
    etendre(&mut u, t.as_slice());
    Some(chaine_de(u.as_slice()))
}


/// Rogner deux fois revient à rogner une fois.
pub proof fn lemme_rogne_idempotent(s: Seq<char>)
    ensures
        rogne(rogne(s)) == rogne(s),
{
    lemme_rogne(s);
    lemme_rogne_propre(rogne(s));
}

/// L'URL construite pour un identifiant rend cet identifiant, rogné, quand il ne contient
/// pas de `&`.
pub proof fn loi_url_video_puis_id(id: Seq<char>)
    requires
        rogne(id).len() > 0,
        !rogne(id).contains('&'),
    ensures
        url_video(id) is Some,
        id_depuis_url(url_video(id).unwrap()) == Some(rogne(id)),
{
    let t = rogne(id);
    let prefixe = "https://www.youtube.com/watch?v="@;
    reveal_strlit("https://www.youtube.com/watch?v=");
    reveal_strlit("v=");
    let u = prefixe + t;
    assert(prefixe.len() == 32);
    assert(apparait_en(u, "v="@, 30)) by {
        assert(u.subrange(30, 32) =~= "v="@);
    }
    assert forall|j: int| 0 <= j < 30 implies !apparait_en(u, "v="@, j) by {
        assert(u[j] == prefixe[j]);
        assert(prefixe[j] != 'v');
        assert(u.subrange(j, j + 2)[0] == u[j]);
    }
    lemme_premiere_occurrence(u, "v="@, 30);
    assert(u.skip(32) =~= t);
    lemme_position_premier(t, seq!['&']);
    if position_premier(t, seq!['&']) is Some {
        let i = position_premier(t, seq!['&']).unwrap();
        assert(t.contains(t[i]));
    }
    lemme_rogne_idempotent(id);
}


/// `url` d'une entrée quand c'est une chaîne non blanche (gardée telle quelle).
pub open spec fn chaine_json(v: Option<ValeurJson>) -> Option<Seq<char>> {
    match v {
        Some(ValeurJson::Chaine(s)) => if rogne(s@).len() > 0 {
            Some(s@)
        } else {
            None
        },
        _ => None,
    }
}

pub open spec fn ou_sinon(o: Option<Seq<char>>, defaut: Seq<char>) -> Seq<char> {
    match o {
        Some(x) => x,
        None => defaut,
    }
}

/// La vidéo décrite par une entrée de yt-dlp : titre (ou `Titre inconnu`), URL de page
/// (ou champ `url`), identifiant (ou tiré de l'URL) ; une URL relative ou absente est
/// reconstruite depuis l'identifiant. Rien si l'URL ou l'identifiant reste blanc.
pub open spec fn video_de_dump(e: EntreeDump) -> Option<(Seq<char>, Seq<char>, Seq<char>, Option<Seq<char>>)> {
    let titre = ou_sinon(vue_option(e.title), "Titre inconnu"@);
    let url_brute = match e.webpage_url {
        Some(w) => w@,
        None => ou_sinon(chaine_json(e.url), seq![]),
    };
    let id = match e.id {
        Some(i) => i@,
        None => ou_sinon(id_depuis_url(url_brute), seq![]),
    };
    let url = if rogne(url_brute).len() == 0 {
        ou_sinon(url_video(id), seq![])
    } else if commence_par(url_brute, "http://"@) || commence_par(url_brute, "https://"@) {
        url_brute
    } else {
        match id_depuis_url(url_brute) {
            Some(i2) => ou_sinon(url_video(i2), url_brute),
            None => ou_sinon(url_video(id), url_brute),
        }
    };
    if rogne(url).len() == 0 || rogne(id).len() == 0 {
        None
    } else {
        Some((id, titre, url, vue_option(e.upload_date)))
    }
}

/// Les vidéos des entrées, dans l'ordre, les entrées inexploitables sautées.
pub open spec fn videos_de_dump(es: Seq<EntreeDump>) -> Seq<(Seq<char>, Seq<char>, Seq<char>, Option<Seq<char>>)>
    decreases es.len(),
{
    if es.len() == 0 {
        seq![]
    } else {
        let p = videos_de_dump(es.drop_last());
        match video_de_dump(es.last()) {
            Some(v) => p.push(v),
            None => p,
        }
    }
}

/// Vue d'une liste de vidéos.
pub open spec fn vue_videos(vs: Seq<VideoInfo>) -> Seq<(Seq<char>, Seq<char>, Seq<char>, Option<Seq<char>>)> {
    vs.map_values(|v: VideoInfo| vue_video(v))
}

/// `url` d'une entrée quand c'est une chaîne non blanche.
pub fn valeur_json_en_chaine(valeur: Option<ValeurJson>) -> (r: Option<String>)
    ensures
        vue_option(r) == chaine_json(valeur),
{
    match valeur {
        Some(ValeurJson::Chaine(s)) => {
            let c = caracteres(s.as_str());
            let t = rogner(c.as_slice());
            if t.len() > 0 {
                Some(s)
            } else {
                None
            }
        },
        _ => None,
    }
}

fn est_absolue(u: &[char]) -> (r: bool)
    ensures
        r == (commence_par(u@, "http://"@) || commence_par(u@, "https://"@)),
{
    let http = caracteres("http://");
    let https = caracteres("https://");
    apparait_a(u, http.as_slice(), 0) || apparait_a(u, https.as_slice(), 0)
}

fn non_blanc(s: &String) -> (r: bool)
    ensures
        r == (rogne(s@).len() > 0),
{
    let c = caracteres(s.as_str());
    let t = rogner(c.as_slice());
    t.len() > 0
}

fn video_depuis_entree(e: EntreeDump) -> (r: Option<VideoInfo>)
    ensures
        match r {
            Some(v) => video_de_dump(e) == Some(vue_video(v)),
            None => video_de_dump(e) is None,
        },
{
    let ghost e0 = e;
    let titre = match e.title {
        Some(t) => t,
        None => "Titre inconnu".to_owned(),
    };
    let url_brute = match e.webpage_url {
        Some(w) => w,
        None => match valeur_json_en_chaine(e.url) {
            Some(s) => s,
            None => String::new(),
        },
    };
    let id = match e.id {
        Some(i) => i,
        None => match extraire_id_depuis_url(url_brute.as_str()) {
            Some(i) => i,
            None => String::new(),
        },
    };
    let cb = caracteres(url_brute.as_str());
    let url = if !non_blanc(&url_brute) {
        match construire_url_video(id.as_str()) {
            Some(u) => u,
            None => String::new(),
        }
    } else if est_absolue(cb.as_slice()) {
        url_brute
    } else {
        match extraire_id_depuis_url(url_brute.as_str()) {
            Some(i2) => match construire_url_video(i2.as_str()) {
                Some(u) => u,
                None => url_brute,
            },
            None => match construire_url_video(id.as_str()) {
                Some(u) => u,
                None => url_brute,
            },
        }
    };
    if !non_blanc(&url) || !non_blanc(&id) {
        return None;
    }
    Some(VideoInfo { id, titre, url, date_publication: e.upload_date })
}

/// Les vidéos exploitables des entrées de yt-dlp, dans l'ordre.
pub fn selectionner_entrees_depuis_dump(entrees: Vec<EntreeDump>) -> (r: Vec<VideoInfo>)
    ensures
        vue_videos(r@) == videos_de_dump(entrees@),
{
    let ghost orig = entrees@;
    let mut restant = entrees;
    let mut r: Vec<VideoInfo> = Vec::new();
    let ghost mut i: int = 0;
    assert(orig.skip(0) =~= orig);
    while restant.len() > 0
        invariant
            0 <= i <= orig.len(),
            restant@ == orig.skip(i),
            vue_videos(r@) == videos_de_dump(orig.take(i)),
        decreases restant@.len(),
    {
        let e = restant.remove(0);
        proof {
            let t = orig.take(i + 1);
            assert(t.drop_last() =~= orig.take(i));
            assert(t.last() == orig[i]);
            assert(orig.skip(i)[0] == orig[i]);
            assert(orig.skip(i).remove(0) =~= orig.skip(i + 1));
            i = i + 1;
        }
        match video_depuis_entree(e) {
            Some(v) => {
                let ghost avant = r@;
                r.push(v);
                assert(vue_videos(r@) =~= vue_videos(avant).push(vue_video(v)));
            },
            None => {},
        }
    }
    assert(orig.take(orig.len() as int) =~= orig);
    r
}


/// Les URL essayées pour une chaîne : l'URL rognée si elle finit par `/videos`, sinon
/// l'URL rognée puis l'URL sans ses `/` finaux suivie de `/videos`.
pub open spec fn candidats_liste(url: Seq<char>) -> Seq<Seq<char>> {
    let c = rogne(url);
    if finit_par(c, "/videos"@) {
        seq![c]
    } else {
        seq![c, sans_fin(c, '/') + "/videos"@]
    }
}

/// Forme de la sortie attendue de yt-dlp.
#[derive(Debug, Clone, Copy, PartialEq, Eq, Structural)]
pub enum ModeListe {
    /// `--dump-json` : un objet JSON par ligne.
    LigneParLigne,
    /// `-J` : un seul objet JSON.
    JsonUnique,
}

/// Arguments d'une tentative de liste : `--dump-json` (une entrée par ligne), ou en repli
/// `-J --flat-playlist` (un seul objet JSON, playlist à plat), pour les `nb` premières
/// vidéos.
pub open spec fn arguments_liste(mode: ModeListe, nb: nat, url: Seq<char>) -> Seq<Seq<char>> {
    match mode {
        ModeListe::LigneParLigne => seq![
            "--no-warnings"@,
            "--dump-json"@,
            "--playlist-items"@,
            "1-"@ + decimal(nb),
            url,
        ],
        ModeListe::JsonUnique => seq![
            "--no-warnings"@,
            "-J"@,
            "--flat-playlist"@,
            "--playlist-items"@,
            "1-"@ + decimal(nb),
            url,
        ],
    }
}

pub open spec fn vue_chaines(a: Seq<String>) -> Seq<Seq<char>> {
    a.map_values(|s: String| s@)
}

/// Une exécution de yt-dlp demandée à l'appelant.
pub struct DemandeYtDlp {
    pub mode: ModeListe,
    pub arguments: Vec<String>,
}

/// Où en est la recherche des dernières vidéos d'une chaîne.
pub struct ListeVideosEnCours {
    candidats: Vec<String>,
    nb: usize,
    etape: usize,
}

/// Ce que fait l'appelant ensuite.
pub enum PasListe {
    Executer(DemandeYtDlp),
    Fini(Result<Vec<VideoInfo>, ErreurYoutube>),
}

/// Résultat d'une tentative : les `nb` premières vidéos lues, s'il y en a.
pub open spec fn resultat_tentative(es: Option<Seq<EntreeDump>>, nb: nat) -> Option<Seq<(Seq<char>, Seq<char>, Seq<char>, Option<Seq<char>>)>> {
    match es {
        Some(es) => {
            let v = videos_de_dump(es);
            let v2 = if v.len() <= nb { v } else { v.take(nb as int) };
            if v2.len() > 0 {
                Some(v2)
            } else {
                None
            }
        },
        None => None,
    }
}

impl ListeVideosEnCours {
    #[verifier::type_invariant]
    spec fn bien_forme(self) -> bool {
        &&& 1 <= self.candidats@.len() <= 2
        &&& self.nb >= 1
        &&& self.etape < 2 * self.candidats@.len()
    }

    /// Les URL essayées.
    pub closed spec fn candidats_vue(self) -> Seq<Seq<char>> {
        vue_chaines(self.candidats@)
    }

    /// Nombre de vidéos voulues.
    pub closed spec fn nb_vue(self) -> nat {
        self.nb as nat
    }

    /// Numéro de la tentative en cours : d'abord chaque URL en `--dump-json`, puis chaque URL en `-J`.
    pub closed spec fn etape_vue(self) -> nat {
        self.etape as nat
    }

    /// Nombre total de tentatives.
    pub open spec fn nb_tentatives(self) -> nat {
        2 * self.candidats_vue().len()
    }

    /// La demande de la tentative en cours.
    pub open spec fn demande_attendue(self) -> (ModeListe, Seq<Seq<char>>) {
        let n = self.candidats_vue().len();
        let k = self.etape_vue();
        let mode = if k < n {
            ModeListe::LigneParLigne
        } else {
            ModeListe::JsonUnique
        };
        (mode, arguments_liste(mode, self.nb_vue(), self.candidats_vue()[(k % n) as int]))
    }

    fn demande(&self) -> (r: DemandeYtDlp)
        ensures
            (r.mode, vue_chaines(r.arguments@)) == self.demande_attendue(),
    {
        proof {
            use_type_invariant(self);
        }
        let n = self.candidats.len();
        let k = self.etape;
        let mode = if k < n {
            ModeListe::LigneParLigne
        } else {
            ModeListe::JsonUnique
        };
        let mut items = caracteres("1-");
        ecrire_decimal(self.nb, &mut items);
        let url = self.candidats[k % n].clone();
        let mut arguments: Vec<String> = Vec::new();
        arguments.push("--no-warnings".to_owned());
        match mode {
            ModeListe::LigneParLigne => {
                arguments.push("--dump-json".to_owned());
            },
            ModeListe::JsonUnique => {
                arguments.push("-J".to_owned());
                arguments.push("--flat-playlist".to_owned());
            },
        }
        arguments.push("--playlist-items".to_owned());
        arguments.push(chaine_de(items.as_slice()));
        arguments.push(url);
        assert(vue_chaines(arguments@) =~= arguments_liste(mode, self.nb as nat, self.candidats@[(k % n) as int]@));
        DemandeYtDlp { mode, arguments }
    }

    /// Reçoit les entrées lues par la commande demandée, ou rien si elle a échoué ou n'a
    /// rien rendu d'exploitable. Rend les vidéos dès qu'une tentative en donne, sinon la
    /// demande suivante, sinon `ListeVide`.
    pub fn recevoir(&mut self, entrees: Option<Vec<EntreeDump>>) -> (r: PasListe)
        ensures
            final(self).candidats_vue() == old(self).candidats_vue(),
            final(self).nb_vue() == old(self).nb_vue(),
            match resultat_tentative(
                match entrees {
                    Some(es) => Some(es@),
                    None => None,
                },
                old(self).nb_vue(),
            ) {
                Some(vs) => r matches PasListe::Fini(Ok(v)) && vue_videos(v@) == vs
                    && final(self).etape_vue() == old(self).etape_vue(),
                None => if old(self).etape_vue() + 1 < old(self).nb_tentatives() {
                    &&& final(self).etape_vue() == old(self).etape_vue() + 1
                    &&& r matches PasListe::Executer(d) && (d.mode, vue_chaines(d.arguments@))
                        == final(self).demande_attendue()
                } else {
                    &&& final(self).etape_vue() == old(self).etape_vue()
                    &&& r matches PasListe::Fini(Err(ErreurYoutube::ListeVide))
                },
            },
    {
        proof {
            use_type_invariant(&*self);
        }
        match entrees {
            Some(es) => {
                let mut vs = selectionner_entrees_depuis_dump(es);
                let ghost v = vs@;
                vs.truncate(self.nb);
                proof {
                    if v.len() > self.nb {
                        assert(vs@ =~= v.take(self.nb as int));
                    }
                    assert(vue_videos(vs@) =~= if vue_videos(v).len() <= self.nb { vue_videos(v) } else { vue_videos(v).take(self.nb as int) });
                }
                if vs.len() > 0 {
                    return PasListe::Fini(Ok(vs));
                }
            },
            None => {},
        }
        let n = self.candidats.len();
        if self.etape + 1 < 2 * n {
            self.etape = self.etape + 1;
            PasListe::Executer(self.demande())
        } else {
            PasListe::Fini(Err(ErreurYoutube::ListeVide))
        }
    }
}

/// Une tentative qui aboutit rend au moins une et au plus `nb` vidéos.
pub proof fn loi_tentative_au_plus_nb(es: Option<Seq<EntreeDump>>, nb: nat)
    ensures
        match resultat_tentative(es, nb) {
            Some(v) => 0 < v.len() <= nb,
            None => true,
        },
{
}

fn candidats_url(channel_url: &str) -> (r: Vec<String>)
    ensures
        vue_chaines(r@) == candidats_liste(channel_url@),
        1 <= r@.len() <= 2,
{
    let cs = caracteres(channel_url);
    let c = rogner(cs.as_slice());
    let suffixe = caracteres("/videos");
    let n = c.len();
    let m = suffixe.len();
    let mut r: Vec<String> = Vec::new();
    if n >= m && apparait_a(c.as_slice(), suffixe.as_slice(), n - m) {
        r.push(chaine_de(c.as_slice()));
        assert(vue_chaines(r@) =~= candidats_liste(channel_url@));
    } else {
        proof {
            if !(n >= m) {
                assert(!finit_par(c@, "/videos"@));
            }
        }
        let mut base = retirer_fin(c.as_slice(), '/');
        etendre(&mut base, suffixe.as_slice());
        r.push(chaine_de(c.as_slice()));
        r.push(chaine_de(base.as_slice()));
        assert(vue_chaines(r@) =~= candidats_liste(channel_url@));
    }
    r
}

/// Commence la recherche des `nb_videos` dernières vidéos d'une chaîne (au moins une) :
/// rend l'état et la première exécution de yt-dlp à faire. L'appelant exécute chaque
/// demande et passe le résultat à `ListeVideosEnCours::recevoir` jusqu'à `PasListe::Fini`.
pub fn lister_dernieres_videos(channel_url: &str, nb_videos: usize) -> (r: (
    ListeVideosEnCours,
    DemandeYtDlp,
))
    ensures
        r.0.candidats_vue() == candidats_liste(channel_url@),
        r.0.nb_vue() == if nb_videos >= 1 { nb_videos as nat } else { 1 },
        r.0.etape_vue() == 0,
        (r.1.mode, vue_chaines(r.1.arguments@)) == r.0.demande_attendue(),
{
    let nb = if nb_videos >= 1 { nb_videos } else { 1 };
    let candidats = candidats_url(channel_url);
    let etat = ListeVideosEnCours { candidats, nb, etape: 0 };
    let d = etat.demande();
    (etat, d)
}

} // verus!
