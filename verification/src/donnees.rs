//! Arborescence des données locales : noms de dossiers, emplacements des vidéos,
//! des textes libres et du modèle local (chemins relatifs à la racine des données).

use vstd::prelude::*;
use crate::texte::{
    est_blanc_spec, lemme_rogne_propre,
    a_partir_de, avant_premier, avant_separateur, caracteres, chaine_de, decoupe, decouper,
    position_parmi, position_premier, rogne, rogner, lemme_position_premier, lemme_position_premier_unique,
};
use crate::youtube::{non_blancs, vue_chaines};

verus! {

/// Caractère gardé dans un nom de dossier : alphanumérique ASCII, `-`, `_` ou `.`.
pub open spec fn car_dossier(c: char) -> bool {
    ('A' <= c && c <= 'Z') || ('a' <= c && c <= 'z') || ('0' <= c && c <= '9') || c == '-' || c == '_' || c == '.'
}

/// Un caractère retiré aux bords d'un nom de dossier : espace ou point.
pub open spec fn bord_retire(c: char) -> bool {
    c == ' ' || c == '.'
}

/// Retire espaces et points aux deux bords (`trim_matches([' ', '.'])`).
pub open spec fn sans_bords_debut(s: Seq<char>) -> Seq<char>
    decreases s.len(),
{
    if s.len() > 0 && bord_retire(s[0]) {
        sans_bords_debut(s.skip(1))
    } else {
        s
    }
}

pub open spec fn sans_bords_fin(s: Seq<char>) -> Seq<char>
    decreases s.len(),
{
    if s.len() > 0 && bord_retire(s.last()) {
        sans_bords_fin(s.drop_last())
    } else {
        s
    }
}

pub open spec fn remplace_interdits(s: Seq<char>) -> Seq<char> {
    s.map_values(|c: char| if car_dossier(c) { c } else { '_' })
}

/// Nom de dossier sûr : le nom rogné, chaque caractère hors `[A-Za-z0-9._-]` remplacé par `_`,
/// espaces et points retirés aux bords ; `inconnu` s'il ne reste rien.
pub open spec fn nom_dossier(nom: Seq<char>) -> Seq<char> {
    let brut = rogne(nom);
    let s = sans_bords_fin(sans_bords_debut(remplace_interdits(brut)));
    if brut.len() == 0 || s.len() == 0 {
        "inconnu"@
    } else {
        s
    }
}

fn retirer_bords(s: &[char]) -> (r: Vec<char>)
    ensures
        r@ == sans_bords_fin(sans_bords_debut(s@)),
{
    let n = s.len();
    let mut i: usize = 0;
    assert(s@.skip(0) =~= s@);
    while i < n && (s[i] == ' ' || s[i] == '.')
        invariant
            i <= n,
            n == s@.len(),
            sans_bords_debut(s@) == sans_bords_debut(s@.skip(i as int)),
        decreases n - i,
    {
        assert(s@.skip(i as int).skip(1) =~= s@.skip(i + 1));
        i = i + 1;
    }
    let ghost d = s@.skip(i as int);
    assert(sans_bords_debut(d) == d) by {
        if d.len() > 0 {
            assert(d[0] == s@[i as int]);
        }
    }
    let mut j: usize = n;
    while j > i && (s[j - 1] == ' ' || s[j - 1] == '.')
        invariant
            i <= j <= n,
            n == s@.len(),
            d == s@.skip(i as int),
            sans_bords_fin(d) == sans_bords_fin(s@.subrange(i as int, j as int)),
        decreases j,
    {
        assert(s@.subrange(i as int, j as int).drop_last() =~= s@.subrange(i as int, j - 1));
        j = j - 1;
    }
    let ghost t = s@.subrange(i as int, j as int);
    assert(sans_bords_fin(t) == t) by {
        if t.len() > 0 {
            assert(t.last() == s@[j - 1]);
        }
    }
    assert(s@.skip(i as int) =~= s@.subrange(i as int, n as int));
    let mut r: Vec<char> = Vec::new();
    let mut k: usize = i;
    while k < j
        invariant
            i <= k <= j <= n,
            n == s@.len(),
            r@ =~= s@.subrange(i as int, k as int),
        decreases j - k,
    {
        r.push(s[k]);
        k = k + 1;
    }
    r
}

/// Nom de dossier sûr tiré d'un nom quelconque.
pub fn nettoyer_nom_dossier(nom: &str) -> (r: String)
    ensures
        r@ == nom_dossier(nom@),
{
    let cs = caracteres(nom);
    let brut = rogner(cs.as_slice());
    if brut.len() == 0 {
        return "inconnu".to_owned();
    }
    let mut s: Vec<char> = Vec::new();
    let mut i: usize = 0;
    while i < brut.len()
        invariant
            i <= brut@.len(),
            s@ =~= remplace_interdits(brut@.take(i as int)),
        decreases brut@.len() - i,
    {
        let c = brut[i];
        let ok = ('A' <= c && c <= 'Z') || ('a' <= c && c <= 'z') || ('0' <= c && c <= '9') || c == '-' || c == '_' || c == '.';
        s.push(if ok { c } else { '_' });
        i = i + 1;
    }
    assert(brut@.take(brut@.len() as int) =~= brut@);
    let t = retirer_bords(s.as_slice());
    if t.len() == 0 {
        "inconnu".to_owned()
    } else {
        chaine_de(t.as_slice())
    }
}

/// La clé de dossier d'une chaîne : le handle après le premier `@` (jusqu'à `/`, `?`, `&`
/// ou `#`), sinon le dernier segment non blanc de l'URL, sinon `inconnu` ; nettoyé.
pub open spec fn cle_chaine(url: Seq<char>) -> Seq<char> {
    match position_premier(url, seq!['@']) {
        Some(p) => nom_dossier(avant_separateur(url.skip(p + 1), seq!['/', '?', '&', '#'])),
        None => {
            let segs = non_blancs(decoupe(url, '/'));
            nom_dossier(if segs.len() > 0 { segs.last() } else { "inconnu"@ })
        },
    }
}

/// Clé de dossier d'une chaîne depuis son URL (ex. `https://www.youtube.com/@oxyad` → `oxyad`).
pub fn cle_chaine_depuis_url(url_chaine: &str) -> (r: String)
    ensures
        r@ == cle_chaine(url_chaine@),
{
    let u = caracteres(url_chaine);
    let arobase = vec!['@'];
    assert(arobase@ =~= seq!['@']);
    match position_parmi(u.as_slice(), arobase.as_slice()) {
        Some(p) => {
            proof {
                lemme_position_premier(u@, arobase@);
            }
            let n = u.len();
            assert(p < n);
            let apres = a_partir_de(u.as_slice(), p + 1);
            let seps = vec!['/', '?', '&', '#'];
            assert(seps@ =~= seq!['/', '?', '&', '#']);
            let handle = avant_premier(apres.as_slice(), seps.as_slice());
            let h = chaine_de(handle.as_slice());
            nettoyer_nom_dossier(h.as_str())
        },
        None => {
            let morceaux = decouper(u.as_slice(), '/');
            let mut segs: Vec<Vec<char>> = Vec::new();
            let mut i: usize = 0;
            while i < morceaux.len()
                invariant
                    i <= morceaux@.len(),
                    segs.deep_view() == non_blancs(morceaux.deep_view().take(i as int)),
                decreases morceaux@.len() - i,
            {
                proof {
                    let t = morceaux.deep_view().take(i + 1);
                    assert(t.drop_last() =~= morceaux.deep_view().take(i as int));
                    assert(t.last() =~= morceaux[i as int]@);
                }
                let t = rogner(morceaux[i].as_slice());
                if t.len() > 0 {
                    let mut copie: Vec<char> = Vec::new();
                    crate::texte::etendre(&mut copie, morceaux[i].as_slice());
                    crate::texte::pousser_morceau(&mut segs, copie);
                }
                i = i + 1;
            }
            assert(morceaux.deep_view().take(morceaux@.len() as int) =~= morceaux.deep_view());
            let n = segs.len();
            if n > 0 {
                assert(segs.deep_view().last() =~= segs[n - 1]@);
                let d = chaine_de(segs[n - 1].as_slice());
                nettoyer_nom_dossier(d.as_str())
            } else {
                nettoyer_nom_dossier("inconnu")
            }
        },
    }
}


proof fn lemme_sans_bords_debut(s: Seq<char>)
    ensures
        exists|k: int| 0 <= k <= s.len() && sans_bords_debut(s) =~= #[trigger] s.skip(k),
        sans_bords_debut(s).len() > 0 ==> !bord_retire(sans_bords_debut(s)[0]),
    decreases s.len(),
{
    if s.len() > 0 && bord_retire(s[0]) {
        lemme_sans_bords_debut(s.skip(1));
        let k = choose|k: int| 0 <= k <= s.skip(1).len() && sans_bords_debut(s.skip(1)) =~= #[trigger] s.skip(1).skip(k);
        assert(s.skip(1).skip(k) =~= s.skip(k + 1));
    } else {
        assert(s.skip(0) =~= s);
    }
}

proof fn lemme_sans_bords_fin(s: Seq<char>)
    ensures
        exists|k: int| 0 <= k <= s.len() && sans_bords_fin(s) =~= #[trigger] s.take(k),
        sans_bords_fin(s).len() > 0 ==> !bord_retire(sans_bords_fin(s).last()),
    decreases s.len(),
{
    if s.len() > 0 && bord_retire(s.last()) {
        lemme_sans_bords_fin(s.drop_last());
        let k = choose|k: int| 0 <= k <= s.drop_last().len() && sans_bords_fin(s.drop_last()) =~= #[trigger] s.drop_last().take(k);
        assert(s.drop_last().take(k) =~= s.take(k));
    } else {
        assert(s.take(s.len() as int) =~= s);
    }
}

/// Nom de dossier sûr : tous ses caractères sont permis, aucun blanc.
pub open spec fn nom_dossier_sur(n: Seq<char>) -> bool {
    &&& n.len() > 0
    &&& forall|i: int| 0 <= i < n.len() ==> car_dossier(#[trigger] n[i])
    &&& !bord_retire(n[0])
    &&& !bord_retire(n.last())
}

/// Un nom de dossier nettoyé n'est jamais vide, n'a que des caractères de `[A-Za-z0-9._-]`,
/// ne commence ni ne finit par un point ; le nettoyer à nouveau ne le change pas.
pub proof fn loi_nom_dossier(nom: Seq<char>)
    ensures
        nom_dossier_sur(nom_dossier(nom)),
        nom_dossier(nom_dossier(nom)) == nom_dossier(nom),
{
    reveal_strlit("inconnu");
    let brut = rogne(nom);
    let m = remplace_interdits(brut);
    assert forall|i: int| 0 <= i < m.len() implies car_dossier(#[trigger] m[i]) by {}
    let d = sans_bords_debut(m);
    lemme_sans_bords_debut(m);
    let k1 = choose|k: int| 0 <= k <= m.len() && d =~= #[trigger] m.skip(k);
    assert forall|i: int| 0 <= i < d.len() implies car_dossier(#[trigger] d[i]) by {
        assert(d[i] == m[i + k1]);
    }
    let f = sans_bords_fin(d);
    lemme_sans_bords_fin(d);
    let k2 = choose|k: int| 0 <= k <= d.len() && f =~= #[trigger] d.take(k);
    assert forall|i: int| 0 <= i < f.len() implies car_dossier(#[trigger] f[i]) by {
        assert(f[i] == d[i]);
    }
    if f.len() > 0 {
        assert(f[0] == d[0]);
    }
    let r = nom_dossier(nom);
    assert(nom_dossier_sur(r));
    lemme_point_fixe(r);
}

proof fn lemme_point_fixe(r: Seq<char>)
    requires
        nom_dossier_sur(r),
    ensures
        nom_dossier(r) == r,
{
    assert forall|i: int| 0 <= i < r.len() implies !est_blanc_spec(#[trigger] r[i]) by {
        assert(car_dossier(r[i]));
    }
    assert(!est_blanc_spec(r[0]) && !est_blanc_spec(r.last()));
    lemme_rogne_propre(r);
    assert(remplace_interdits(r) =~= r);
    assert(sans_bords_debut(r) == r);
    assert(sans_bords_fin(r) == r);
}


/// Nom du fichier du modèle local.
pub const NOM_FICHIER_MODELE_LOCAL: &'static str = "MARTHA-0.8B-Qwen3.5-Omni.Q8_0.gguf";

/// Identifiant affiché du modèle local.
pub const IDENTIFIANT_MODELE_LOCAL: &'static str = "MARTHA-0.8B-Qwen3.5-Omni (Q8_0)";

/// Adresse de téléchargement du modèle local.
pub const URL_MODELE_LOCAL: &'static str = "https://huggingface.co/mradermacher/MARTHA-0.8B-Qwen3.5-Omni-GGUF/resolve/main/MARTHA-0.8B-Qwen3.5-Omni.Q8_0.gguf";

/// Dossier d'une vidéo, relatif à la racine des données :
/// `chaines/<clé de chaîne ou direct>/videos/<identifiant nettoyé>`.
pub open spec fn dossier_video(channel_url: Option<Seq<char>>, id_video: Seq<char>) -> Seq<Seq<char>> {
    let cle = match channel_url {
        Some(u) => if rogne(u).len() > 0 {
            cle_chaine(u)
        } else {
            "direct"@
        },
        None => "direct"@,
    };
    seq!["chaines"@, cle, "videos"@, nom_dossier(id_video)]
}

pub open spec fn vue_option_str(o: Option<&str>) -> Option<Seq<char>> {
    match o {
        Some(s) => Some(s@),
        None => None,
    }
}

/// Dossier d'une vidéo (segments sous la racine des données).
pub fn repertoire_video(channel_url: Option<&str>, id_video: &str) -> (r: Vec<String>)
    ensures
        vue_chaines(r@) == dossier_video(vue_option_str(channel_url), id_video@),
{
    let cle = match channel_url {
        Some(u) => {
            let c = caracteres(u);
            let t = rogner(c.as_slice());
            if t.len() > 0 {
                cle_chaine_depuis_url(u)
            } else {
                "direct".to_owned()
            }
        },
        None => "direct".to_owned(),
    };
    let mut r: Vec<String> = Vec::new();
    r.push("chaines".to_owned());
    r.push(cle);
    r.push("videos".to_owned());
    r.push(nettoyer_nom_dossier(id_video));
    assert(vue_chaines(r@) =~= dossier_video(vue_option_str(channel_url), id_video@));
    r
}

/// Fichier du transcript mis en cache d'une vidéo : `<dossier de la vidéo>/transcript.txt`.
pub fn chemin_transcript_cache(channel_url: Option<&str>, id_video: &str) -> (r: Vec<String>)
    ensures
        vue_chaines(r@) == dossier_video(vue_option_str(channel_url), id_video@).push("transcript.txt"@),
{
    let mut r = repertoire_video(channel_url, id_video);
    let ghost avant = r@;
    r.push("transcript.txt".to_owned());
    assert(vue_chaines(r@) =~= vue_chaines(avant).push("transcript.txt"@));
    r
}

/// Dossier d'un texte libre : `textes_libres/<identifiant nettoyé>`.
pub fn repertoire_texte_libre(id_texte: &str) -> (r: Vec<String>)
    ensures
        vue_chaines(r@) == seq!["textes_libres"@, nom_dossier(id_texte@)],
{
    let mut r: Vec<String> = Vec::new();
    r.push("textes_libres".to_owned());
    r.push(nettoyer_nom_dossier(id_texte));
    assert(vue_chaines(r@) =~= seq!["textes_libres"@, nom_dossier(id_texte@)]);
    r
}

/// Dossier des modèles locaux : `modeles_locaux`.
pub fn repertoire_modeles_locaux() -> (r: Vec<String>)
    ensures
        vue_chaines(r@) == seq!["modeles_locaux"@],
{
    let mut r: Vec<String> = Vec::new();
    r.push("modeles_locaux".to_owned());
    assert(vue_chaines(r@) =~= seq!["modeles_locaux"@]);
    r
}

/// Fichier du modèle local : `modeles_locaux/<nom du fichier GGUF>`.
pub fn chemin_modele_local() -> (r: Vec<String>)
    ensures
        vue_chaines(r@) == seq!["modeles_locaux"@, NOM_FICHIER_MODELE_LOCAL@],
{
    let mut r = repertoire_modeles_locaux();
    let ghost avant = r@;
    let nom = NOM_FICHIER_MODELE_LOCAL.to_owned();
    assert(nom@ == NOM_FICHIER_MODELE_LOCAL@);
    r.push(nom);
    assert(vue_chaines(r@) =~= vue_chaines(avant).push(nom@));
    assert(vue_chaines(r@) =~= seq!["modeles_locaux"@, NOM_FICHIER_MODELE_LOCAL@]);
    r
}

/// Nom du fichier où enregistrer un résumé dans le dossier de la vidéo :
/// `carte_mentale.md` pour ce format, `<id>_resume.txt` sinon.
pub open spec fn fichier_resume(id: Seq<char>, format: Seq<char>) -> Seq<char> {
    if format == "carte_mentale"@ {
        "carte_mentale.md"@
    } else {
        id + "_resume.txt"@
    }
}

pub fn nom_fichier_resume(id: &str, format: &str) -> (r: String)
    ensures
        r@ == fichier_resume(id@, format@),
{
    let f = caracteres(format);
    let cm = caracteres("carte_mentale");
    if crate::texte::memes(f.as_slice(), cm.as_slice()) {
        "carte_mentale.md".to_owned()
    } else {
        let mut v = caracteres(id);
        let suffixe = caracteres("_resume.txt");
        crate::texte::etendre(&mut v, suffixe.as_slice());
        chaine_de(v.as_slice())
    }
}

/// Les formats dont un résumé peut être enregistré : `carte_mentale` et l'ancien `bullets`.
pub fn format_resume_reconnu(format: &str) -> (r: bool)
    ensures
        r == (format@ == "carte_mentale"@ || format@ == "bullets"@),
{
    let f = caracteres(format);
    let a = caracteres("carte_mentale");
    let b = caracteres("bullets");
    crate::texte::memes(f.as_slice(), a.as_slice()) || crate::texte::memes(f.as_slice(), b.as_slice())
}

/// Ancien fichier de résumé, à la racine des données : `resumes/<id>_bullets.txt`.
pub fn chemin_ancien_resume(id: &str) -> (r: Vec<String>)
    ensures
        vue_chaines(r@) == seq!["resumes"@, id@ + "_bullets.txt"@],
{
    let mut v = caracteres(id);
    let s = caracteres("_bullets.txt");
    crate::texte::etendre(&mut v, s.as_slice());
    let mut r: Vec<String> = Vec::new();
    r.push("resumes".to_owned());
    r.push(chaine_de(v.as_slice()));
    assert(vue_chaines(r@) =~= seq!["resumes"@, id@ + "_bullets.txt"@]);
    r
}


/// Dossier d'une vidéo sous une chaîne donnée par le nom de son dossier :
/// `chaines/<chaîne>/videos/<identifiant nettoyé>`.
pub open spec fn dossier_sous_chaine(chaine: Seq<char>, id_video: Seq<char>) -> Seq<Seq<char>> {
    seq!["chaines"@, chaine, "videos"@, nom_dossier(id_video)]
}

/// Dossier d'une vidéo sous le dossier d'une chaîne.
pub fn dossier_video_sous_chaine(chaine: &str, id_video: &str) -> (r: Vec<String>)
    ensures
        vue_chaines(r@) == dossier_sous_chaine(chaine@, id_video@),
{
    let mut r: Vec<String> = Vec::new();
    r.push("chaines".to_owned());
    r.push(chaine.to_owned());
    r.push("videos".to_owned());
    r.push(nettoyer_nom_dossier(id_video));
    assert(vue_chaines(r@) =~= dossier_sous_chaine(chaine@, id_video@));
    r
}

/// La carte mentale de la vidéo sous chacune des chaînes, dans l'ordre.
pub open spec fn cartes_sous_chaines(chaines: Seq<Seq<char>>, id_video: Seq<char>) -> Seq<Seq<Seq<char>>>
    decreases chaines.len(),
{
    if chaines.len() == 0 {
        seq![]
    } else {
        cartes_sous_chaines(chaines.drop_last(), id_video).push(
            dossier_sous_chaine(chaines.last(), id_video).push("carte_mentale.md"@),
        )
    }
}

/// Les fichiers où chercher la carte mentale d'une vidéo, dans l'ordre : dans son dossier
/// attendu ; dans le dossier de la vidéo sous chacune des chaînes présentes (la clé de la
/// chaîne a pu changer) ; l'ancien fichier de résumé.
pub open spec fn chemins_carte(
    channel_url: Option<Seq<char>>,
    id_video: Seq<char>,
    chaines: Seq<Seq<char>>,
) -> Seq<Seq<Seq<char>>> {
    seq![dossier_video(channel_url, id_video).push("carte_mentale.md"@)] + cartes_sous_chaines(
        chaines,
        id_video,
    ) + seq![seq!["resumes"@, id_video + "_bullets.txt"@]]
}

pub open spec fn vue_chemins(r: Seq<Vec<String>>) -> Seq<Seq<Seq<char>>> {
    r.map_values(|v: Vec<String>| vue_chaines(v@))
}

/// Les fichiers où chercher la carte mentale enregistrée d'une vidéo, compte tenu des
/// dossiers de chaînes présents sous `chaines/`.
pub fn chemins_carte_mentale(
    channel_url: Option<&str>,
    id_video: &str,
    chaines_presentes: &Vec<String>,
) -> (r: Vec<Vec<String>>)
    ensures
        vue_chemins(r@) == chemins_carte(vue_option_str(channel_url), id_video@, vue_chaines(chaines_presentes@)),
{
    let mut r: Vec<Vec<String>> = Vec::new();
    let mut premier = repertoire_video(channel_url, id_video);
    let ghost d = premier@;
    premier.push("carte_mentale.md".to_owned());
    assert(vue_chaines(premier@) =~= vue_chaines(d).push("carte_mentale.md"@));
    r.push(premier);
    let ghost cs = vue_chaines(chaines_presentes@);
    let mut i: usize = 0;
    assert(vue_chemins(r@) =~= seq![dossier_video(vue_option_str(channel_url), id_video@).push("carte_mentale.md"@)] + cartes_sous_chaines(cs.take(0), id_video@));
    while i < chaines_presentes.len()
        invariant
            i <= chaines_presentes@.len(),
            cs == vue_chaines(chaines_presentes@),
            vue_chemins(r@) == seq![dossier_video(vue_option_str(channel_url), id_video@).push("carte_mentale.md"@)]
                + cartes_sous_chaines(cs.take(i as int), id_video@),
        decreases chaines_presentes@.len() - i,
    {
        let mut c = dossier_video_sous_chaine(chaines_presentes[i].as_str(), id_video);
        let ghost dc = c@;
        c.push("carte_mentale.md".to_owned());
        assert(vue_chaines(c@) =~= vue_chaines(dc).push("carte_mentale.md"@));
        let ghost avant = r@;
        r.push(c);
        proof {
            let t = cs.take(i + 1);
            assert(t.drop_last() =~= cs.take(i as int));
            assert(t.last() == chaines_presentes@[i as int]@);
            assert(vue_chemins(r@) =~= vue_chemins(avant).push(vue_chaines(c@)));
        }
        i = i + 1;
    }
    assert(cs.take(chaines_presentes@.len() as int) =~= cs);
    let ancien = chemin_ancien_resume(id_video);
    let ghost avant = r@;
    r.push(ancien);
    assert(vue_chemins(r@) =~= vue_chemins(avant).push(vue_chaines(ancien@)));
    r
}

/// Caractère qui termine le handle d'une URL de chaîne : `/`, `?`, `&` ou `#`.
pub open spec fn fin_de_handle(c: char) -> bool {
    c == '/' || c == '?' || c == '&' || c == '#'
}

proof fn lemme_separateurs_handle(c: char)
    ensures
        seq!['/', '?', '&', '#'].contains(c) <==> fin_de_handle(c),
        seq!['@'].contains(c) <==> c == '@',
{
    let seps = seq!['/', '?', '&', '#'];
    if fin_de_handle(c) {
        if c == '/' {
            assert(seps[0] == c);
        } else if c == '?' {
            assert(seps[1] == c);
        } else if c == '&' {
            assert(seps[2] == c);
        } else {
            assert(seps[3] == c);
        }
    }
    if c == '@' {
        assert(seq!['@'][0] == c);
    }
}

/// Le handle `h` d'une URL `p@h` (sans `@` avant) donne la clé de la chaîne, que l'URL
/// s'arrête là ou continue après un `/`, un `?` (paramètres d'un lien de partage, par
/// exemple `?si=…`), un `&` ou un `#` : tous ces liens rangent la chaîne dans le même
/// dossier, celui du handle nettoyé.
pub proof fn loi_cle_chaine_handle(p: Seq<char>, h: Seq<char>, c: char, q: Seq<char>)
    requires
        !p.contains('@'),
        forall|i: int| 0 <= i < h.len() ==> !fin_de_handle(#[trigger] h[i]),
        fin_de_handle(c),
    ensures
        cle_chaine(p + seq!['@'] + h) == nom_dossier(h),
        cle_chaine(p + seq!['@'] + h + seq![c] + q) == nom_dossier(h),
        cle_chaine(p + seq!['@'] + h + seq![c] + q) == cle_chaine(p + seq!['@'] + h),
{
    let seps = seq!['/', '?', '&', '#'];
    let arobase = seq!['@'];
    let u1 = p + arobase + h;
    let u2 = p + arobase + h + seq![c] + q;
    let n = p.len() as int;
    assert forall|j: int| 0 <= j < n implies !arobase.contains(#[trigger] u1[j]) by {
        lemme_separateurs_handle(u1[j]);
        assert(u1[j] == p[j]);
        if u1[j] == '@' {
            assert(p.contains('@'));
        }
    }
    assert forall|j: int| 0 <= j < n implies !arobase.contains(#[trigger] u2[j]) by {
        lemme_separateurs_handle(u2[j]);
        assert(u2[j] == p[j]);
        if u2[j] == '@' {
            assert(p.contains('@'));
        }
    }
    lemme_separateurs_handle('@');
    assert(u1[n] == '@' && u2[n] == '@');
    lemme_position_premier_unique(u1, arobase, n);
    lemme_position_premier_unique(u2, arobase, n);
    let t1 = u1.skip(n + 1);
    let t2 = u2.skip(n + 1);
    assert(t1 =~= h);
    assert(t2 =~= h + seq![c] + q);
    assert forall|j: int| 0 <= j < h.len() implies !seps.contains(#[trigger] t2[j]) by {
        lemme_separateurs_handle(t2[j]);
        assert(t2[j] == h[j]);
    }
    assert forall|j: int| 0 <= j < h.len() implies !seps.contains(#[trigger] t1[j]) by {
        lemme_separateurs_handle(t1[j]);
    }
    lemme_separateurs_handle(c);
    assert(t2[h.len() as int] == c);
    lemme_position_premier_unique(t2, seps, h.len() as int);
    lemme_position_premier_unique(t1, seps, h.len() as int);
    assert(t2.take(h.len() as int) =~= h);
}

} // verus!
