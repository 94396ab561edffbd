//! Liste des chaînes YouTube nommées (contenu de `chaines.json`).

use vstd::prelude::*;
use crate::donnees::vue_option_str;
use crate::transcript::memes_caracteres;
use crate::ytdlp::{joindre_chemin, joint};
use crate::texte::{
    a_partir_de, avant_premier, avant_separateur, caracteres, chaine_de, memes, position_parmi,
    position_premier, rogne, rogner,
};

verus! {

/// Une chaîne enregistrée : nom affiché et URL.
#[derive(Debug, Clone)]
pub struct EntreeChaine {
    pub nom: String,
    pub url_chaine: String,
}

/// Le chemin (`Url::path`) de l'URL analysée par `url::Url::parse`, rien si l'analyse échoue.
pub uninterp spec fn chemin_url(brut: Seq<char>) -> Option<Seq<char>>;

/// Le résultat de `percent_decode_str(s).decode_utf8()` : rien si les octets décodés
/// ne forment pas de l'UTF-8.
pub uninterp spec fn decodage_pourcent(s: Seq<char>) -> Option<Seq<char>>;

/// Appelle `url::Url::parse(brut)` et rend `path()` de l'URL obtenue.
/// Le contrat nomme ce résultat sans le décrire.
#[verifier::external_body]
fn chemin_de_url(brut: &str) -> (r: Option<String>)
    ensures
        match r {
            Some(p) => chemin_url(brut@) == Some(p@),
            None => chemin_url(brut@) is None,
        },
{
    match url::Url::parse(brut) {
        Ok(u) => Some(u.path().to_string()),
        Err(_) => None,
    }
}

/// Appelle `percent_encoding::percent_decode_str(s).decode_utf8()`. Le contrat nomme
/// le résultat ; il dit en plus qu'une chaîne sans `%` revient telle quelle (le décodeur
/// ne touche qu'aux séquences `%XY`, et des octets venus d'un `&str` sont de l'UTF-8).
#[verifier::external_body]
fn decoder_pourcent(s: &str) -> (r: Option<String>)
    ensures
        match r {
            Some(d) => decodage_pourcent(s@) == Some(d@),
            None => decodage_pourcent(s@) is None,
        },
        !s@.contains('%') ==> r is Some && r.unwrap()@ == s@,
{
    match percent_encoding::percent_decode_str(s).decode_utf8() {
        Ok(c) => Some(c.to_string()),
        Err(_) => None,
    }
}

/// Le segment rogné, décodé des `%XY` si le décodage donne de l'UTF-8, sinon tel quel ;
/// rien s'il est vide.
pub open spec fn decode_ou_brut(segment: Seq<char>) -> Option<Seq<char>> {
    let t = rogne(segment);
    if t.len() == 0 {
        None
    } else {
        match decodage_pourcent(t) {
            Some(d) => Some(d),
            None => Some(t),
        }
    }
}

/// Le handle après le premier `@`, jusqu'au premier des séparateurs donnés.
pub open spec fn handle_apres_arobase(s: Seq<char>, seps: Seq<char>) -> Option<Seq<char>> {
    match position_premier(s, seq!['@']) {
        Some(i) => decode_ou_brut(avant_separateur(s.skip(i + 1), seps)),
        None => None,
    }
}

/// Le handle d'une URL de chaîne : d'abord dans le chemin de l'URL analysée,
/// sinon dans le texte brut.
pub open spec fn handle_url(u: Seq<char>) -> Option<Seq<char>> {
    let brut = handle_apres_arobase(u, seq!['/', '?', '#', '&']);
    match chemin_url(u) {
        Some(p) => match handle_apres_arobase(p, seq!['/', '?', '#']) {
            Some(h) => Some(h),
            None => brut,
        },
        None => brut,
    }
}

/// Nom affiché dérivé d'une URL de chaîne.
pub open spec fn nom_chaine(url: Seq<char>) -> Seq<char> {
    match handle_url(rogne(url)) {
        Some(h) => h,
        None => "Chaîne"@,
    }
}

fn decoder_pourcent_ou_brut(segment: &[char]) -> (r: Option<String>)
    ensures
        match r {
            Some(d) => decode_ou_brut(segment@) == Some(d@),
            None => decode_ou_brut(segment@) is None,
        },
{
    let t = rogner(segment);
    if t.len() == 0 {
        return None;
    }
    let brut = chaine_de(t.as_slice());
    match decoder_pourcent(brut.as_str()) {
        Some(d) => Some(d),
        None => Some(brut),
    }
}

fn handle_apres(s: &[char], seps: &[char]) -> (r: Option<String>)
    ensures
        match r {
            Some(h) => handle_apres_arobase(s@, seps@) == Some(h@),
            None => handle_apres_arobase(s@, seps@) is None,
        },
{
    let arobase = vec!['@'];
    assert(arobase@ =~= seq!['@']);
    match position_parmi(s, arobase.as_slice()) {
        Some(i) => {
            proof {
                crate::texte::lemme_position_premier(s@, arobase@);
                assert(i < s@.len());
                assert(i < s.len());
            }
            let apres = a_partir_de(s, i + 1);
            let segment = avant_premier(apres.as_slice(), seps);
            decoder_pourcent_ou_brut(segment.as_slice())
        },
        None => None,
    }
}

fn extraire_handle_apres_arobase(u: &[char]) -> (r: Option<String>)
    ensures
        match r {
            Some(h) => handle_url(u@) == Some(h@),
            None => handle_url(u@) is None,
        },
{
    let seps_chemin = vec!['/', '?', '#'];
    assert(seps_chemin@ =~= seq!['/', '?', '#']);
    let seps_brut = vec!['/', '?', '#', '&'];
    assert(seps_brut@ =~= seq!['/', '?', '#', '&']);
    let brut = chaine_de(u);
    match chemin_de_url(brut.as_str()) {
        Some(p) => {
            let cp = caracteres(p.as_str());
            match handle_apres(cp.as_slice(), seps_chemin.as_slice()) {
                Some(h) => return Some(h),
                None => {},
            }
        },
        None => {},
    }
    handle_apres(u, seps_brut.as_slice())
}

/// Libellé dérivé du handle YouTube après `@` (décodage pourcent si besoin),
/// `"Chaîne"` à défaut.
pub fn nom_depuis_url_chaine(url_brut: &str) -> (r: String)
    ensures
        r@ == nom_chaine(url_brut@),
{
    let cs = caracteres(url_brut);
    let t = rogner(cs.as_slice());
    match extraire_handle_apres_arobase(t.as_slice()) {
        Some(h) => h,
        None => "Chaîne".to_owned(),
    }
}


/// La clé d'une entrée : son URL rognée.
pub open spec fn cle_url(e: EntreeChaine) -> Seq<char> {
    rogne(e.url_chaine@)
}

/// Garde la première entrée pour chaque URL rognée, dans l'ordre.
pub open spec fn dedoublonne(l: Seq<EntreeChaine>) -> Seq<EntreeChaine>
    decreases l.len(),
{
    if l.len() == 0 {
        seq![]
    } else {
        let p = dedoublonne(l.drop_last());
        if cle_presente(p, cle_url(l.last())) {
            p
        } else {
            p.push(l.last())
        }
    }
}

fn cle_de(e: &EntreeChaine) -> (r: Vec<char>)
    ensures
        r@ == cle_url(*e),
{
    let cs = caracteres(e.url_chaine.as_str());
    rogner(cs.as_slice())
}

fn deja_vue(vues: &Vec<Vec<char>>, cle: &[char]) -> (r: bool)
    ensures
        r == exists|k: int| 0 <= k < vues@.len() && #[trigger] vues@[k]@ == cle@,
{
    let mut k: usize = 0;
    while k < vues.len()
        invariant
            k <= vues@.len(),
            forall|l: int| 0 <= l < k ==> #[trigger] vues@[l]@ != cle@,
        decreases vues@.len() - k,
    {
        if memes_caracteres(vues[k].as_slice(), cle) {
            return true;
        }
        k = k + 1;
    }
    false
}

/// Garde la première entrée pour chaque `url_chaine` rognée (clé stable pour l'UI,
/// pas de doublon dans le fichier).
pub fn dedoublonner_par_url(liste: Vec<EntreeChaine>) -> (r: Vec<EntreeChaine>)
    ensures
        r@ == dedoublonne(liste@),
{
    let ghost orig = liste@;
    let mut restant = liste;
    let mut r: Vec<EntreeChaine> = Vec::new();
    let mut vues: Vec<Vec<char>> = Vec::new();
    let ghost mut i: int = 0;
    assert(orig.skip(0) =~= orig);
    while restant.len() > 0
        invariant
            0 <= i <= orig.len(),
            restant@ == orig.skip(i),
            r@ == dedoublonne(orig.take(i)),
            vues@.len() == r@.len(),
            forall|k: int| 0 <= k < r@.len() ==> #[trigger] vues@[k]@ == cle_url(r@[k]),
        decreases restant@.len(),
    {
        let e = restant.remove(0);
        proof {
            let t = orig.take(i + 1);
            assert(t.drop_last() =~= orig.take(i));
            assert(t.last() == orig[i]);
            assert(orig.skip(i)[0] == orig[i]);
            assert(orig.skip(i).remove(0) =~= orig.skip(i + 1));
        }
        let cle = cle_de(&e);
        let vue = deja_vue(&vues, cle.as_slice());
        proof {
            let p = r@;
            if vue {
                let k = choose|k: int| 0 <= k < vues@.len() && #[trigger] vues@[k]@ == cle@;
                assert(cle_url(p[k]) == cle_url(e));
            } else {
                assert forall|k: int| 0 <= k < p.len() implies cle_url(#[trigger] p[k]) != cle_url(e) by {
                    assert(vues@[k]@ == cle_url(p[k]));
                }
            }
            i = i + 1;
        }
        if !vue {
            r.push(e);
            vues.push(cle);
        }
    }
    assert(orig.take(orig.len() as int) =~= orig);
    r
}

/// Clés deux à deux distinctes.
pub open spec fn cles_distinctes(l: Seq<EntreeChaine>) -> bool {
    forall|i: int, j: int| 0 <= i < j < l.len() ==> cle_url(#[trigger] l[i]) != cle_url(#[trigger] l[j])
}

/// Après dédoublonnage, aucune URL (rognée) n'apparaît deux fois.
pub proof fn loi_dedoublonne_cles_distinctes(l: Seq<EntreeChaine>)
    ensures
        cles_distinctes(dedoublonne(l)),
    decreases l.len(),
{
    if l.len() > 0 {
        loi_dedoublonne_cles_distinctes(l.drop_last());
    }
}

/// Le dédoublonnage ne perd aucune URL : chaque entrée d'origine a une entrée gardée de même clé,
/// et toute entrée gardée vient de la liste d'origine.
pub proof fn loi_dedoublonne_couvre(l: Seq<EntreeChaine>)
    ensures
        forall|i: int| 0 <= i < l.len() ==> exists|k: int| 0 <= k < dedoublonne(l).len() && cle_url(#[trigger] dedoublonne(l)[k]) == cle_url(#[trigger] l[i]),
        forall|k: int| 0 <= k < dedoublonne(l).len() ==> l.contains(#[trigger] dedoublonne(l)[k]),
    decreases l.len(),
{
    if l.len() > 0 {
        let q = l.drop_last();
        loi_dedoublonne_couvre(q);
        let p = dedoublonne(q);
        let d = dedoublonne(l);
        assert forall|i: int| 0 <= i < l.len() implies exists|k: int| 0 <= k < d.len() && cle_url(#[trigger] d[k]) == cle_url(#[trigger] l[i]) by {
            if i < l.len() - 1 {
                assert(q[i] == l[i]);
                let k = choose|k: int| 0 <= k < p.len() && cle_url(#[trigger] p[k]) == cle_url(#[trigger] q[i]);
                assert(d[k] == p[k]);
            } else {
                if exists|k: int| 0 <= k < p.len() && cle_url(#[trigger] p[k]) == cle_url(l.last()) {
                    let k = choose|k: int| 0 <= k < p.len() && cle_url(#[trigger] p[k]) == cle_url(l.last());
                    assert(d[k] == p[k]);
                } else {
                    assert(d[p.len() as int] == l.last());
                }
            }
        }
        assert forall|k: int| 0 <= k < d.len() implies l.contains(#[trigger] d[k]) by {
            if k < p.len() {
                assert(d[k] == p[k]);
                assert(q.contains(p[k]));
                let j = choose|j: int| 0 <= j < q.len() && q[j] == p[k];
                assert(l[j] == q[j]);
            } else {
                assert(d[k] == l[l.len() - 1]);
            }
        }
    }
}

/// Une liste sans doublon de clé est laissée telle quelle.
pub proof fn lemme_dedoublonne_sans_doublon(l: Seq<EntreeChaine>)
    requires
        cles_distinctes(l),
    ensures
        dedoublonne(l) == l,
    decreases l.len(),
{
    if l.len() > 0 {
        let q = l.drop_last();
        assert(cles_distinctes(q)) by {
            assert forall|i: int, j: int| 0 <= i < j < q.len() implies cle_url(#[trigger] q[i]) != cle_url(#[trigger] q[j]) by {
                assert(q[i] == l[i] && q[j] == l[j]);
            }
        }
        lemme_dedoublonne_sans_doublon(q);
        assert forall|k: int| 0 <= k < q.len() implies cle_url(#[trigger] q[k]) != cle_url(l.last()) by {
            assert(q[k] == l[k]);
        }
        assert(q.push(l.last()) =~= l);
    }
}

/// Dédoublonner deux fois revient à dédoublonner une fois.
pub proof fn loi_dedoublonne_idempotent(l: Seq<EntreeChaine>)
    ensures
        dedoublonne(dedoublonne(l)) == dedoublonne(l),
{
    loi_dedoublonne_cles_distinctes(l);
    lemme_dedoublonne_sans_doublon(dedoublonne(l));
}


/// `l[i]` est la première entrée de `l` à porter sa clé.
pub open spec fn premiere_de_sa_cle(l: Seq<EntreeChaine>, i: int) -> bool {
    &&& 0 <= i < l.len()
    &&& forall|j: int| 0 <= j < i ==> cle_url(#[trigger] l[j]) != cle_url(l[i])
}

/// `x` est la première entrée de `l` à porter sa clé.
pub open spec fn premiere_entree(l: Seq<EntreeChaine>, x: EntreeChaine) -> bool {
    exists|i: int| premiere_de_sa_cle(l, i) && #[trigger] l[i] == x
}

/// Une clé portée par une entrée de `l`.
pub open spec fn cle_presente(l: Seq<EntreeChaine>, c: Seq<char>) -> bool {
    exists|k: int| 0 <= k < l.len() && cle_url(#[trigger] l[k]) == c
}

proof fn lemme_prefixe_premiere(l: Seq<EntreeChaine>, i: int)
    requires
        l.len() > 0,
        premiere_de_sa_cle(l.drop_last(), i),
    ensures
        premiere_de_sa_cle(l, i),
        l[i] == l.drop_last()[i],
{
    let q = l.drop_last();
    assert forall|j: int| 0 <= j < i implies cle_url(#[trigger] l[j]) != cle_url(l[i]) by {
        assert(l[j] == q[j]);
    }
}

proof fn lemme_derniere_premiere(l: Seq<EntreeChaine>)
    requires
        l.len() > 0,
        !cle_presente(dedoublonne(l.drop_last()), cle_url(l.last())),
    ensures
        premiere_de_sa_cle(l, l.len() - 1),
{
    let q = l.drop_last();
    let p = dedoublonne(q);
    loi_dedoublonne_couvre(q);
    let i = l.len() - 1;
    assert forall|j: int| 0 <= j < i implies cle_url(#[trigger] l[j]) != cle_url(l[i]) by {
        assert(l[j] == q[j]);
        if cle_url(l[j]) == cle_url(l[i]) {
            let kk = choose|kk: int| 0 <= kk < p.len() && cle_url(#[trigger] p[kk]) == cle_url(#[trigger] q[j]);
            assert(cle_presente(p, cle_url(l.last())));
        }
    }
}

/// Chaque entrée gardée est la première de la liste d'origine à porter sa clé.
pub proof fn loi_dedoublonne_garde_premiere(l: Seq<EntreeChaine>)
    ensures
        forall|k: int| 0 <= k < dedoublonne(l).len() ==> premiere_entree(l, #[trigger] dedoublonne(l)[k]),
    decreases l.len(),
{
    if l.len() > 0 {
        let q = l.drop_last();
        loi_dedoublonne_garde_premiere(q);
        let p = dedoublonne(q);
        let d = dedoublonne(l);
        if !cle_presente(p, cle_url(l.last())) {
            lemme_derniere_premiere(l);
        }
        assert forall|k: int| 0 <= k < d.len() implies premiere_entree(l, #[trigger] d[k]) by {
            if k < p.len() {
                assert(d[k] == p[k]);
                assert(premiere_entree(q, p[k]));
                let i = choose|i: int| premiere_de_sa_cle(q, i) && #[trigger] q[i] == p[k];
                lemme_prefixe_premiere(l, i);
            } else {
                assert(d[k] == l[l.len() - 1]);
            }
        }
    }
}

/// Les entrées dont la clé n'est pas `cible`, dans l'ordre.
pub open spec fn sans_url(l: Seq<EntreeChaine>, cible: Seq<char>) -> Seq<EntreeChaine>
    decreases l.len(),
{
    if l.len() == 0 {
        seq![]
    } else {
        let p = sans_url(l.drop_last(), cible);
        if cle_url(l.last()) == cible {
            p
        } else {
            p.push(l.last())
        }
    }
}

/// Nombre d'entrées de clé `cible`.
pub open spec fn nombre_url(l: Seq<EntreeChaine>, cible: Seq<char>) -> nat
    decreases l.len(),
{
    if l.len() == 0 {
        0
    } else {
        nombre_url(l.drop_last(), cible) + if cle_url(l.last()) == cible { 1nat } else { 0nat }
    }
}

/// Ajoute une entrée en fin de liste.
pub fn ajouter_chaine(liste: &mut Vec<EntreeChaine>, nom: String, url_chaine: String)
    ensures
        final(liste)@ == old(liste)@.push(EntreeChaine { nom, url_chaine }),
{
    liste.push(EntreeChaine { nom, url_chaine });
}

/// Ajoute une chaîne en dérivant le nom affiché de l'URL (handle après `@`).
pub fn ajouter_chaine_depuis_url(liste: &mut Vec<EntreeChaine>, url_chaine: String)
    ensures
        final(liste)@.len() == old(liste)@.len() + 1,
        final(liste)@.drop_last() == old(liste)@,
        final(liste)@.last().url_chaine == url_chaine,
        final(liste)@.last().nom@ == nom_chaine(url_chaine@),
{
    let nom = nom_depuis_url_chaine(url_chaine.as_str());
    ajouter_chaine(liste, nom, url_chaine);
    assert(liste@.drop_last() =~= old(liste)@);
}

/// Retire toutes les entrées dont l'URL rognée est l'URL donnée rognée ; rend le nombre
/// d'entrées retirées. Une URL vide (après rognage) ne retire rien.
pub fn supprimer_chaine_par_url(liste: &mut Vec<EntreeChaine>, url_chaine: &str) -> (supprimees: usize)
    ensures
        rogne(url_chaine@).len() == 0 ==> final(liste)@ == old(liste)@ && supprimees == 0,
        rogne(url_chaine@).len() > 0 ==> final(liste)@ == sans_url(old(liste)@, rogne(url_chaine@)),
        supprimees == old(liste)@.len() - final(liste)@.len(),
        supprimees == if rogne(url_chaine@).len() == 0 { 0 } else { nombre_url(old(liste)@, rogne(url_chaine@)) },
{
    let cs = caracteres(url_chaine);
    let cible = rogner(cs.as_slice());
    if cible.len() == 0 {
        return 0;
    }
    let ghost orig = liste@;
    let mut restant: Vec<EntreeChaine> = Vec::new();
    std::mem::swap(liste, &mut restant);
    let taille_avant = restant.len();
    let ghost mut i: int = 0;
    assert(orig.skip(0) =~= orig);
    proof {
        lemme_sans_url_nombre(orig.take(0), cible@);
    }
    while restant.len() > 0
        invariant
            0 <= i <= orig.len(),
            taille_avant == orig.len(),
            restant@ == orig.skip(i),
            liste@ == sans_url(orig.take(i), cible@),
            liste@.len() + nombre_url(orig.take(i), cible@) == i,
        decreases restant@.len(),
    {
        let e = restant.remove(0);
        proof {
            let t = orig.take(i + 1);
            assert(t.drop_last() =~= orig.take(i));
            assert(t.last() == orig[i]);
            assert(orig.skip(i)[0] == orig[i]);
            assert(orig.skip(i).remove(0) =~= orig.skip(i + 1));
            i = i + 1;
        }
        let cle = cle_de(&e);
        if !memes_caracteres(cle.as_slice(), cible.as_slice()) {
            liste.push(e);
        }
    }
    assert(orig.take(orig.len() as int) =~= orig);
    taille_avant - liste.len()
}

pub proof fn lemme_sans_url_nombre(l: Seq<EntreeChaine>, cible: Seq<char>)
    ensures
        sans_url(l, cible).len() + nombre_url(l, cible) == l.len(),
    decreases l.len(),
{
    if l.len() > 0 {
        lemme_sans_url_nombre(l.drop_last(), cible);
    }
}

/// Après suppression, plus aucune entrée ne porte la clé retirée ; les autres restent,
/// dans l'ordre.
pub proof fn loi_supprimer_retire_la_cle(l: Seq<EntreeChaine>, cible: Seq<char>)
    ensures
        forall|k: int| 0 <= k < sans_url(l, cible).len() ==> cle_url(#[trigger] sans_url(l, cible)[k]) != cible,
        cible.len() > 0 ==> sans_url(l, cible).len() + nombre_url(l, cible) == l.len(),
        nombre_url(l, cible) == 0 ==> sans_url(l, cible) == l,
    decreases l.len(),
{
    lemme_sans_url_nombre(l, cible);
    if l.len() > 0 {
        let q = l.drop_last();
        loi_supprimer_retire_la_cle(q, cible);
        let p = sans_url(q, cible);
        assert forall|k: int| 0 <= k < sans_url(l, cible).len() implies cle_url(#[trigger] sans_url(l, cible)[k]) != cible by {
            if k < p.len() {
                assert(sans_url(l, cible)[k] == p[k]);
            }
        }
        if nombre_url(l, cible) == 0 {
            assert(q.push(l.last()) =~= l);
        }
    }
}

/// Ajouter une chaîne puis la supprimer par son URL retire au moins cette entrée et rend
/// la liste d'avant sans cette URL.
pub proof fn loi_ajouter_puis_supprimer(l: Seq<EntreeChaine>, e: EntreeChaine)
    requires
        cle_url(e).len() > 0,
    ensures
        sans_url(l.push(e), cle_url(e)) == sans_url(l, cle_url(e)),
        nombre_url(l.push(e), cle_url(e)) == nombre_url(l, cle_url(e)) + 1,
{
    assert(l.push(e).drop_last() =~= l);
}


/// Nombre de profondeurs visitées en remontant vers la racine.
pub const PROFONDEUR_RECHERCHE: usize = 24;

/// Nombre de répertoires visités en remontant depuis un chemin de `n` composants : le
/// répertoire de départ puis chacun de ses parents, au plus 24. Un chemin absolu (dont le
/// premier composant est la racine) s'arrête à la racine ; un chemin relatif va jusqu'au
/// chemin vide.
pub open spec fn nb_niveaux(n: nat, absolu: bool) -> nat {
    let m = if absolu { n } else { n + 1 };
    if m <= PROFONDEUR_RECHERCHE { m } else { PROFONDEUR_RECHERCHE as nat }
}

/// Le `k`-ième fichier essayé : `chaines.json` dans le répertoire ôté de ses `k` derniers
/// composants.
pub open spec fn candidat_chaines_json(composants: Seq<Seq<char>>, k: nat) -> Seq<Seq<char>> {
    composants.take(composants.len() - k).push("chaines.json"@)
}

pub open spec fn vue_segments(v: Vec<String>) -> Seq<Seq<char>> {
    v@.map_values(|s: String| s@)
}

/// Les fichiers `chaines.json` essayés en remontant depuis un répertoire donné par ses
/// composants, du plus profond au plus haut.
pub fn candidats_chaines_json(composants: &Vec<String>, absolu: bool) -> (r: Vec<Vec<String>>)
    ensures
        r@.len() == nb_niveaux(composants@.len(), absolu),
        forall|k: int| 0 <= k < r@.len() ==> vue_segments(#[trigger] r@[k]) == candidat_chaines_json(
            vue_segments(*composants),
            k as nat,
        ),
{
    let n = composants.len();
    let nb: usize = if absolu {
        if n <= PROFONDEUR_RECHERCHE { n } else { PROFONDEUR_RECHERCHE }
    } else {
        if n < PROFONDEUR_RECHERCHE { n + 1 } else { PROFONDEUR_RECHERCHE }
    };
    let mut r: Vec<Vec<String>> = Vec::new();
    let mut k: usize = 0;
    while k < nb
        invariant
            k <= nb,
            nb == nb_niveaux(n as nat, absolu),
            n == composants@.len(),
            nb <= n + 1,
            r@.len() == k,
            forall|j: int| 0 <= j < k ==> vue_segments(#[trigger] r@[j]) == candidat_chaines_json(
                vue_segments(*composants),
                j as nat,
            ),
        decreases nb - k,
    {
        let garde = n - k;
        let mut c: Vec<String> = Vec::new();
        let mut j: usize = 0;
        while j < garde
            invariant
                j <= garde <= n,
                n == composants@.len(),
                vue_segments(c) == vue_segments(*composants).take(j as int),
            decreases garde - j,
        {
            let ghost avant = vue_segments(c);
            let x = composants[j].clone();
            assert(x@ == composants@[j as int]@);
            c.push(x);
            assert(vue_segments(c) =~= avant.push(x@));
            assert(vue_segments(*composants).take(j + 1) =~= vue_segments(*composants).take(j as int).push(
                vue_segments(*composants)[j as int],
            ));
            j = j + 1;
        }
        c.push("chaines.json".to_owned());
        assert(vue_segments(c) =~= candidat_chaines_json(vue_segments(*composants), k as nat));
        r.push(c);
        k = k + 1;
    }
    r
}

/// Le premier `chaines.json` existant en remontant : parmi les fichiers essayés, dans
/// l'ordre, le premier marqué comme fichier existant dans `est_fichier` (la marque de
/// rang `k` vaut pour le fichier de rang `k` ; un fichier sans marque n'est pas retenu).
pub fn chercher_chaines_json_en_remontant(candidats: Vec<Vec<String>>, est_fichier: &Vec<bool>) -> (r: Option<Vec<String>>)
    ensures
        match r {
            Some(c) => exists|k: int| 0 <= k < candidats@.len() && k < est_fichier@.len() && est_fichier@[k] && candidats@[k] == c
                && forall|j: int| 0 <= j < k ==> !#[trigger] est_fichier@[j],
            None => forall|j: int| 0 <= j < candidats@.len() && j < est_fichier@.len() ==> !#[trigger] est_fichier@[j],
        },
{
    let ghost orig = candidats@;
    let n = candidats.len();
    let mut restant = candidats;
    let mut k: usize = 0;
    assert(orig.skip(0) =~= orig);
    while restant.len() > 0 && k < est_fichier.len()
        invariant
            k <= orig.len(),
            k <= est_fichier@.len(),
            restant@ == orig.skip(k as int),
            orig == candidats@,
            n == orig.len(),
            forall|j: int| 0 <= j < k ==> !#[trigger] est_fichier@[j],
        decreases restant@.len(),
    {
        let c = restant.remove(0);
        assert(orig.skip(k as int)[0] == orig[k as int]);
        assert(restant@ =~= orig.skip(k + 1));
        if est_fichier[k] {
            assert(0 <= k < candidats@.len() && k < est_fichier@.len() && est_fichier@[k as int] && candidats@[k as int] == c);
            return Some(c);
        }
        k = k + 1;
    }
    None
}

/// Les éléments de `s` autres que `exclu`, chacun à la place de sa première occurrence.
pub open spec fn premieres_occurrences(s: Seq<Seq<char>>, exclu: Option<Seq<char>>) -> Seq<Seq<char>>
    decreases s.len(),
{
    if s.len() == 0 {
        seq![]
    } else {
        let p = premieres_occurrences(s.drop_last(), exclu);
        let x = s.last();
        if exclu == Some(x) || s.drop_last().contains(x) {
            p
        } else {
            p.push(x)
        }
    }
}

/// Retire d'une liste les doublons (la première occurrence reste) et l'élément `exclu`.
pub fn garder_premieres(v: &Vec<String>, exclu: Option<&str>) -> (r: Vec<String>)
    ensures
        vue_segments(r) == premieres_occurrences(vue_segments(*v), vue_option_str(exclu)),
{
    let ghost s = vue_segments(*v);
    let mut r: Vec<String> = Vec::new();
    let mut i: usize = 0;
    while i < v.len()
        invariant
            i <= v@.len(),
            s == vue_segments(*v),
            vue_segments(r) == premieres_occurrences(s.take(i as int), vue_option_str(exclu)),
        decreases v@.len() - i,
    {
        let x = caracteres(v[i].as_str());
        let mut deja = false;
        let mut j: usize = 0;
        while j < i
            invariant
                j <= i < v@.len(),
                s == vue_segments(*v),
                x@ == s[i as int],
                deja == s.take(j as int).contains(s[i as int]),
            decreases i - j,
        {
            let y = caracteres(v[j].as_str());
            let egal = memes(y.as_slice(), x.as_slice());
            proof {
                let t = s.take(j + 1);
                assert(t =~= s.take(j as int).push(s[j as int]));
                if egal {
                    assert(t[j as int] == s[i as int]);
                }
                if s.take(j as int).contains(s[i as int]) {
                    let k = choose|k: int| 0 <= k < j && s.take(j as int)[k] == s[i as int];
                    assert(t[k] == s[i as int]);
                }
            }
            deja = deja || egal;
            j = j + 1;
        }
        let exclu_ici = match exclu {
            Some(e) => {
                let ce = caracteres(e);
                memes(ce.as_slice(), x.as_slice())
            },
            None => false,
        };
        proof {
            let t = s.take(i + 1);
            assert(t.drop_last() =~= s.take(i as int));
            assert(t.last() == s[i as int]);
        }
        if !(exclu_ici || deja) {
            let ghost avant = vue_segments(r);
            r.push(v[i].clone());
            assert(vue_segments(r) =~= avant.push(s[i as int]));
        }
        i = i + 1;
    }
    assert(s.take(s.len() as int) =~= s);
    r
}

/// Nombre de dossiers essayés en remontant depuis celui de l'exécutable.
pub const NIVEAUX_EXECUTABLE: usize = 14;

/// Les autres emplacements de `chaines.json`, dans l'ordre : à côté de la racine des
/// données ; dans le dossier de l'exécutable puis ses parents (14 dossiers au plus) ;
/// celui trouvé en remontant depuis le répertoire courant.
pub open spec fn secours_chaines_json(parent_racine: Option<Seq<char>>, ancetres_exe: Seq<Seq<char>>, trouve: Option<Seq<char>>) -> Seq<Seq<char>> {
    let a: Seq<Seq<char>> = match parent_racine {
        Some(p) => seq![joint(p, "chaines.json"@)],
        None => seq![],
    };
    let n: int = if ancetres_exe.len() < NIVEAUX_EXECUTABLE { ancetres_exe.len() as int } else { NIVEAUX_EXECUTABLE as int };
    let b = ancetres_exe.take(n).map_values(|d: Seq<char>| joint(d, "chaines.json"@));
    let c: Seq<Seq<char>> = match trouve {
        Some(t) => seq![t],
        None => seq![],
    };
    a + b + c
}

/// Les copies de `chaines.json` à reprendre quand le fichier principal est vide : les
/// emplacements de secours, sans doublon et sans le fichier principal.
pub fn chemins_fallback_pour_chaines_json(parent_racine: Option<&str>, ancetres_exe: &Vec<String>, trouve: Option<&str>, principal: &str) -> (r: Vec<String>)
    ensures
        vue_segments(r) == premieres_occurrences(
            secours_chaines_json(vue_option_str(parent_racine), vue_segments(*ancetres_exe), vue_option_str(trouve)),
            Some(principal@),
        ),
{
    let ghost attendu = secours_chaines_json(vue_option_str(parent_racine), vue_segments(*ancetres_exe), vue_option_str(trouve));
    let mut c: Vec<String> = Vec::new();
    match parent_racine {
        Some(p) => c.push(joindre_chemin(p, "chaines.json")),
        None => {},
    }
    let ghost a = vue_segments(c);
    let n: usize = if ancetres_exe.len() < NIVEAUX_EXECUTABLE { ancetres_exe.len() } else { NIVEAUX_EXECUTABLE };
    let ghost b = vue_segments(*ancetres_exe).take(n as int).map_values(|d: Seq<char>| joint(d, "chaines.json"@));
    let mut k: usize = 0;
    while k < n
        invariant
            k <= n <= ancetres_exe@.len(),
            b == vue_segments(*ancetres_exe).take(n as int).map_values(|d: Seq<char>| joint(d, "chaines.json"@)),
            vue_segments(c) == a + b.take(k as int),
        decreases n - k,
    {
        let ghost avant = vue_segments(c);
        c.push(joindre_chemin(ancetres_exe[k].as_str(), "chaines.json"));
        assert(b.take(k + 1) =~= b.take(k as int).push(b[k as int]));
        assert(vue_segments(c) =~= avant.push(b[k as int]));
        k = k + 1;
    }
    assert(b.take(n as int) =~= b);
    match trouve {
        Some(t) => {
            let ghost avant = vue_segments(c);
            c.push(t.to_owned());
            assert(vue_segments(c) =~= avant.push(t@));
        },
        None => {},
    }
    proof {
        reveal_strlit("chaines.json");
    }
    assert(vue_segments(c) =~= attendu);
    garder_premieres(&c, Some(principal))
}

} // verus!
