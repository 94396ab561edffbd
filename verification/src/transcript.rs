//! Sous-titres (WebVTT, SRT, JSON3) vers un texte condensé pour le modèle.

use vstd::prelude::*;
use crate::json::{json_lu, lire_json, membre, obtenir, obtenir_membre, ValeurJson};
use crate::texte::{
    apparait_a, caracteres, chaine_de, commence_par, compacte, compacter, contient, contient_motif,
    decouper, est_propre, joindre, joindre_morceaux, lemme_compacte_rogne, lignes, rogne,
    rogner, a_partir_de, lemme_position_premier, position_parmi, position_premier,
};

verus! {

/// `j` est l'indice du `>` qui ferme la balise ouverte par `s[0] == '<'` :
/// au moins un caractère entre les chevrons, aucun `>` avant.
pub open spec fn ferme_balise(s: Seq<char>, j: int) -> bool {
    &&& 2 <= j < s.len()
    &&& s[j] == '>'
    &&& forall|l: int| 1 <= l < j ==> s[l] != '>'
}

/// Retire, de gauche à droite, chaque morceau `<…>` (motif `<[^>]+>`).
pub open spec fn sans_balises(s: Seq<char>) -> Seq<char>
    decreases s.len(),
{
    if s.len() == 0 {
        s
    } else if s[0] == '<' && exists|j: int| ferme_balise(s, j) {
        let j = choose|j: int| ferme_balise(s, j);
        sans_balises(s.skip(j + 1))
    } else {
        seq![s[0]] + sans_balises(s.skip(1))
    }
}

/// Retire les balises `<…>`.
pub fn retirer_balises(s: &[char]) -> (r: Vec<char>)
    ensures
        r@ == sans_balises(s@),
{
    let n = s.len();
    let mut r: Vec<char> = Vec::new();
    let mut i: usize = 0;
    assert(s@.skip(0) =~= s@);
    while i < n
        invariant
            i <= n,
            n == s@.len(),
            sans_balises(s@) == r@ + sans_balises(s@.skip(i as int)),
        decreases n - i,
    {
        let ghost t = s@.skip(i as int);
        let mut trouve = false;
        if s[i] == '<' {
            let mut k: usize = i + 1;
            while k < n && s[k] != '>'
                invariant
                    i < k <= n,
                    n == s@.len(),
                    forall|l: int| i < l < k ==> s@[l] != '>',
                decreases n - k,
            {
                k = k + 1;
            }
            if k < n && k >= i + 2 {
                proof {
                    let j = (k - i) as int;
                    assert(ferme_balise(t, j));
                    assert forall|j2: int| ferme_balise(t, j2) implies j2 == j by {
                        if j2 < j {
                            assert(t[j2] == s@[i + j2]);
                        } else if j2 > j {
                            assert(t[j] == s@[k as int]);
                        }
                    }
                    assert(t.skip(j + 1) =~= s@.skip(k + 1));
                }
                i = k + 1;
                trouve = true;
            } else {
                proof {
                    assert forall|j2: int| !ferme_balise(t, j2) by {
                        if ferme_balise(t, j2) {
                            if k >= n {
                                assert(t[j2] == s@[i + j2]);
                            } else {
                                assert(t[1] == s@[k as int]);
                            }
                        }
                    }
                }
            }
        }
        if !trouve {
            proof {
                assert(t.skip(1) =~= s@.skip(i + 1));
                assert(t[0] == s@[i as int]);
            }
            r.push(s[i]);
            i = i + 1;
        }
    }
    r
}

/// Garde, dans l'ordre, les valeurs présentes de `f` sur chaque ligne.
pub open spec fn garder(ls: Seq<Seq<char>>, f: spec_fn(Seq<char>) -> Option<Seq<char>>) -> Seq<Seq<char>>
    decreases ls.len(),
{
    if ls.len() == 0 {
        seq![]
    } else {
        let p = garder(ls.drop_last(), f);
        match f(ls.last()) {
            Some(m) => p.push(m),
            None => p,
        }
    }
}

/// Rogne chaque morceau, saute les vides et ceux égaux au dernier gardé.
pub open spec fn sans_doublons_consecutifs(ms: Seq<Seq<char>>) -> Seq<Seq<char>>
    decreases ms.len(),
{
    if ms.len() == 0 {
        seq![]
    } else {
        let p = sans_doublons_consecutifs(ms.drop_last());
        let t = rogne(ms.last());
        if t.len() == 0 || (p.len() > 0 && p.last() == t) {
            p
        } else {
            p.push(t)
        }
    }
}

/// Le texte final : morceaux dédoublonnés, joints par une espace, rognés puis compactés.
pub open spec fn texte_depuis_morceaux(ms: Seq<Seq<char>>) -> Seq<char> {
    compacte(rogne(joindre(sans_doublons_consecutifs(ms), seq![' '])))
}

/// Deux suites de caractères égales ?
pub fn memes_caracteres(a: &[char], b: &[char]) -> (r: bool)
    ensures
        r == (a@ == b@),
{
    if a.len() != b.len() {
        return false;
    }
    let mut i: usize = 0;
    while i < a.len()
        invariant
            i <= a@.len(),
            a@.len() == b@.len(),
            forall|l: int| 0 <= l < i ==> a@[l] == b@[l],
        decreases a@.len() - i,
    {
        if a[i] != b[i] {
            return false;
        }
        i = i + 1;
    }
    assert(a@ =~= b@);
    true
}

/// Rogne chaque morceau, saute les vides et les répétitions immédiates.
pub fn supprimer_doublons_consecutifs(morceaux: Vec<Vec<char>>) -> (r: Vec<Vec<char>>)
    ensures
        r.deep_view() == sans_doublons_consecutifs(morceaux.deep_view()),
{
    let mut r: Vec<Vec<char>> = Vec::new();
    let mut i: usize = 0;
    while i < morceaux.len()
        invariant
            i <= morceaux.len(),
            r.deep_view() == sans_doublons_consecutifs(morceaux.deep_view().take(i as int)),
        decreases morceaux.len() - i,
    {
        let ghost ms = morceaux.deep_view().take(i + 1);
        proof {
            assert(ms.drop_last() =~= morceaux.deep_view().take(i as int));
            assert(ms.last() =~= morceaux[i as int]@);
        }
        let t = rogner(morceaux[i].as_slice());
        let n = r.len();
        let ignorer = if t.len() == 0 {
            true
        } else if n > 0 {
            let egal = memes_caracteres(r[n - 1].as_slice(), t.as_slice());
            proof {
                assert(r.deep_view().last() =~= r[n - 1]@);
            }
            egal
        } else {
            false
        };
        if !ignorer {
            let ghost avant = r.deep_view();
            let ghost vue = t@;
            assert(t.deep_view() =~= vue);
            r.push(t);
            assert(r.deep_view() =~~= avant.push(vue));
        }
        i = i + 1;
    }
    assert(morceaux.deep_view().take(morceaux.len() as int) =~= morceaux.deep_view());
    r
}

/// Morceaux → texte final (`join(" ")`, rognage, compactage des blancs).
pub fn texte_final(morceaux: Vec<Vec<char>>) -> (r: String)
    ensures
        r@ == texte_depuis_morceaux(morceaux.deep_view()),
        est_propre(r@),
{
    let ms = supprimer_doublons_consecutifs(morceaux);
    let espace = vec![' '];
    assert(espace@ =~= seq![' ']);
    let joint = joindre_morceaux(&ms, espace.as_slice());
    let rogne_ = rogner(joint.as_slice());
    let compact = compacter(rogne_.as_slice());
    proof {
        lemme_compacte_rogne(joint@);
    }
    chaine_de(compact.as_slice())
}

/// Le morceau gardé d'une ligne WebVTT : la ligne rognée, sauf vide, en-tête `WEBVTT`
/// ou ligne de minutage (`-->`), balises retirées puis rognée, sauf si vide.
/// (Toute ligne d'horodatage `hh:mm:ss.mmm --> hh:mm:ss.mmm` contient `-->`.)
pub open spec fn morceau_vtt(ligne: Seq<char>) -> Option<Seq<char>> {
    let l = rogne(ligne);
    if l.len() == 0 || commence_par(l, "WEBVTT"@) || contient(l, "-->"@) {
        None
    } else {
        let n = rogne(sans_balises(l));
        if n.len() == 0 {
            None
        } else {
            Some(n)
        }
    }
}

/// Texte tiré d'un fichier WebVTT.
pub open spec fn texte_vtt(vtt: Seq<char>) -> Seq<char> {
    texte_depuis_morceaux(garder(lignes(vtt), |l: Seq<char>| morceau_vtt(l)))
}

fn morceau_ligne_vtt(ligne: &[char], entete: &[char], fleche: &[char]) -> (r: Option<Vec<char>>)
    requires
        entete@ == "WEBVTT"@,
        fleche@ == "-->"@,
    ensures
        match r {
            Some(m) => morceau_vtt(ligne@) == Some(m@),
            None => morceau_vtt(ligne@) is None,
        },
{
    let l = rogner(ligne);
    if l.len() == 0 || apparait_a(l.as_slice(), entete, 0) || contient_motif(l.as_slice(), fleche) {
        return None;
    }
    let sans = retirer_balises(l.as_slice());
    let n = rogner(sans.as_slice());
    if n.len() == 0 {
        None
    } else {
        Some(n)
    }
}

/// Parse un fichier VTT (WebVTT) en texte lisible : sans minutages, sans balises,
/// blancs condensés.
pub fn parser_vtt_vers_texte(vtt: &str) -> (r: String)
    ensures
        r@ == texte_vtt(vtt@),
        est_propre(r@),
{
    let entete = caracteres("WEBVTT");
    let fleche = caracteres("-->");
    let cs = caracteres(vtt);
    let ls = decouper(cs.as_slice(), '\n');
    let mut morceaux: Vec<Vec<char>> = Vec::new();
    let mut i: usize = 0;
    while i < ls.len()
        invariant
            i <= ls.len(),
            entete@ == "WEBVTT"@,
            fleche@ == "-->"@,
            morceaux.deep_view() == garder(ls.deep_view().take(i as int), |l: Seq<char>| morceau_vtt(l)),
        decreases ls.len() - i,
    {
        proof {
            let t = ls.deep_view().take(i + 1);
            assert(t.drop_last() =~= ls.deep_view().take(i as int));
            assert(t.last() =~= ls[i as int]@);
        }
        match morceau_ligne_vtt(ls[i].as_slice(), entete.as_slice(), fleche.as_slice()) {
            Some(m) => {
                let ghost avant = morceaux.deep_view();
                let ghost vue = m@;
                assert(m.deep_view() =~= vue);
                morceaux.push(m);
                assert(morceaux.deep_view() =~~= avant.push(vue));
            },
            None => {},
        }
        i = i + 1;
    }
    assert(ls.deep_view().take(ls.len() as int) =~= ls.deep_view());
    texte_final(morceaux)
}


/// Garde, dans l'ordre, les valeurs présentes de `f` sur chaque valeur JSON.
pub open spec fn garder_valeurs(vs: Seq<ValeurJson>, f: spec_fn(ValeurJson) -> Option<Seq<char>>) -> Seq<Seq<char>>
    decreases vs.len(),
{
    if vs.len() == 0 {
        seq![]
    } else {
        let p = garder_valeurs(vs.drop_last(), f);
        match f(vs.last()) {
            Some(m) => p.push(m),
            None => p,
        }
    }
}

/// Une chaîne rognée, si elle n'est pas vide.
pub open spec fn rognee_non_vide(s: Seq<char>) -> Option<Seq<char>> {
    if rogne(s).len() > 0 {
        Some(rogne(s))
    } else {
        None
    }
}

/// Le texte d'un segment JSON3 : son membre `utf8` s'il est une chaîne non blanche, rogné.
pub open spec fn texte_segment(seg: ValeurJson) -> Option<Seq<char>> {
    match obtenir(seg, "utf8"@) {
        Some(ValeurJson::Chaine(s)) => rognee_non_vide(s@),
        _ => None,
    }
}

/// La ligne d'un évènement JSON3 : les textes de ses `segs`, joints par une espace.
pub open spec fn ligne_evenement(ev: ValeurJson) -> Option<Seq<char>> {
    match obtenir(ev, "segs"@) {
        Some(ValeurJson::Tableau(segs)) => {
            let us = garder_valeurs(segs@, |x: ValeurJson| texte_segment(x));
            if us.len() == 0 {
                None
            } else {
                rognee_non_vide(joindre(us, seq![' ']))
            }
        },
        _ => None,
    }
}

/// Les lignes des évènements du tableau `events`.
pub open spec fn morceaux_evenements(v: ValeurJson) -> Seq<Seq<char>> {
    match obtenir(v, "events"@) {
        Some(ValeurJson::Tableau(evs)) => garder_valeurs(evs@, |x: ValeurJson| ligne_evenement(x)),
        _ => seq![],
    }
}

/// Repli : toutes les chaînes `utf8` non blanches, rognées, en profondeur et dans l'ordre.
/// Un membre `utf8` qui n'est pas une chaîne n'est pas exploré.
pub open spec fn parcourir(v: ValeurJson) -> Seq<Seq<char>>
    decreases v,
{
    match v {
        ValeurJson::Objet(es) => parcourir_membres(es@),
        ValeurJson::Tableau(vs) => parcourir_valeurs(vs@),
        _ => seq![],
    }
}

pub open spec fn parcourir_valeurs(vs: Seq<ValeurJson>) -> Seq<Seq<char>>
    decreases vs,
{
    if vs.len() == 0 {
        seq![]
    } else {
        parcourir_valeurs(vs.drop_last()) + parcourir(vs.last())
    }
}

pub open spec fn parcourir_membres(es: Seq<(String, ValeurJson)>) -> Seq<Seq<char>>
    decreases es,
{
    if es.len() == 0 {
        seq![]
    } else {
        let (k, v) = es.last();
        parcourir_membres(es.drop_last()) + if k@ == "utf8"@ {
            match v {
                ValeurJson::Chaine(s) => match rognee_non_vide(s@) {
                    Some(t) => seq![t],
                    None => seq![],
                },
                _ => seq![],
            }
        } else {
            parcourir(v)
        }
    }
}

/// Texte tiré d'un document JSON3 : les lignes des évènements, ou à défaut le repli en profondeur.
pub open spec fn texte_json3(v: ValeurJson) -> Seq<char> {
    let m = morceaux_evenements(v);
    texte_depuis_morceaux(if m.len() == 0 { parcourir(v) } else { m })
}


fn rognee_si_non_vide(s: &String) -> (r: Option<Vec<char>>)
    ensures
        match r {
            Some(t) => rognee_non_vide(s@) == Some(t@),
            None => rognee_non_vide(s@) is None,
        },
{
    let cs = caracteres(s.as_str());
    let t = rogner(cs.as_slice());
    if t.len() > 0 {
        Some(t)
    } else {
        None
    }
}

/// Les clés JSON lues par l'extraction JSON3.
pub struct ClesJson3 {
    pub utf8: String,
    pub segs: String,
    pub events: String,
}

impl ClesJson3 {
    pub open spec fn valides(&self) -> bool {
        &&& self.utf8@ == "utf8"@
        &&& self.segs@ == "segs"@
        &&& self.events@ == "events"@
    }

    pub fn nouvelles() -> (r: ClesJson3)
        ensures
            r.valides(),
    {
        ClesJson3 { utf8: "utf8".to_owned(), segs: "segs".to_owned(), events: "events".to_owned() }
    }
}

fn texte_de_segment(seg: &ValeurJson, cles: &ClesJson3) -> (r: Option<Vec<char>>)
    requires
        cles.valides(),
    ensures
        match r {
            Some(t) => texte_segment(*seg) == Some(t@),
            None => texte_segment(*seg) is None,
        },
{
    match obtenir_membre(seg, &cles.utf8) {
        Some(ValeurJson::Chaine(s)) => rognee_si_non_vide(s),
        _ => None,
    }
}

fn ligne_d_evenement(ev: &ValeurJson, cles: &ClesJson3) -> (r: Option<Vec<char>>)
    requires
        cles.valides(),
    ensures
        match r {
            Some(t) => ligne_evenement(*ev) == Some(t@),
            None => ligne_evenement(*ev) is None,
        },
{
    match obtenir_membre(ev, &cles.segs) {
        Some(ValeurJson::Tableau(segs)) => {
            let mut us: Vec<Vec<char>> = Vec::new();
            let mut i: usize = 0;
            while i < segs.len()
                invariant
                    i <= segs@.len(),
                    cles.valides(),
                    us.deep_view() == garder_valeurs(segs@.take(i as int), |x: ValeurJson| texte_segment(x)),
                decreases segs@.len() - i,
            {
                proof {
                    let t = segs@.take(i + 1);
                    assert(t.drop_last() =~= segs@.take(i as int));
                }
                match texte_de_segment(&segs[i], cles) {
                    Some(m) => {
                        let ghost avant = us.deep_view();
                        let ghost vue = m@;
                        assert(m.deep_view() =~= vue);
                        us.push(m);
                        assert(us.deep_view() =~~= avant.push(vue));
                    },
                    None => {},
                }
                i = i + 1;
            }
            assert(segs@.take(segs@.len() as int) =~= segs@);
            if us.len() == 0 {
                None
            } else {
                let espace = vec![' '];
                assert(espace@ =~= seq![' ']);
                let joint = joindre_morceaux(&us, espace.as_slice());
                let t = rogner(joint.as_slice());
                if t.len() > 0 {
                    Some(t)
                } else {
                    None
                }
            }
        },
        _ => None,
    }
}

fn morceaux_d_evenements(v: &ValeurJson, cles: &ClesJson3) -> (r: Vec<Vec<char>>)
    requires
        cles.valides(),
    ensures
        r.deep_view() == morceaux_evenements(*v),
{
    let mut r: Vec<Vec<char>> = Vec::new();
    match obtenir_membre(v, &cles.events) {
        Some(ValeurJson::Tableau(evs)) => {
            let mut i: usize = 0;
            while i < evs.len()
                invariant
                    i <= evs@.len(),
                    cles.valides(),
                    r.deep_view() == garder_valeurs(evs@.take(i as int), |x: ValeurJson| ligne_evenement(x)),
                decreases evs@.len() - i,
            {
                proof {
                    let t = evs@.take(i + 1);
                    assert(t.drop_last() =~= evs@.take(i as int));
                }
                match ligne_d_evenement(&evs[i], cles) {
                    Some(m) => {
                        let ghost avant = r.deep_view();
                        let ghost vue = m@;
                        assert(m.deep_view() =~= vue);
                        r.push(m);
                        assert(r.deep_view() =~~= avant.push(vue));
                    },
                    None => {},
                }
                i = i + 1;
            }
            assert(evs@.take(evs@.len() as int) =~= evs@);
        },
        _ => {},
    }
    r
}

fn parcourir_valeur(v: &ValeurJson, cles: &ClesJson3, acc: &mut Vec<Vec<char>>)
    requires
        cles.valides(),
    ensures
        final(acc).deep_view() == old(acc).deep_view() + parcourir(*v),
    decreases *v,
{
    match v {
        ValeurJson::Objet(es) => {
            let ghost debut = acc.deep_view();
            let mut i: usize = 0;
            while i < es.len()
                invariant
                    i <= es@.len(),
                    cles.valides(),
                    acc.deep_view() == debut + parcourir_membres(es@.take(i as int)),
                    *v == ValeurJson::Objet(*es),
                decreases es@.len() - i,
            {
                proof {
                    let t = es@.take(i + 1);
                    assert(t.drop_last() =~= es@.take(i as int));
                    assert(t.last() == es@[i as int]);
                }
                let egal = es[i].0.eq(&cles.utf8);
                if egal {
                    match &es[i].1 {
                        ValeurJson::Chaine(s) => {
                            match rognee_si_non_vide(s) {
                                Some(m) => {
                                    let ghost avant = acc.deep_view();
                                    let ghost vue = m@;
                                    assert(m.deep_view() =~= vue);
                                    acc.push(m);
                                    assert(acc.deep_view() =~~= avant + seq![vue]);
                                },
                                None => {
                                    assert(acc.deep_view() =~= acc.deep_view() + Seq::<Seq<char>>::empty());
                                },
                            }
                        },
                        _ => {
                            assert(acc.deep_view() =~= acc.deep_view() + Seq::<Seq<char>>::empty());
                        },
                    }
                } else {
                    assert(decreases_to!(*v => es@[i as int].1)) by {
                        assert(decreases_to!(*v => (*v)->Objet_0));
                        assert((*v)->Objet_0 == *es);
                        assert(decreases_to!(*es => es@));
                        assert(decreases_to!(es@ => es@[i as int]));
                        assert(decreases_to!(es@[i as int] => es@[i as int].1));
                    }
                    parcourir_valeur(&es[i].1, cles, acc);
                }
                proof {
                    let t = es@.take(i + 1);
                    assert(debut + parcourir_membres(t) =~= debut + parcourir_membres(es@.take(i as int)) + (parcourir_membres(t).skip(parcourir_membres(es@.take(i as int)).len() as int)));
                }
                i = i + 1;
            }
            assert(es@.take(es@.len() as int) =~= es@);
        },
        ValeurJson::Tableau(vs) => {
            let ghost debut = acc.deep_view();
            let mut i: usize = 0;
            while i < vs.len()
                invariant
                    i <= vs@.len(),
                    cles.valides(),
                    acc.deep_view() == debut + parcourir_valeurs(vs@.take(i as int)),
                    *v == ValeurJson::Tableau(*vs),
                decreases vs@.len() - i,
            {
                proof {
                    let t = vs@.take(i + 1);
                    assert(t.drop_last() =~= vs@.take(i as int));
                    assert(t.last() == vs@[i as int]);
                }
                assert(decreases_to!(*v => vs@[i as int])) by {
                    assert(decreases_to!(*v => (*v)->Tableau_0));
                    assert((*v)->Tableau_0 == *vs);
                    assert(decreases_to!(*vs => vs@));
                    assert(decreases_to!(vs@ => vs@[i as int]));
                }
                parcourir_valeur(&vs[i], cles, acc);
                proof {
                    let t = vs@.take(i + 1);
                    assert(debut + parcourir_valeurs(t) =~= debut + parcourir_valeurs(vs@.take(i as int)) + parcourir(vs@[i as int]));
                }
                i = i + 1;
            }
            assert(vs@.take(vs@.len() as int) =~= vs@);
        },
        _ => {
            assert(acc.deep_view() =~= acc.deep_view() + Seq::<Seq<char>>::empty());
        },
    }
}

/// Texte tiré d'un document JSON3 déjà analysé : lignes des `events[].segs[].utf8`,
/// sinon toutes les chaînes `utf8` trouvées en profondeur ; puis dédoublonnage,
/// jointure et condensation des blancs.
pub fn texte_depuis_json3(v: &ValeurJson) -> (r: String)
    ensures
        r@ == texte_json3(*v),
        est_propre(r@),
{
    let cles = ClesJson3::nouvelles();
    let m = morceaux_d_evenements(v, &cles);
    if m.len() == 0 {
        let mut acc: Vec<Vec<char>> = Vec::new();
        parcourir_valeur(v, &cles, &mut acc);
        assert(acc.deep_view() =~= parcourir(*v));
        texte_final(acc)
    } else {
        texte_final(m)
    }
}


/// Parse un fichier `yt-dlp --sub-format json3` en texte ; un texte qui n'est pas du JSON
/// donne un texte vide.
pub fn parser_json3_vers_texte(json3: &str) -> (r: String)
    ensures
        match json_lu(json3@) {
            Ok(v) => r@ == texte_json3(v),
            Err(_) => r@.len() == 0,
        },
        est_propre(r@),
{
    match lire_json(json3) {
        Ok(v) => texte_depuis_json3(&v),
        Err(_) => String::new(),
    }
}

/// Le résultat de `Regex::is_match` pour le motif de minutage SRT
/// `\d{2}:\d{2}:\d{2},\d{3}\s+-->\s+\d{2}:\d{2}:\d{2},\d{3}` (chiffres Unicode) sur la ligne.
pub uninterp spec fn minutage_srt(ligne: Seq<char>) -> bool;

/// Appelle `regex::Regex::is_match` avec le motif de minutage SRT. Le contrat nomme le
/// résultat ; le motif, fixe, est valide.
#[verifier::external_body]
fn contient_minutage_srt(ligne: &str) -> (r: bool)
    ensures
        r == minutage_srt(ligne@),
{
    regex::Regex::new(r"\d{2}:\d{2}:\d{2},\d{3}\s+-->\s+\d{2}:\d{2}:\d{2},\d{3}")
        .expect("motif de minutage SRT")
        .is_match(ligne)
}

/// Chiffre décimal ASCII.
pub open spec fn chiffre_ascii(c: char) -> bool {
    '0' <= c && c <= '9'
}

/// Le morceau gardé d'une ligne SRT : la ligne rognée, sauf vide, minutage ou numéro de
/// bloc (chiffres ASCII seulement), balises retirées puis rognée, sauf si vide.
pub open spec fn morceau_srt(ligne: Seq<char>) -> Option<Seq<char>> {
    let l = rogne(ligne);
    if l.len() == 0 || minutage_srt(l) || (forall|i: int| 0 <= i < l.len() ==> chiffre_ascii(#[trigger] l[i])) {
        None
    } else {
        let n = rogne(sans_balises(l));
        if n.len() == 0 {
            None
        } else {
            Some(n)
        }
    }
}

/// Texte tiré d'un fichier SRT.
pub open spec fn texte_srt(srt: Seq<char>) -> Seq<char> {
    texte_depuis_morceaux(garder(lignes(srt), |l: Seq<char>| morceau_srt(l)))
}

fn que_des_chiffres(l: &[char]) -> (r: bool)
    ensures
        r == forall|i: int| 0 <= i < l@.len() ==> chiffre_ascii(#[trigger] l@[i]),
{
    let mut i: usize = 0;
    while i < l.len()
        invariant
            i <= l@.len(),
            forall|k: int| 0 <= k < i ==> chiffre_ascii(#[trigger] l@[k]),
        decreases l@.len() - i,
    {
        if !('0' <= l[i] && l[i] <= '9') {
            return false;
        }
        i = i + 1;
    }
    true
}

fn morceau_ligne_srt(ligne: &[char]) -> (r: Option<Vec<char>>)
    ensures
        match r {
            Some(m) => morceau_srt(ligne@) == Some(m@),
            None => morceau_srt(ligne@) is None,
        },
{
    let l = rogner(ligne);
    if l.len() == 0 {
        return None;
    }
    let texte = chaine_de(l.as_slice());
    if contient_minutage_srt(texte.as_str()) || que_des_chiffres(l.as_slice()) {
        return None;
    }
    let sans = retirer_balises(l.as_slice());
    let n = rogner(sans.as_slice());
    if n.len() == 0 {
        None
    } else {
        Some(n)
    }
}

/// Parse un fichier SRT en texte : sans numéros de bloc, sans minutages, sans balises,
/// blancs condensés.
pub fn parser_srt_vers_texte(srt: &str) -> (r: String)
    ensures
        r@ == texte_srt(srt@),
        est_propre(r@),
{
    let cs = caracteres(srt);
    let ls = decouper(cs.as_slice(), '\n');
    let mut morceaux: Vec<Vec<char>> = Vec::new();
    let mut i: usize = 0;
    while i < ls.len()
        invariant
            i <= ls.len(),
            morceaux.deep_view() == garder(ls.deep_view().take(i as int), |l: Seq<char>| morceau_srt(l)),
        decreases ls.len() - i,
    {
        proof {
            let t = ls.deep_view().take(i + 1);
            assert(t.drop_last() =~= ls.deep_view().take(i as int));
            assert(t.last() =~= ls[i as int]@);
        }
        match morceau_ligne_srt(ls[i].as_slice()) {
            Some(m) => {
                let ghost avant = morceaux.deep_view();
                let ghost vue = m@;
                assert(m.deep_view() =~= vue);
                morceaux.push(m);
                assert(morceaux.deep_view() =~~= avant.push(vue));
            },
            None => {},
        }
        i = i + 1;
    }
    assert(ls.deep_view().take(ls.len() as int) =~= ls.deep_view());
    texte_final(morceaux)
}

/// Le meilleur transcript : le plus long (en caractères) des textes non blancs, chacun
/// tronqué à `max` caractères ; à longueur égale, le premier.
pub open spec fn meilleur_transcript(textes: Seq<Seq<char>>, max: nat) -> Option<Seq<char>>
    decreases textes.len(),
{
    if textes.len() == 0 {
        None
    } else {
        let p = meilleur_transcript(textes.drop_last(), max);
        let d = textes.last();
        let t = if d.len() <= max { d } else { d.take(max as int) };
        if rogne(t).len() == 0 {
            p
        } else {
            match p {
                None => Some(t),
                Some(b) => if t.len() > b.len() {
                    Some(t)
                } else {
                    p
                },
            }
        }
    }
}

/// Choisit, parmi les transcripts déjà tirés de chaque fichier de sous-titres, le plus long
/// une fois tronqué à `max_caracteres_transcript` caractères ; rien s'ils sont tous blancs.
pub fn selectionner_meilleur_transcript(textes: &Vec<String>, max_caracteres_transcript: usize) -> (r: Option<String>)
    ensures
        vue_option_chaine(r) == meilleur_transcript(textes@.map_values(|s: String| s@), max_caracteres_transcript as nat),
{
    let ghost tv = textes@.map_values(|s: String| s@);
    let mut meilleur: Option<Vec<char>> = None;
    let mut i: usize = 0;
    while i < textes.len()
        invariant
            i <= textes@.len(),
            tv == textes@.map_values(|s: String| s@),
            match meilleur {
                Some(b) => meilleur_transcript(tv.take(i as int), max_caracteres_transcript as nat) == Some(b@),
                None => meilleur_transcript(tv.take(i as int), max_caracteres_transcript as nat) is None,
            },
        decreases textes@.len() - i,
    {
        proof {
            let t = tv.take(i + 1);
            assert(t.drop_last() =~= tv.take(i as int));
            assert(t.last() == textes@[i as int]@);
        }
        let mut cs = caracteres(textes[i].as_str());
        let ghost c0 = cs@;
        cs.truncate(max_caracteres_transcript);
        assert(cs@ =~= if c0.len() <= max_caracteres_transcript { c0 } else { c0.take(max_caracteres_transcript as int) });
        let verif = rogner(cs.as_slice());
        if verif.len() > 0 {
            let remplacer = match &meilleur {
                None => true,
                Some(b) => cs.len() > b.len(),
            };
            if remplacer {
                meilleur = Some(cs);
            }
        }
        i = i + 1;
    }
    assert(tv.take(textes@.len() as int) =~= tv);
    match meilleur {
        Some(b) => Some(chaine_de(b.as_slice())),
        None => None,
    }
}

/// Un texte tronqué à `max` caractères.
pub open spec fn tronque_a(d: Seq<char>, max: nat) -> Seq<char> {
    if d.len() <= max {
        d
    } else {
        d.take(max as int)
    }
}

/// Le transcript retenu est l'un des textes tronqués, non blanc, et aucun autre texte
/// tronqué non blanc n'est plus long ; rien n'est retenu quand ils sont tous blancs.
pub proof fn loi_meilleur_est_le_plus_long(textes: Seq<Seq<char>>, max: nat)
    ensures
        match meilleur_transcript(textes, max) {
            Some(b) => {
                &&& rogne(b).len() > 0
                &&& b.len() <= max
                &&& exists|i: int| 0 <= i < textes.len() && b == tronque_a(#[trigger] textes[i], max)
                &&& forall|i: int|
                    0 <= i < textes.len() && rogne(tronque_a(#[trigger] textes[i], max)).len() > 0
                        ==> tronque_a(textes[i], max).len() <= b.len()
            },
            None => forall|i: int| 0 <= i < textes.len() ==> rogne(tronque_a(#[trigger] textes[i], max)).len() == 0,
        },
    decreases textes.len(),
{
    if textes.len() > 0 {
        let p = textes.drop_last();
        loi_meilleur_est_le_plus_long(p, max);
        let n = textes.len() - 1;
        assert(textes[n] == textes.last());
        assert forall|i: int| 0 <= i < n implies #[trigger] textes[i] == p[i] by {}
        match meilleur_transcript(textes, max) {
            Some(b) => {
                match meilleur_transcript(p, max) {
                    Some(bp) => {
                        if b == bp {
                            let k = choose|i: int| 0 <= i < p.len() && bp == tronque_a(#[trigger] p[i], max);
                            assert(textes[k] == p[k]);
                        } else {
                            assert(b == tronque_a(textes[n], max));
                        }
                    },
                    None => {
                        assert(b == tronque_a(textes[n], max));
                    },
                }
            },
            None => {},
        }
    }
}

pub open spec fn vue_option_chaine(o: Option<String>) -> Option<Seq<char>> {
    match o {
        Some(s) => Some(s@),
        None => None,
    }
}

/// Un texte propre (ce que rendent les trois analyseurs de sous-titres : aucun blanc en tête
/// ni en queue, jamais deux blancs de suite, le seul blanc est l'espace) est laissé tel quel
/// par le rognage suivi du compactage des blancs.
pub proof fn loi_texte_propre_point_fixe(t: Seq<char>)
    requires
        est_propre(t),
    ensures
        compacte(rogne(t)) == t,
{
    crate::texte::lemme_rogne_propre(t);
    crate::texte::lemme_compacte_propre(t);
}


/// Fin d'un passage entre crochets ouvert juste avant `s` : position du premier `]`, s'il
/// vient avant tout saut de ligne.
pub open spec fn fin_crochets(s: Seq<char>) -> Option<int> {
    match position_premier(s, seq![']', '\n']) {
        Some(k) => if s[k] == ']' {
            Some(k)
        } else {
            None
        },
        None => None,
    }
}

/// Le texte sans ses passages entre crochets, retirés de gauche à droite, chacun fermé au
/// premier `]` de sa ligne (motif `\[.*?\]`).
pub open spec fn sans_crochets(s: Seq<char>) -> Seq<char>
    decreases s.len(),
{
    if s.len() == 0 {
        seq![]
    } else if s[0] == '[' && fin_crochets(s.skip(1)) is Some {
        proof {
            lemme_position_premier(s.skip(1), seq![']', '\n']);
        }
        sans_crochets(s.skip(fin_crochets(s.skip(1)).unwrap() + 2))
    } else {
        seq![s[0]] + sans_crochets(s.skip(1))
    }
}

fn retirer_crochets(s: &[char]) -> (r: Vec<char>)
    ensures
        r@ == sans_crochets(s@),
{
    let mut r: Vec<char> = Vec::new();
    let mut i: usize = 0;
    let seps = vec![']', '\n'];
    assert(seps@ =~= seq![']', '\n']);
    assert(s@.skip(0) =~= s@);
    while i < s.len()
        invariant
            i <= s@.len(),
            seps@ == seq![']', '\n'],
            r@ + sans_crochets(s@.skip(i as int)) == sans_crochets(s@),
        decreases s@.len() - i,
    {
        let ghost q = s@.skip(i as int);
        assert(q[0] == s@[i as int]);
        assert(q.skip(1) =~= s@.skip(i + 1));
        let mut saut: usize = 0;
        if s[i] == '[' {
            let reste = a_partir_de(s, i + 1);
            match position_parmi(reste.as_slice(), seps.as_slice()) {
                Some(k) => {
                    proof {
                        lemme_position_premier(reste@, seps@);
                    }
                    if reste[k] == ']' {
                        saut = k + 2;
                        assert(q.skip(k + 2) =~= s@.skip(i + k + 2));
                    }
                },
                None => {},
            }
        }
        if saut > 0 {
            i = i + saut;
        } else {
            let ghost avant = r@;
            r.push(s[i]);
            assert(r@ + sans_crochets(s@.skip(i + 1)) =~= avant + (seq![s@[i as int]] + sans_crochets(s@.skip(i + 1))));
            i = i + 1;
        }
    }
    assert(s@.skip(i as int) =~= Seq::<char>::empty());
    assert(r@ + sans_crochets(s@.skip(i as int)) =~= r@);
    r
}

/// Nettoyage poussé d'un transcript bruité : passages entre crochets retirés, texte rogné,
/// chaque suite de blancs ramenée à une espace.
pub fn nettoyer_transcript_supplementaire(texte: &str) -> (r: String)
    ensures
        r@ == compacte(rogne(sans_crochets(texte@))),
        est_propre(r@),
{
    let c = caracteres(texte);
    let s = retirer_crochets(c.as_slice());
    let t = rogner(s.as_slice());
    let u = compacter(t.as_slice());
    proof {
        lemme_compacte_rogne(sans_crochets(texte@));
    }
    chaine_de(u.as_slice())
}

/// Une balise `<m>` (au moins un caractère, aucun `>`) est retirée entière, quel que
/// soit son contenu (horodatage `<00:00:00.480>`, `<c>`, `</c>`…) ; la suite est traitée
/// comme si la balise n'avait pas été là. En particulier une balise seule ne laisse rien.
pub proof fn loi_balise_retiree(m: Seq<char>, b: Seq<char>)
    requires
        m.len() > 0,
        !m.contains('>'),
    ensures
        sans_balises(seq!['<'] + m + seq!['>'] + b) == sans_balises(b),
        sans_balises(seq!['<'] + m + seq!['>']) == Seq::<char>::empty(),
{
    let s = seq!['<'] + m + seq!['>'] + b;
    let j: int = m.len() as int + 1;
    assert forall|l: int| 1 <= l < j implies s[l] != '>' by {
        assert(s[l] == m[l - 1]);
        if s[l] == '>' {
            assert(m.contains('>'));
        }
    }
    assert(s[j] == '>');
    assert(ferme_balise(s, j));
    assert forall|j2: int| ferme_balise(s, j2) implies j2 == j by {
        if j2 < j {
            assert(s[j2] == m[j2 - 1]);
            assert(m.contains('>'));
        } else if j2 > j {
            assert(s[j] != '>');
        }
    }
    assert(s.skip(j + 1) =~= b);
    let s0 = seq!['<'] + m + seq!['>'];
    assert forall|l: int| 1 <= l < j implies s0[l] != '>' by {
        assert(s0[l] == m[l - 1]);
        if s0[l] == '>' {
            assert(m.contains('>'));
        }
    }
    assert(ferme_balise(s0, j));
    assert forall|j2: int| ferme_balise(s0, j2) implies j2 == j by {
        if j2 < j {
            assert(s0[j2] == m[j2 - 1]);
            assert(m.contains('>'));
        }
    }
    assert(s0.skip(j + 1) =~= Seq::<char>::empty());
    assert(sans_balises(s0.skip(j + 1)) =~= Seq::<char>::empty());
}

/// Un texte sans `<` est gardé tel quel devant ce qui suit.
pub proof fn loi_texte_sans_chevron(a: Seq<char>, t: Seq<char>)
    requires
        !a.contains('<'),
    ensures
        sans_balises(a + t) == a + sans_balises(t),
    decreases a.len(),
{
    if a.len() == 0 {
        assert(a + t =~= t);
        assert(a + sans_balises(t) =~= sans_balises(t));
    } else {
        let s = a + t;
        assert(s[0] == a[0]);
        if a[0] == '<' {
            assert(a.contains('<'));
        }
        let a1 = a.skip(1);
        assert forall|i: int| 0 <= i < a1.len() implies a1[i] != '<' by {
            assert(a1[i] == a[i + 1]);
            if a1[i] == '<' {
                assert(a.contains('<'));
            }
        }
        loi_texte_sans_chevron(a1, t);
        assert(s.skip(1) =~= a1 + t);
        assert(seq![a[0]] + (a1 + sans_balises(t)) =~= a + sans_balises(t));
    }
}

/// Dans un texte, chaque balise `<…>` disparaît et le texte autour reste : avec `a` sans
/// `<`, `a<m>b` devient `a` suivi de `b` sans ses balises.
pub proof fn loi_balise_dans_le_texte(a: Seq<char>, m: Seq<char>, b: Seq<char>)
    requires
        !a.contains('<'),
        m.len() > 0,
        !m.contains('>'),
    ensures
        sans_balises(a + seq!['<'] + m + seq!['>'] + b) == a + sans_balises(b),
{
    let t = seq!['<'] + m + seq!['>'] + b;
    assert(a + seq!['<'] + m + seq!['>'] + b =~= a + t);
    loi_texte_sans_chevron(a, t);
    loi_balise_retiree(m, b);
}

/// Une ligne SRT est écartée seulement si elle est blanche, si c'est un minutage, si c'est
/// un numéro de bloc (rien que des chiffres ASCII) ou s'il n'en reste rien sans ses
/// balises ; une ligne de texte qui commence par un chiffre est gardée, rognée, sans ses
/// balises.
pub proof fn loi_ligne_srt_gardee(ligne: Seq<char>)
    ensures
        morceau_srt(ligne) is None ==> rogne(ligne).len() == 0 || minutage_srt(rogne(ligne))
            || (forall|i: int| 0 <= i < rogne(ligne).len() ==> chiffre_ascii(#[trigger] rogne(ligne)[i]))
            || rogne(sans_balises(rogne(ligne))).len() == 0,
        (rogne(ligne).len() > 0 && !minutage_srt(rogne(ligne))
            && (exists|i: int| 0 <= i < rogne(ligne).len() && !chiffre_ascii(#[trigger] rogne(ligne)[i]))
            && rogne(sans_balises(rogne(ligne))).len() > 0)
            ==> morceau_srt(ligne) == Some(rogne(sans_balises(rogne(ligne)))),
        (rogne(ligne).len() > 0
            && (forall|i: int| 0 <= i < rogne(ligne).len() ==> chiffre_ascii(#[trigger] rogne(ligne)[i])))
            ==> morceau_srt(ligne) is None,
{
}

} // verus!
