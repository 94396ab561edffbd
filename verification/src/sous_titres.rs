//! Langues de sous-titres : lecture de la sortie de `yt-dlp --list-subs` et ordre d'essai.

use vstd::prelude::*;
use crate::texte::{
    apparait_a, chaine_de, commence_par, etendre, joindre, joindre_morceaux, rogne, rogner,
    a_partir_de, caracteres, chaines_de, contient, contient_morceau, contient_motif, decoupe,
    decouper, egaux_ascii, egaux_sans_casse_ascii, est_blanc, est_blanc_spec, memes,
    pousser_morceau, rogner_debut, rogner_fin, sans_blancs_debut, sans_blancs_fin,
};

verus! {

/// Caractère admis dans un code langue : `[A-Za-z0-9.-]`.
pub open spec fn car_code(c: char) -> bool {
    ('A' <= c && c <= 'Z') || ('a' <= c && c <= 'z') || ('0' <= c && c <= '9') || c == '.' || c == '-'
}

/// Caractère alphanumérique ASCII.
pub open spec fn alnum_ascii(c: char) -> bool {
    ('A' <= c && c <= 'Z') || ('a' <= c && c <= 'z') || ('0' <= c && c <= '9')
}

/// Longueur du plus long préfixe fait de caractères de code.
pub open spec fn longueur_code(d: Seq<char>) -> nat
    decreases d.len(),
{
    if d.len() > 0 && car_code(d[0]) {
        1 + longueur_code(d.skip(1))
    } else {
        0
    }
}

/// Code en tête d'une ligne sans blanc de tête (motif `^\s*([A-Za-z0-9][A-Za-z0-9.-]{0,39})\s+`) :
/// au plus 40 caractères de code commençant par un alphanumérique, suivis d'un blanc.
pub open spec fn code_en_tete(d: Seq<char>) -> Option<Seq<char>> {
    let l = longueur_code(d);
    if d.len() > 0 && alnum_ascii(d[0]) && l <= 40 && l < d.len() && est_blanc_spec(d[l as int]) {
        Some(d.take(l as int))
    } else {
        None
    }
}

/// Mots d'en-tête du tableau de `--list-subs`, pris à tort pour un code langue.
pub open spec fn en_tete_fausse_langue(code: Seq<char>) -> bool {
    ||| code == "Language"@
    ||| code == "Name"@
    ||| code == "Formats"@
    ||| code == "Automatic"@
    ||| code == "Subtitles"@
    ||| code == "Available"@
    ||| egaux_sans_casse_ascii(code, "info"@)
}

/// Le code langue d'une ligne du tableau : la ligne doit citer `vtt`, `json3` ou `srv` ;
/// code d'au moins deux caractères, pas un mot d'en-tête.
pub open spec fn code_ligne(ligne: Seq<char>) -> Option<Seq<char>> {
    let l = sans_blancs_fin(ligne);
    if !contient(l, "vtt"@) && !contient(l, "json3"@) && !contient(l, "srv"@) {
        None
    } else {
        match code_en_tete(sans_blancs_debut(l)) {
            Some(c) => if c.len() < 2 || en_tete_fausse_langue(c) {
                None
            } else {
                Some(c)
            },
            None => None,
        }
    }
}

/// Section du tableau en cours de lecture.
#[derive(Debug, Clone, Copy, PartialEq, Eq, Structural)]
pub enum SectionListeSousTitres {
    Aucune,
    Manuel,
    Automatique,
}

/// Ligne qui ouvre la section des sous-titres manuels.
pub open spec fn ouvre_manuel(ligne: Seq<char>) -> bool {
    contient(ligne, "[info]"@) && contient(ligne, "Available subtitles for"@)
}

/// Ligne qui ouvre la section des sous-titres automatiques.
pub open spec fn ouvre_automatique(ligne: Seq<char>) -> bool {
    contient(ligne, "[info]"@) && contient(ligne, "Available automatic captions"@)
}

/// Lecture des lignes : section courante, codes manuels, codes automatiques (sans doublon).
pub open spec fn lecture_sections(ls: Seq<Seq<char>>) -> (SectionListeSousTitres, Seq<Seq<char>>, Seq<Seq<char>>)
    decreases ls.len(),
{
    if ls.len() == 0 {
        (SectionListeSousTitres::Aucune, seq![], seq![])
    } else {
        let (section, manuel, auto) = lecture_sections(ls.drop_last());
        let ligne = ls.last();
        if ouvre_manuel(ligne) {
            (SectionListeSousTitres::Manuel, manuel, auto)
        } else if ouvre_automatique(ligne) {
            (SectionListeSousTitres::Automatique, manuel, auto)
        } else {
            match code_ligne(ligne) {
                Some(c) => match section {
                    SectionListeSousTitres::Manuel => (section, if manuel.contains(c) { manuel } else { manuel.push(c) }, auto),
                    SectionListeSousTitres::Automatique => (section, manuel, if auto.contains(c) { auto } else { auto.push(c) }),
                    SectionListeSousTitres::Aucune => (section, manuel, auto),
                },
                None => (section, manuel, auto),
            }
        }
    }
}

/// `base` suivie des éléments de `ajout` qui n'y sont pas encore.
pub open spec fn fusion_sans_doublon(base: Seq<Seq<char>>, ajout: Seq<Seq<char>>) -> Seq<Seq<char>>
    decreases ajout.len(),
{
    if ajout.len() == 0 {
        base
    } else {
        let p = fusion_sans_doublon(base, ajout.drop_last());
        if p.contains(ajout.last()) {
            p
        } else {
            p.push(ajout.last())
        }
    }
}

/// Lecture à plat, sans sections : tous les codes, sans doublon.
pub open spec fn codes_a_plat(ls: Seq<Seq<char>>) -> Seq<Seq<char>>
    decreases ls.len(),
{
    if ls.len() == 0 {
        seq![]
    } else {
        let p = codes_a_plat(ls.drop_last());
        match code_ligne(ls.last()) {
            Some(c) => if p.contains(c) {
                p
            } else {
                p.push(c)
            },
            None => p,
        }
    }
}

/// Les codes langue de la sortie de `--list-subs` : manuels d'abord, puis automatiques ;
/// à défaut de sections reconnues, lecture à plat.
pub open spec fn codes_langues(brut: Seq<char>) -> Seq<Seq<char>> {
    let (_, manuel, auto) = lecture_sections(decoupe(brut, '\n'));
    let r = fusion_sans_doublon(manuel, auto);
    if r.len() == 0 {
        codes_a_plat(decoupe(brut, '\n'))
    } else {
        r
    }
}

pub fn est_code(c: char) -> (r: bool)
    ensures
        r == car_code(c),
{
    ('A' <= c && c <= 'Z') || ('a' <= c && c <= 'z') || ('0' <= c && c <= '9') || c == '.' || c == '-'
}

proof fn lemme_longueur_code(d: Seq<char>, i: int)
    requires
        0 <= i <= d.len(),
        forall|j: int| 0 <= j < i ==> car_code(#[trigger] d[j]),
        i < d.len() ==> !car_code(d[i]),
    ensures
        longueur_code(d) == i,
    decreases i,
{
    if i > 0 {
        assert forall|j: int| 0 <= j < i - 1 implies car_code(#[trigger] d.skip(1)[j]) by {
            assert(d.skip(1)[j] == d[j + 1]);
        }
        if i < d.len() {
            assert(d.skip(1)[i - 1] == d[i]);
        }
        lemme_longueur_code(d.skip(1), i - 1);
    } else if d.len() > 0 {
        assert(!car_code(d[0]));
    }
}

fn code_en_tete_exec(d: &[char]) -> (r: Option<Vec<char>>)
    ensures
        match r {
            Some(c) => code_en_tete(d@) == Some(c@),
            None => code_en_tete(d@) is None,
        },
{
    let mut l: usize = 0;
    while l < d.len() && est_code(d[l])
        invariant
            l <= d@.len(),
            forall|j: int| 0 <= j < l ==> car_code(#[trigger] d@[j]),
        decreases d@.len() - l,
    {
        l = l + 1;
    }
    proof {
        lemme_longueur_code(d@, l as int);
    }
    if d.len() > 0 && ('A' <= d[0] && d[0] <= 'Z' || 'a' <= d[0] && d[0] <= 'z' || '0' <= d[0] && d[0] <= '9') && l <= 40 && l < d.len() && est_blanc(d[l]) {
        let mut c: Vec<char> = Vec::new();
        let mut k: usize = 0;
        while k < l
            invariant
                k <= l <= d@.len(),
                c@ =~= d@.take(k as int),
            decreases l - k,
        {
            c.push(d[k]);
            k = k + 1;
        }
        Some(c)
    } else {
        None
    }
}

/// Mots d'en-tête du tableau de `--list-subs`, pris à tort pour un code langue.
pub fn est_en_tete_fausse_langue_liste_sous_titres(code: &str) -> (r: bool)
    ensures
        r == en_tete_fausse_langue(code@),
{
    let c = caracteres(code);
    let m0 = caracteres("Language");
    let m1 = caracteres("Name");
    let m2 = caracteres("Formats");
    let m3 = caracteres("Automatic");
    let m4 = caracteres("Subtitles");
    let m5 = caracteres("Available");
    let info = caracteres("info");
    memes(c.as_slice(), m0.as_slice()) || memes(c.as_slice(), m1.as_slice()) || memes(
        c.as_slice(),
        m2.as_slice(),
    ) || memes(c.as_slice(), m3.as_slice()) || memes(c.as_slice(), m4.as_slice()) || memes(
        c.as_slice(),
        m5.as_slice(),
    ) || egaux_ascii(c.as_slice(), info.as_slice())
}

/// Les motifs lus par l'analyse, en caractères.
struct MotifsListe {
    vtt: Vec<char>,
    json3: Vec<char>,
    srv: Vec<char>,
    info: Vec<char>,
    manuel: Vec<char>,
    auto: Vec<char>,
}

impl MotifsListe {
    spec fn valides(&self) -> bool {
        &&& self.vtt@ == "vtt"@
        &&& self.json3@ == "json3"@
        &&& self.srv@ == "srv"@
        &&& self.info@ == "[info]"@
        &&& self.manuel@ == "Available subtitles for"@
        &&& self.auto@ == "Available automatic captions"@
    }

    fn nouveaux() -> (r: MotifsListe)
        ensures
            r.valides(),
    {
        MotifsListe {
            vtt: caracteres("vtt"),
            json3: caracteres("json3"),
            srv: caracteres("srv"),
            info: caracteres("[info]"),
            manuel: caracteres("Available subtitles for"),
            auto: caracteres("Available automatic captions"),
        }
    }
}

fn code_de_ligne(ligne: &[char], m: &MotifsListe) -> (r: Option<Vec<char>>)
    requires
        m.valides(),
    ensures
        match r {
            Some(c) => code_ligne(ligne@) == Some(c@),
            None => code_ligne(ligne@) is None,
        },
{
    let l = rogner_fin(ligne);
    if !contient_motif(l.as_slice(), m.vtt.as_slice()) && !contient_motif(l.as_slice(), m.json3.as_slice())
        && !contient_motif(l.as_slice(), m.srv.as_slice()) {
        return None;
    }
    let debut = rogner_debut(l.as_slice());
    match code_en_tete_exec(debut.as_slice()) {
        Some(c) => {
            let s = crate::texte::chaine_de(c.as_slice());
            if c.len() < 2 || est_en_tete_fausse_langue_liste_sous_titres(s.as_str()) {
                None
            } else {
                Some(c)
            }
        },
        None => None,
    }
}

fn fusionner(base: Vec<Vec<char>>, ajout: &Vec<Vec<char>>) -> (r: Vec<Vec<char>>)
    ensures
        r.deep_view() == fusion_sans_doublon(base.deep_view(), ajout.deep_view()),
{
    let mut r = base;
    let ghost b = r.deep_view();
    let mut i: usize = 0;
    while i < ajout.len()
        invariant
            i <= ajout@.len(),
            r.deep_view() == fusion_sans_doublon(b, ajout.deep_view().take(i as int)),
        decreases ajout@.len() - i,
    {
        proof {
            let t = ajout.deep_view().take(i + 1);
            assert(t.drop_last() =~= ajout.deep_view().take(i as int));
            assert(t.last() =~= ajout[i as int]@);
        }
        if !contient_morceau(&r, ajout[i].as_slice()) {
            let mut copie: Vec<char> = Vec::new();
            crate::texte::etendre(&mut copie, ajout[i].as_slice());
            pousser_morceau(&mut r, copie);
        }
        i = i + 1;
    }
    assert(ajout.deep_view().take(ajout@.len() as int) =~= ajout.deep_view());
    r
}

/// Codes langue de la sortie de `--list-subs` : sous-titres manuels d'abord, puis
/// automatiques ; lecture à plat si aucune section n'est reconnue.
pub fn parser_codes_langues_depuis_sortie_liste_sous_titres(brut: &str) -> (r: Vec<String>)
    ensures
        r@.map_values(|s: String| s@) == codes_langues(brut@),
{
    let m = MotifsListe::nouveaux();
    let cs = caracteres(brut);
    let ls = decouper(cs.as_slice(), '\n');
    let mut section = SectionListeSousTitres::Aucune;
    let mut manuel: Vec<Vec<char>> = Vec::new();
    let mut auto: Vec<Vec<char>> = Vec::new();
    let mut plat: Vec<Vec<char>> = Vec::new();
    let mut i: usize = 0;
    while i < ls.len()
        invariant
            i <= ls@.len(),
            m.valides(),
            (section, manuel.deep_view(), auto.deep_view()) == lecture_sections(ls.deep_view().take(i as int)),
            plat.deep_view() == codes_a_plat(ls.deep_view().take(i as int)),
        decreases ls@.len() - i,
    {
        proof {
            let t = ls.deep_view().take(i + 1);
            assert(t.drop_last() =~= ls.deep_view().take(i as int));
            assert(t.last() =~= ls[i as int]@);
        }
        let ligne = ls[i].as_slice();
        let code = code_de_ligne(ligne, &m);
        match &code {
            Some(c) => {
                if !contient_morceau(&plat, c.as_slice()) {
                    let mut copie: Vec<char> = Vec::new();
                    crate::texte::etendre(&mut copie, c.as_slice());
                    pousser_morceau(&mut plat, copie);
                }
            },
            None => {},
        }
        let a_info = contient_motif(ligne, m.info.as_slice());
        if a_info && contient_motif(ligne, m.manuel.as_slice()) {
            section = SectionListeSousTitres::Manuel;
        } else if a_info && contient_motif(ligne, m.auto.as_slice()) {
            section = SectionListeSousTitres::Automatique;
        } else {
            match code {
                Some(c) => match section {
                    SectionListeSousTitres::Manuel => {
                        if !contient_morceau(&manuel, c.as_slice()) {
                            pousser_morceau(&mut manuel, c);
                        }
                    },
                    SectionListeSousTitres::Automatique => {
                        if !contient_morceau(&auto, c.as_slice()) {
                            pousser_morceau(&mut auto, c);
                        }
                    },
                    SectionListeSousTitres::Aucune => {},
                },
                None => {},
            }
        }
        i = i + 1;
    }
    assert(ls.deep_view().take(ls@.len() as int) =~= ls.deep_view());
    let resultat = fusionner(manuel, &auto);
    if resultat.len() == 0 {
        chaines_de(&plat)
    } else {
        chaines_de(&resultat)
    }
}


/// `l` convient à la préférence `pref` : égale, ou de la forme `pref-…`.
pub open spec fn correspond(l: Seq<char>, pref: Seq<char>) -> bool {
    l == pref || commence_par(l, pref + seq!['-'])
}

/// Premier code disponible qui convient à `pref`.
pub open spec fn premier_correspondant(ds: Seq<Seq<char>>, pref: Seq<char>) -> Option<Seq<char>>
    decreases ds.len(),
{
    if ds.len() == 0 {
        None
    } else if correspond(ds[0], pref) {
        Some(ds[0])
    } else {
        premier_correspondant(ds.skip(1), pref)
    }
}

/// Pour chaque préférence, dans l'ordre, le premier code disponible qui lui convient.
pub open spec fn preferes(ds: Seq<Seq<char>>, prefs: Seq<Seq<char>>) -> Seq<Seq<char>>
    decreases prefs.len(),
{
    if prefs.len() == 0 {
        seq![]
    } else {
        let p = preferes(ds, prefs.drop_last());
        match premier_correspondant(ds, prefs.last()) {
            Some(l) => p.push(l),
            None => p,
        }
    }
}

/// Ordre d'essai des langues : les préférées d'abord, puis le reste dans l'ordre de yt-dlp.
pub open spec fn ordre_langues(ds: Seq<Seq<char>>, prefs: Seq<Seq<char>>) -> Seq<Seq<char>> {
    fusion_sans_doublon(preferes(ds, prefs), ds)
}

fn premier_qui_convient(ds: &Vec<Vec<char>>, pref: &[char]) -> (r: Option<Vec<char>>)
    ensures
        match r {
            Some(l) => premier_correspondant(ds.deep_view(), pref@) == Some(l@),
            None => premier_correspondant(ds.deep_view(), pref@) is None,
        },
{
    let mut avec_tiret: Vec<char> = Vec::new();
    etendre(&mut avec_tiret, pref);
    avec_tiret.push('-');
    assert(avec_tiret@ =~= pref@ + seq!['-']);
    let ghost dv = ds.deep_view();
    let mut i: usize = 0;
    assert(dv.skip(0) =~= dv);
    while i < ds.len()
        invariant
            i <= ds@.len(),
            dv == ds.deep_view(),
            avec_tiret@ == pref@ + seq!['-'],
            premier_correspondant(dv, pref@) == premier_correspondant(dv.skip(i as int), pref@),
        decreases ds@.len() - i,
    {
        let ghost t = dv.skip(i as int);
        assert(t[0] =~= ds[i as int]@);
        if memes(ds[i].as_slice(), pref) || apparait_a(ds[i].as_slice(), avec_tiret.as_slice(), 0) {
            let mut l: Vec<char> = Vec::new();
            etendre(&mut l, ds[i].as_slice());
            return Some(l);
        }
        assert(t.skip(1) =~= dv.skip(i + 1));
        i = i + 1;
    }
    None
}

/// Ordre d'essai des langues : pour chaque préférence (variantes `fr-orig`, `en-GB`… admises)
/// le premier code disponible qui convient, puis les autres codes dans l'ordre de yt-dlp.
pub fn construire_ordre_langues(disponibles: &Vec<Vec<char>>, preferences: &Vec<Vec<char>>) -> (r: Vec<Vec<char>>)
    ensures
        r.deep_view() == ordre_langues(disponibles.deep_view(), preferences.deep_view()),
{
    let mut r: Vec<Vec<char>> = Vec::new();
    let mut i: usize = 0;
    while i < preferences.len()
        invariant
            i <= preferences@.len(),
            r.deep_view() == preferes(disponibles.deep_view(), preferences.deep_view().take(i as int)),
        decreases preferences@.len() - i,
    {
        proof {
            let t = preferences.deep_view().take(i + 1);
            assert(t.drop_last() =~= preferences.deep_view().take(i as int));
            assert(t.last() =~= preferences[i as int]@);
        }
        match premier_qui_convient(disponibles, preferences[i].as_slice()) {
            Some(l) => pousser_morceau(&mut r, l),
            None => {},
        }
        i = i + 1;
    }
    assert(preferences.deep_view().take(preferences@.len() as int) =~= preferences.deep_view());
    fusionner(r, disponibles)
}

/// Langues préférées, dans l'ordre où les essayer : l'anglais d'abord, puis le français,
/// puis les autres.
pub open spec fn langues_preferees() -> Seq<Seq<char>> {
    seq![
        "en"@, "fr"@, "es"@, "de"@, "it"@, "pt"@, "ru"@, "ja"@, "nl"@, "pl"@, "ko"@, "zh"@, "hi"@,
        "ar"@, "tr"@,
    ]
}

/// Codes à essayer : les préférés si yt-dlp n'en a listé aucun, sinon les 16 premiers de
/// l'ordre d'essai.
pub open spec fn codes_a_tester_spec(disponibles: Seq<Seq<char>>) -> Seq<Seq<char>> {
    if disponibles.len() == 0 {
        langues_preferees()
    } else {
        let o = ordre_langues(disponibles, langues_preferees());
        if o.len() <= 16 {
            o
        } else {
            o.take(16)
        }
    }
}

fn preferees() -> (r: Vec<Vec<char>>)
    ensures
        r.deep_view() == langues_preferees(),
{
    let mut r: Vec<Vec<char>> = Vec::new();
    pousser_morceau(&mut r, caracteres("en"));
    pousser_morceau(&mut r, caracteres("fr"));
    pousser_morceau(&mut r, caracteres("es"));
    pousser_morceau(&mut r, caracteres("de"));
    pousser_morceau(&mut r, caracteres("it"));
    pousser_morceau(&mut r, caracteres("pt"));
    pousser_morceau(&mut r, caracteres("ru"));
    pousser_morceau(&mut r, caracteres("ja"));
    pousser_morceau(&mut r, caracteres("nl"));
    pousser_morceau(&mut r, caracteres("pl"));
    pousser_morceau(&mut r, caracteres("ko"));
    pousser_morceau(&mut r, caracteres("zh"));
    pousser_morceau(&mut r, caracteres("hi"));
    pousser_morceau(&mut r, caracteres("ar"));
    pousser_morceau(&mut r, caracteres("tr"));
    assert(r.deep_view() =~= langues_preferees());
    r
}

/// Codes langue à essayer, dans l'ordre.
pub fn codes_a_tester(disponibles: &Vec<Vec<char>>) -> (r: Vec<Vec<char>>)
    ensures
        r.deep_view() == codes_a_tester_spec(disponibles.deep_view()),
{
    let prefs = preferees();
    if disponibles.len() == 0 {
        return prefs;
    }
    let mut o = construire_ordre_langues(disponibles, &prefs);
    let ghost avant = o.deep_view();
    o.truncate(16);
    assert(o.deep_view() =~= if avant.len() <= 16 { avant } else { avant.take(16) });
    o
}

/// Format de sous-titres demandé à yt-dlp.
#[derive(Debug, Clone, Copy, PartialEq, Eq, Structural)]
pub enum FormatSousTitres {
    Vtt,
    Json3,
    Srt,
}

/// Une tentative d'extraction : format, langues (séparées par des virgules), et si les
/// fichiers écrits sont lus et l'échec retenu quand yt-dlp échoue.
pub struct TentativeSousTitres {
    pub format: FormatSousTitres,
    pub langues: String,
    pub lire_si_echec: bool,
    pub retenir_echec: bool,
}

pub open spec fn vue_tentative(t: TentativeSousTitres) -> (FormatSousTitres, Seq<char>, bool, bool) {
    (t.format, t.langues@, t.lire_si_echec, t.retenir_echec)
}

pub open spec fn prefixe(s: Seq<Seq<char>>, n: nat) -> Seq<Seq<char>> {
    if s.len() <= n {
        s
    } else {
        s.take(n as int)
    }
}

/// Un VTT par langue parmi les 12 premières.
pub open spec fn etapes_vtt(codes: Seq<Seq<char>>) -> Seq<(FormatSousTitres, Seq<char>, bool, bool)>
    decreases codes.len(),
{
    if codes.len() == 0 {
        seq![]
    } else {
        etapes_vtt(codes.drop_last()).push((FormatSousTitres::Vtt, codes.last(), true, true))
    }
}

/// JSON3 puis SRT par langue parmi les 8 premières.
pub open spec fn etapes_json3_srt(codes: Seq<Seq<char>>) -> Seq<(FormatSousTitres, Seq<char>, bool, bool)>
    decreases codes.len(),
{
    if codes.len() == 0 {
        seq![]
    } else {
        etapes_json3_srt(codes.drop_last()).push((FormatSousTitres::Json3, codes.last(), true, true)).push(
            (FormatSousTitres::Srt, codes.last(), true, true),
        )
    }
}

/// Plan d'extraction : un lot VTT des 8 premières langues (un échec n'y est ni lu ni retenu),
/// puis un VTT par langue (12 premières), puis JSON3 et SRT par langue (8 premières).
pub open spec fn plan_extraction(codes: Seq<Seq<char>>) -> Seq<(FormatSousTitres, Seq<char>, bool, bool)> {
    let lot = if codes.len() == 0 {
        seq![]
    } else {
        seq![(FormatSousTitres::Vtt, joindre(prefixe(codes, 8), seq![',']), false, false)]
    };
    lot + etapes_vtt(prefixe(codes, 12)) + etapes_json3_srt(prefixe(codes, 8))
}

fn tentative(format: FormatSousTitres, langues: &[char], lire: bool) -> (r: TentativeSousTitres)
    ensures
        vue_tentative(r) == (format, langues@, lire, lire),
{
    TentativeSousTitres { format, langues: chaine_de(langues), lire_si_echec: lire, retenir_echec: lire }
}

/// Les tentatives d'extraction de sous-titres, dans l'ordre où les essayer, pour les langues
/// disponibles listées par yt-dlp.
pub fn plan_extraction_transcript(disponibles: &Vec<Vec<char>>) -> (r: Vec<TentativeSousTitres>)
    ensures
        r@.map_values(|t: TentativeSousTitres| vue_tentative(t)) == plan_extraction(codes_a_tester_spec(disponibles.deep_view())),
{
    let codes = codes_a_tester(disponibles);
    let ghost cv = codes.deep_view();
    let mut r: Vec<TentativeSousTitres> = Vec::new();
    if codes.len() > 0 {
        let n8 = if codes.len() < 8 { codes.len() } else { 8 };
        let mut huit: Vec<Vec<char>> = Vec::new();
        let mut k: usize = 0;
        while k < n8
            invariant
                k <= n8 <= codes@.len(),
                n8 == prefixe(cv, 8).len(),
                cv == codes.deep_view(),
                huit.deep_view() == prefixe(cv, 8).take(k as int),
            decreases n8 - k,
        {
            let mut copie: Vec<char> = Vec::new();
            etendre(&mut copie, codes[k].as_slice());
            pousser_morceau(&mut huit, copie);
            assert(cv[k as int] =~= codes[k as int]@);
            assert(prefixe(cv, 8)[k as int] == cv[k as int]);
            assert(prefixe(cv, 8).take(k + 1) =~= prefixe(cv, 8).take(k as int).push(codes[k as int]@));
            k = k + 1;
        }
        assert(prefixe(cv, 8).take(n8 as int) =~= prefixe(cv, 8));
        let virgule = vec![','];
        assert(virgule@ =~= seq![',']);
        let joint = joindre_morceaux(&huit, virgule.as_slice());
        r.push(tentative(FormatSousTitres::Vtt, joint.as_slice(), false));
        assert(r@.map_values(|t: TentativeSousTitres| vue_tentative(t)) =~= seq![(FormatSousTitres::Vtt, joindre(prefixe(cv, 8), seq![',']), false, false)]);
        return plan_suite(codes, r);
    }
    assert(r@.map_values(|t: TentativeSousTitres| vue_tentative(t)) =~= Seq::<(FormatSousTitres, Seq<char>, bool, bool)>::empty());
    plan_suite(codes, r)
}

fn plan_suite(codes: Vec<Vec<char>>, debut: Vec<TentativeSousTitres>) -> (r: Vec<TentativeSousTitres>)
    ensures
        r@.map_values(|t: TentativeSousTitres| vue_tentative(t)) == debut@.map_values(|t: TentativeSousTitres| vue_tentative(t))
            + etapes_vtt(prefixe(codes.deep_view(), 12)) + etapes_json3_srt(prefixe(codes.deep_view(), 8)),
{
    let ghost cv = codes.deep_view();
    let ghost d = debut@.map_values(|t: TentativeSousTitres| vue_tentative(t));
    let mut r = debut;
    let n12 = if codes.len() < 12 { codes.len() } else { 12 };
    let mut i: usize = 0;
    while i < n12
        invariant
            i <= n12 <= codes@.len(),
            n12 == prefixe(cv, 12).len(),
            cv == codes.deep_view(),
            r@.map_values(|t: TentativeSousTitres| vue_tentative(t)) == d + etapes_vtt(prefixe(cv, 12).take(i as int)),
        decreases n12 - i,
    {
        proof {
            let t = prefixe(cv, 12).take(i + 1);
            assert(t.drop_last() =~= prefixe(cv, 12).take(i as int));
            assert(t.last() =~= codes[i as int]@);
        }
        let ghost avant = r@;
        let x = tentative(FormatSousTitres::Vtt, codes[i].as_slice(), true);
        r.push(x);
        assert(r@.map_values(|t: TentativeSousTitres| vue_tentative(t)) =~= avant.map_values(|t: TentativeSousTitres| vue_tentative(t)).push(vue_tentative(x)));
        i = i + 1;
    }
    assert(prefixe(cv, 12).take(n12 as int) =~= prefixe(cv, 12));
    let ghost d2 = r@.map_values(|t: TentativeSousTitres| vue_tentative(t));
    let n8 = if codes.len() < 8 { codes.len() } else { 8 };
    let mut j: usize = 0;
    while j < n8
        invariant
            j <= n8 <= codes@.len(),
            n8 == prefixe(cv, 8).len(),
            cv == codes.deep_view(),
            r@.map_values(|t: TentativeSousTitres| vue_tentative(t)) == d2 + etapes_json3_srt(prefixe(cv, 8).take(j as int)),
        decreases n8 - j,
    {
        proof {
            let t = prefixe(cv, 8).take(j + 1);
            assert(t.drop_last() =~= prefixe(cv, 8).take(j as int));
            assert(t.last() =~= codes[j as int]@);
        }
        let ghost avant = r@;
        let x = tentative(FormatSousTitres::Json3, codes[j].as_slice(), true);
        let y = tentative(FormatSousTitres::Srt, codes[j].as_slice(), true);
        r.push(x);
        r.push(y);
        assert(r@.map_values(|t: TentativeSousTitres| vue_tentative(t)) =~= avant.map_values(|t: TentativeSousTitres| vue_tentative(t)).push(vue_tentative(x)).push(vue_tentative(y)));
        j = j + 1;
    }
    assert(prefixe(cv, 8).take(n8 as int) =~= prefixe(cv, 8));
    r
}


/// Sans doublon.
pub open spec fn sans_doublon(s: Seq<Seq<char>>) -> bool {
    forall|i: int, j: int| 0 <= i < j < s.len() ==> s[i] != s[j]
}

proof fn lemme_fusion(base: Seq<Seq<char>>, ajout: Seq<Seq<char>>)
    ensures
        forall|x: Seq<char>| ajout.contains(x) ==> #[trigger] fusion_sans_doublon(base, ajout).contains(x),
        forall|x: Seq<char>| base.contains(x) ==> #[trigger] fusion_sans_doublon(base, ajout).contains(x),
        forall|x: Seq<char>| #[trigger] fusion_sans_doublon(base, ajout).contains(x) ==> base.contains(x) || ajout.contains(x),
        sans_doublon(base) ==> sans_doublon(fusion_sans_doublon(base, ajout)),
    decreases ajout.len(),
{
    if ajout.len() > 0 {
        let q = ajout.drop_last();
        lemme_fusion(base, q);
        let p = fusion_sans_doublon(base, q);
        let f = fusion_sans_doublon(base, ajout);
        assert forall|x: Seq<char>| ajout.contains(x) implies #[trigger] f.contains(x) by {
            let i = choose|i: int| 0 <= i < ajout.len() && ajout[i] == x;
            if i < ajout.len() - 1 {
                assert(q[i] == x);
                assert(q.contains(x));
                assert(p.contains(x));
                let k = choose|k: int| 0 <= k < p.len() && p[k] == x;
                assert(f[k] == x);
            } else if !p.contains(x) {
                assert(f[p.len() as int] == x);
            }
        }
        assert forall|x: Seq<char>| base.contains(x) implies #[trigger] f.contains(x) by {
            assert(p.contains(x));
            let k = choose|k: int| 0 <= k < p.len() && p[k] == x;
            assert(f[k] == x);
        }
        assert forall|x: Seq<char>| #[trigger] f.contains(x) implies base.contains(x) || ajout.contains(x) by {
            let k = choose|k: int| 0 <= k < f.len() && f[k] == x;
            if k < p.len() {
                assert(p[k] == x);
                assert(p.contains(x));
                if q.contains(x) {
                    let i = choose|i: int| 0 <= i < q.len() && q[i] == x;
                    assert(ajout[i] == x);
                }
            } else {
                assert(ajout[ajout.len() - 1] == x);
            }
        }
        if sans_doublon(base) {
            assert forall|i: int, j: int| 0 <= i < j < f.len() implies f[i] != f[j] by {
                if j >= p.len() {
                    assert(!p.contains(ajout.last()));
                    assert(f[j] == ajout.last());
                    assert(f[i] == p[i]);
                    if f[i] == f[j] {
                        assert(p.contains(f[i]));
                    }
                }
            }
        }
    }
}

proof fn lemme_premier_correspondant(ds: Seq<Seq<char>>, pref: Seq<char>)
    ensures
        premier_correspondant(ds, pref) matches Some(l) ==> ds.contains(l),
    decreases ds.len(),
{
    if ds.len() > 0 {
        if correspond(ds[0], pref) {
            assert(ds.contains(ds[0]));
        } else {
            lemme_premier_correspondant(ds.skip(1), pref);
            if let Some(l) = premier_correspondant(ds.skip(1), pref) {
                let i = choose|i: int| 0 <= i < ds.skip(1).len() && ds.skip(1)[i] == l;
                assert(ds[i + 1] == l);
            }
        }
    }
}

proof fn lemme_preferes(ds: Seq<Seq<char>>, prefs: Seq<Seq<char>>)
    ensures
        forall|x: Seq<char>| #[trigger] preferes(ds, prefs).contains(x) ==> ds.contains(x),
    decreases prefs.len(),
{
    if prefs.len() > 0 {
        lemme_preferes(ds, prefs.drop_last());
        lemme_premier_correspondant(ds, prefs.last());
        let p = preferes(ds, prefs.drop_last());
        let f = preferes(ds, prefs);
        assert forall|x: Seq<char>| #[trigger] f.contains(x) implies ds.contains(x) by {
            let k = choose|k: int| 0 <= k < f.len() && f[k] == x;
            if k < p.len() {
                assert(p[k] == x);
                assert(p.contains(x));
            }
        }
    }
}

/// L'ordre d'essai reprend exactement les codes disponibles : chacun y figure, et rien d'autre.
pub proof fn loi_ordre_langues_memes_codes(ds: Seq<Seq<char>>, prefs: Seq<Seq<char>>)
    ensures
        forall|x: Seq<char>| ds.contains(x) ==> #[trigger] ordre_langues(ds, prefs).contains(x),
        forall|x: Seq<char>| #[trigger] ordre_langues(ds, prefs).contains(x) ==> ds.contains(x),
{
    lemme_fusion(preferes(ds, prefs), ds);
    lemme_preferes(ds, prefs);
}

proof fn lemme_sections_sans_doublon(ls: Seq<Seq<char>>)
    ensures
        sans_doublon(lecture_sections(ls).1),
        sans_doublon(lecture_sections(ls).2),
        sans_doublon(codes_a_plat(ls)),
    decreases ls.len(),
{
    if ls.len() > 0 {
        lemme_sections_sans_doublon(ls.drop_last());
        let (_, m, a) = lecture_sections(ls.drop_last());
        let p = codes_a_plat(ls.drop_last());
        match code_ligne(ls.last()) {
            Some(c) => {
                if !m.contains(c) {
                    assert forall|i: int, j: int| 0 <= i < j < m.push(c).len() implies m.push(c)[i] != m.push(c)[j] by {
                        if j == m.len() {
                            assert(m.push(c)[i] == m[i]);
                            if m[i] == c {
                                assert(m.contains(c));
                            }
                        }
                    }
                }
                if !a.contains(c) {
                    assert forall|i: int, j: int| 0 <= i < j < a.push(c).len() implies a.push(c)[i] != a.push(c)[j] by {
                        if j == a.len() {
                            assert(a.push(c)[i] == a[i]);
                            if a[i] == c {
                                assert(a.contains(c));
                            }
                        }
                    }
                }
                if !p.contains(c) {
                    assert forall|i: int, j: int| 0 <= i < j < p.push(c).len() implies p.push(c)[i] != p.push(c)[j] by {
                        if j == p.len() {
                            assert(p.push(c)[i] == p[i]);
                            if p[i] == c {
                                assert(p.contains(c));
                            }
                        }
                    }
                }
            },
            None => {},
        }
    }
}

/// Les codes langue lus dans la sortie de `--list-subs` sont deux à deux distincts.
pub proof fn loi_codes_langues_sans_doublon(brut: Seq<char>)
    ensures
        sans_doublon(codes_langues(brut)),
{
    let ls = decoupe(brut, '\n');
    lemme_sections_sans_doublon(ls);
    let (_, m, a) = lecture_sections(ls);
    lemme_fusion(m, a);
}

} // verus!
