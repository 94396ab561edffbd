//! Outils sur les suites de caractères : blancs Unicode, rognage, compactage.

use vstd::prelude::*;

verus! {

/// Propriété Unicode `White_Space` : l'ensemble reconnu par `char::is_whitespace`,
/// `str::trim` et la classe `\s` des expressions régulières.
pub open spec fn est_blanc_spec(c: char) -> bool {
    let n = c as u32;
    ||| (0x09 <= n && n <= 0x0D)
    ||| n == 0x20
    ||| n == 0x85
    ||| n == 0xA0
    ||| n == 0x1680
    ||| (0x2000 <= n && n <= 0x200A)
    ||| n == 0x2028
    ||| n == 0x2029
    ||| n == 0x202F
    ||| n == 0x205F
    ||| n == 0x3000
}

pub fn est_blanc(c: char) -> (r: bool)
    ensures
        r == est_blanc_spec(c),
{
    let n = c as u32;
    (0x09 <= n && n <= 0x0D) || n == 0x20 || n == 0x85 || n == 0xA0 || n == 0x1680 || (0x2000
        <= n && n <= 0x200A) || n == 0x2028 || n == 0x2029 || n == 0x202F || n == 0x205F || n
        == 0x3000
}

/// Les caractères d'une chaîne, dans l'ordre.
pub fn caracteres(s: &str) -> (v: Vec<char>)
    ensures
        v@ == s@,
{
    let mut v: Vec<char> = Vec::new();
    for c in it: s.chars()
        invariant
            v@ == it.seq().take(it.index() as int),
    {
        v.push(c);
    }
    v
}

/// Une `String` faite des caractères donnés : appelle `collect` de la bibliothèque standard
/// (`String: FromIterator<&char>`) ; le contrat dit que la chaîne obtenue a ces caractères,
/// dans l'ordre.
#[verifier::external_body]
pub fn chaine_de(v: &[char]) -> (s: String)
    ensures
        s@ == v@,
{
    v.iter().collect()
}


/// La suite sans ses blancs de tête.
pub open spec fn sans_blancs_debut(s: Seq<char>) -> Seq<char>
    decreases s.len(),
{
    if s.len() > 0 && est_blanc_spec(s[0]) {
        sans_blancs_debut(s.skip(1))
    } else {
        s
    }
}

/// La suite sans ses blancs de queue.
pub open spec fn sans_blancs_fin(s: Seq<char>) -> Seq<char>
    decreases s.len(),
{
    if s.len() > 0 && est_blanc_spec(s.last()) {
        sans_blancs_fin(s.drop_last())
    } else {
        s
    }
}

/// `str::trim` : ni blanc de tête ni blanc de queue.
pub open spec fn rogne(s: Seq<char>) -> Seq<char> {
    sans_blancs_fin(sans_blancs_debut(s))
}

/// Une suite est vide une fois rognée si et seulement si elle n'a que des blancs.
pub open spec fn que_des_blancs(s: Seq<char>) -> bool {
    forall|i: int| 0 <= i < s.len() ==> est_blanc_spec(#[trigger] s[i])
}

pub proof fn lemme_sans_blancs_debut(s: Seq<char>)
    ensures
        sans_blancs_debut(s).len() <= s.len(),
        sans_blancs_debut(s) =~= s.skip(s.len() - sans_blancs_debut(s).len()),
        sans_blancs_debut(s).len() > 0 ==> !est_blanc_spec(sans_blancs_debut(s)[0]),
        que_des_blancs(s.take(s.len() - sans_blancs_debut(s).len())),
    decreases s.len(),
{
    if s.len() > 0 && est_blanc_spec(s[0]) {
        lemme_sans_blancs_debut(s.skip(1));
        let r = sans_blancs_debut(s.skip(1));
        let k = s.len() - r.len();
        assert(s.skip(1).skip(s.skip(1).len() - r.len()) =~= s.skip(k));
        assert forall|i: int| 0 <= i < k implies est_blanc_spec(#[trigger] s.take(k)[i]) by {
            if i > 0 {
                assert(s.take(k)[i] == s.skip(1).take(k - 1)[i - 1]);
            }
        }
    } else {
        assert(s.skip(0) =~= s);
        assert(que_des_blancs(s.take(0)));
    }
}

pub proof fn lemme_sans_blancs_fin(s: Seq<char>)
    ensures
        sans_blancs_fin(s).len() <= s.len(),
        sans_blancs_fin(s) =~= s.take(sans_blancs_fin(s).len() as int),
        sans_blancs_fin(s).len() > 0 ==> !est_blanc_spec(sans_blancs_fin(s).last()),
        que_des_blancs(s.skip(sans_blancs_fin(s).len() as int)),
    decreases s.len(),
{
    if s.len() > 0 && est_blanc_spec(s.last()) {
        lemme_sans_blancs_fin(s.drop_last());
        let r = sans_blancs_fin(s.drop_last());
        assert(s.drop_last().take(r.len() as int) =~= s.take(r.len() as int));
        assert forall|i: int| 0 <= i < s.len() - r.len() implies est_blanc_spec(
            #[trigger] s.skip(r.len() as int)[i],
        ) by {
            if i < s.len() - r.len() - 1 {
                assert(s.skip(r.len() as int)[i] == s.drop_last().skip(r.len() as int)[i]);
            }
        }
    } else {
        assert(s.take(s.len() as int) =~= s);
        assert(que_des_blancs(s.skip(s.len() as int)));
    }
}

/// Ce que `rogne` garde : ni blanc en tête, ni blanc en queue, et la suite
/// rognée est un morceau contigu de la suite d'origine.
pub proof fn lemme_rogne(s: Seq<char>)
    ensures
        rogne(s).len() <= s.len(),
        rogne(s).len() > 0 ==> !est_blanc_spec(rogne(s)[0]) && !est_blanc_spec(rogne(s).last()),
        rogne(s).len() == 0 <==> que_des_blancs(s),
        exists|a: int| 0 <= a && a + rogne(s).len() <= s.len() && #[trigger] s.subrange(a, a + rogne(s).len()) =~= rogne(s),
{
    let d = sans_blancs_debut(s);
    lemme_sans_blancs_debut(s);
    lemme_sans_blancs_fin(d);
    let a = s.len() - d.len();
    let r = rogne(s);
    assert(s.subrange(a, a + r.len()) =~= r);
    if r.len() > 0 {
        assert(r[0] == d[0]);
    }
    if r.len() == 0 {
        assert forall|i: int| 0 <= i < s.len() implies est_blanc_spec(#[trigger] s[i]) by {
            if i < a {
                assert(s.take(a)[i] == s[i]);
            } else {
                assert(d.skip(0)[i - a] == s[i]);
            }
        }
    } else {
        if que_des_blancs(s) {
            assert(s[a] == r[0]);
        }
    }
}

/// Rogne une suite de caractères.
pub fn rogner(s: &[char]) -> (r: Vec<char>)
    ensures
        r@ == rogne(s@),
{
    let n = s.len();
    let mut i: usize = 0;
    assert(s@.skip(0) =~= s@);
    while i < n && est_blanc(s[i])
        invariant
            i <= n,
            n == s@.len(),
            sans_blancs_debut(s@) == sans_blancs_debut(s@.skip(i as int)),
        decreases n - i,
    {
        assert(s@.skip(i as int).skip(1) =~= s@.skip(i + 1));
        i = i + 1;
    }
    let ghost d = s@.skip(i as int);
    assert(sans_blancs_debut(d) == d) by {
        if d.len() > 0 {
            assert(d[0] == s@[i as int]);
        }
    }
    let mut j: usize = n;
    while j > i && est_blanc(s[j - 1])
        invariant
            i <= j <= n,
            n == s@.len(),
            d == s@.skip(i as int),
            sans_blancs_fin(d) == sans_blancs_fin(s@.subrange(i as int, j as int)),
        decreases j,
    {
        assert(s@.subrange(i as int, j as int).drop_last() =~= s@.subrange(i as int, j - 1));
        j = j - 1;
    }
    let ghost t = s@.subrange(i as int, j as int);
    assert(sans_blancs_fin(t) == t) by {
        if t.len() > 0 {
            assert(t.last() == s@[j - 1]);
        }
    }
    let mut r: Vec<char> = Vec::new();
    let mut k: usize = i;
    while k < j
        invariant
            i <= k <= j <= n,
            n == s@.len(),
            r@ =~= s@.subrange(i as int, k as int),
        decreases j - k,
    {
        r.push(s[k]);
        k = k + 1;
    }
    r
}


/// Chaque suite maximale de blancs devient une seule espace (`\s+` remplacé par `" "`).
pub open spec fn compacte(s: Seq<char>) -> Seq<char>
    decreases s.len(),
{
    if s.len() == 0 {
        seq![]
    } else if est_blanc_spec(s.last()) {
        if s.len() >= 2 && est_blanc_spec(s[s.len() - 2]) {
            compacte(s.drop_last())
        } else {
            compacte(s.drop_last()).push(' ')
        }
    } else {
        compacte(s.drop_last()).push(s.last())
    }
}

/// Texte compact : le seul blanc est l'espace, jamais deux blancs de suite.
pub open spec fn est_compact(t: Seq<char>) -> bool {
    &&& forall|i: int| 0 <= i < t.len() && est_blanc_spec(#[trigger] t[i]) ==> t[i] == ' '
    &&& forall|i: int|
        0 <= i < t.len() - 1 ==> !(est_blanc_spec(#[trigger] t[i]) && est_blanc_spec(t[i + 1]))
}

/// Texte propre : compact, sans blanc de tête ni de queue.
pub open spec fn est_propre(t: Seq<char>) -> bool {
    &&& est_compact(t)
    &&& t.len() > 0 ==> !est_blanc_spec(t[0]) && !est_blanc_spec(t.last())
}

pub proof fn lemme_compacte(s: Seq<char>)
    ensures
        est_compact(compacte(s)),
        compacte(s).len() <= s.len(),
        compacte(s).len() == 0 <==> s.len() == 0,
        s.len() > 0 ==> (est_blanc_spec(compacte(s)[0]) <==> est_blanc_spec(s[0])),
        s.len() > 0 ==> (est_blanc_spec(compacte(s).last()) <==> est_blanc_spec(s.last())),
    decreases s.len(),
{
    if s.len() > 0 {
        lemme_compacte(s.drop_last());
        let p = compacte(s.drop_last());
        let r = compacte(s);
        if s.len() >= 2 {
            assert(s.drop_last().last() == s[s.len() - 2]);
            assert(s.drop_last()[0] == s[0]);
        }
        if r.len() > p.len() {
            assert(r =~= p.push(r.last()));
            assert forall|i: int| 0 <= i < r.len() - 1 implies !(est_blanc_spec(#[trigger] r[i])
                && est_blanc_spec(r[i + 1])) by {
                if i < p.len() - 1 {
                    assert(r[i] == p[i] && r[i + 1] == p[i + 1]);
                } else {
                    assert(r[i] == p.last());
                }
            }
            assert forall|i: int| 0 <= i < r.len() && est_blanc_spec(#[trigger] r[i]) implies r[i]
                == ' ' by {
                if i < p.len() {
                    assert(r[i] == p[i]);
                }
            }
        }
    }
}

/// Compacter sans blanc aux bords donne un texte propre ; un texte propre est un point fixe.
pub proof fn lemme_compacte_rogne(s: Seq<char>)
    ensures
        est_propre(compacte(rogne(s))),
{
    lemme_rogne(s);
    lemme_compacte(rogne(s));
}

pub proof fn lemme_compacte_propre(t: Seq<char>)
    requires
        est_compact(t),
    ensures
        compacte(t) == t,
    decreases t.len(),
{
    if t.len() > 0 {
        let p = t.drop_last();
        assert forall|i: int| 0 <= i < p.len() && est_blanc_spec(#[trigger] p[i]) implies p[i]
            == ' ' by {
            assert(p[i] == t[i]);
        }
        assert forall|i: int| 0 <= i < p.len() - 1 implies !(est_blanc_spec(#[trigger] p[i])
            && est_blanc_spec(p[i + 1])) by {
            assert(p[i] == t[i] && p[i + 1] == t[i + 1]);
        }
        lemme_compacte_propre(p);
        if est_blanc_spec(t.last()) && t.len() >= 2 {
            assert(!(est_blanc_spec(t[t.len() - 2]) && est_blanc_spec(t[t.len() - 1])));
        }
        assert(t =~= p.push(t.last()));
    }
}

pub proof fn lemme_rogne_propre(t: Seq<char>)
    requires
        t.len() > 0 ==> !est_blanc_spec(t[0]) && !est_blanc_spec(t.last()),
    ensures
        rogne(t) == t,
{
    if t.len() > 0 {
        assert(sans_blancs_debut(t) == t);
    }
    assert(sans_blancs_fin(t) == t);
}

/// Compacte une suite de caractères.
pub fn compacter(s: &[char]) -> (r: Vec<char>)
    ensures
        r@ == compacte(s@),
{
    let mut r: Vec<char> = Vec::new();
    let mut i: usize = 0;
    let mut precedent_blanc = false;
    while i < s.len()
        invariant
            i <= s@.len(),
            r@ == compacte(s@.take(i as int)),
            precedent_blanc == (i > 0 && est_blanc_spec(s@[i - 1])),
        decreases s@.len() - i,
    {
        let c = s[i];
        let b = est_blanc(c);
        proof {
            let t = s@.take(i + 1);
            assert(t.drop_last() =~= s@.take(i as int));
            assert(t.last() == c);
            if i > 0 {
                assert(t[t.len() - 2] == s@[i - 1]);
            }
        }
        if b {
            if !precedent_blanc {
                r.push(' ');
            }
        } else {
            r.push(c);
        }
        precedent_blanc = b;
        i = i + 1;
    }
    assert(s@.take(s@.len() as int) =~= s@);
    r
}

/// `morceaux.join(sep)`.
pub open spec fn joindre(morceaux: Seq<Seq<char>>, sep: Seq<char>) -> Seq<char>
    decreases morceaux.len(),
{
    if morceaux.len() == 0 {
        seq![]
    } else if morceaux.len() == 1 {
        morceaux[0]
    } else {
        joindre(morceaux.drop_last(), sep) + sep + morceaux.last()
    }
}

/// Ajoute `ajout` à la fin de `v`.
pub fn etendre(v: &mut Vec<char>, ajout: &[char])
    ensures
        final(v)@ == old(v)@ + ajout@,
{
    let mut i: usize = 0;
    while i < ajout.len()
        invariant
            i <= ajout@.len(),
            v@ =~= old(v)@ + ajout@.take(i as int),
        decreases ajout@.len() - i,
    {
        v.push(ajout[i]);
        i = i + 1;
    }
    assert(ajout@.take(ajout@.len() as int) =~= ajout@);
}

/// Joint des morceaux avec un séparateur.
pub fn joindre_morceaux(morceaux: &Vec<Vec<char>>, sep: &[char]) -> (r: Vec<char>)
    ensures
        r@ == joindre(morceaux.deep_view(), sep@),
{
    let mut r: Vec<char> = Vec::new();
    let mut i: usize = 0;
    while i < morceaux.len()
        invariant
            i <= morceaux.len(),
            r@ == joindre(morceaux.deep_view().take(i as int), sep@),
        decreases morceaux.len() - i,
    {
        let ghost t = morceaux.deep_view().take(i + 1);
        assert(t.drop_last() =~= morceaux.deep_view().take(i as int));
        assert(t.last() == morceaux[i as int]@);
        if i > 0 {
            etendre(&mut r, sep);
        } else {
            assert(t =~= seq![morceaux[0]@]);
        }
        etendre(&mut r, morceaux[i].as_slice());
        i = i + 1;
    }
    assert(morceaux.deep_view().take(morceaux.len() as int) =~= morceaux.deep_view());
    r
}

/// `s.split(sep)` : les morceaux entre deux séparateurs, le dernier (éventuellement vide) compris.
pub open spec fn decoupe(s: Seq<char>, sep: char) -> Seq<Seq<char>>
    decreases s.len(),
{
    if s.len() == 0 {
        seq![seq![]]
    } else {
        let p = decoupe(s.drop_last(), sep);
        if s.last() == sep {
            p.push(seq![])
        } else {
            p.update(p.len() - 1, p.last().push(s.last()))
        }
    }
}

/// Découpe en lignes au caractère `'\n'`. Chaque ligne est ensuite rognée et les lignes
/// vides sautées : le `'\r'` des fins `\r\n` et la dernière ligne vide de `str::lines`
/// disparaissent alors de la même façon.
pub open spec fn lignes(s: Seq<char>) -> Seq<Seq<char>> {
    decoupe(s, '\n')
}

pub proof fn lemme_decoupe_non_vide(s: Seq<char>, sep: char)
    ensures
        decoupe(s, sep).len() >= 1,
    decreases s.len(),
{
    if s.len() > 0 {
        lemme_decoupe_non_vide(s.drop_last(), sep);
    }
}

/// Découpe au séparateur.
pub fn decouper(s: &[char], sep: char) -> (r: Vec<Vec<char>>)
    ensures
        r.deep_view() == decoupe(s@, sep),
{
    let mut r: Vec<Vec<char>> = Vec::new();
    let mut courante: Vec<char> = Vec::new();
    let mut i: usize = 0;
    while i < s.len()
        invariant
            i <= s@.len(),
            r.deep_view().push(courante@) =~= decoupe(s@.take(i as int), sep),
        decreases s@.len() - i,
    {
        let c = s[i];
        proof {
            let t = s@.take(i + 1);
            assert(t.drop_last() =~= s@.take(i as int));
            assert(t.last() == c);
            lemme_decoupe_non_vide(s@.take(i as int), sep);
        }
        let ghost avant = r.deep_view();
        if c == sep {
            let morceau = courante;
            let ghost vue = morceau@;
            assert(morceau.deep_view() =~= vue);
            r.push(morceau);
            assert(r.deep_view() =~~= avant.push(vue));
            courante = Vec::new();
        } else {
            courante.push(c);
        }
        i = i + 1;
    }
    let ghost avant = r.deep_view();
    let ghost vue = courante@;
    assert(courante.deep_view() =~= vue);
    r.push(courante);
    assert(r.deep_view() =~~= avant.push(vue));
    assert(s@.take(s@.len() as int) =~= s@);
    r
}

/// `motif` apparaît dans `s` à la position `i`.
pub open spec fn apparait_en(s: Seq<char>, motif: Seq<char>, i: int) -> bool {
    0 <= i && i + motif.len() <= s.len() && s.subrange(i, i + motif.len()) == motif
}

/// `s.contains(motif)`.
pub open spec fn contient(s: Seq<char>, motif: Seq<char>) -> bool {
    exists|i: int| apparait_en(s, motif, i)
}

/// `s.starts_with(motif)`.
pub open spec fn commence_par(s: Seq<char>, motif: Seq<char>) -> bool {
    apparait_en(s, motif, 0)
}

/// Le motif apparaît-il à la position `i` ?
pub fn apparait_a(s: &[char], motif: &[char], i: usize) -> (r: bool)
    ensures
        r == apparait_en(s@, motif@, i as int),
{
    if i > s.len() || motif.len() > s.len() - i {
        return false;
    }
    let mut k: usize = 0;
    while k < motif.len()
        invariant
            k <= motif@.len(),
            i + motif@.len() <= s@.len(),
            s@.len() == s.len(),
            motif@.len() == motif.len(),
            forall|l: int| 0 <= l < k ==> s@[i + l] == motif@[l],
        decreases motif@.len() - k,
    {
        if s[i + k] != motif[k] {
            assert(s@.subrange(i as int, i + motif@.len())[k as int] != motif@[k as int]);
            return false;
        }
        k = k + 1;
    }
    assert(s@.subrange(i as int, i + motif@.len()) =~= motif@);
    true
}

/// `s.contains(motif)`.
pub fn contient_motif(s: &[char], motif: &[char]) -> (r: bool)
    ensures
        r == contient(s@, motif@),
{
    if motif.len() > s.len() {
        return false;
    }
    if motif.len() == 0 {
        assert(s@.subrange(0, 0) =~= motif@);
        assert(apparait_en(s@, motif@, 0));
        return true;
    }
    let fin = s.len() - motif.len();
    let mut i: usize = 0;
    while i <= fin
        invariant
            fin + motif@.len() == s@.len(),
            i <= fin + 1,
            fin < usize::MAX,
            forall|l: int| 0 <= l < i ==> !apparait_en(s@, motif@, l),
        decreases fin + 1 - i,
    {
        if apparait_a(s, motif, i) {
            return true;
        }
        i = i + 1;
    }
    assert forall|l: int| !apparait_en(s@, motif@, l) by {
        if 0 <= l && l + motif@.len() <= s@.len() {
            assert(l < i);
        }
    }
    false
}


/// Position du premier caractère de `s` qui figure dans `seps`.
pub open spec fn position_premier(s: Seq<char>, seps: Seq<char>) -> Option<int>
    decreases s.len(),
{
    if s.len() == 0 {
        None
    } else if seps.contains(s[0]) {
        Some(0)
    } else {
        match position_premier(s.skip(1), seps) {
            Some(i) => Some(i + 1),
            None => None,
        }
    }
}

/// Le début de `s` jusqu'au premier séparateur exclu (`split(..).next()`).
pub open spec fn avant_separateur(s: Seq<char>, seps: Seq<char>) -> Seq<char> {
    match position_premier(s, seps) {
        Some(i) => s.take(i),
        None => s,
    }
}

pub proof fn lemme_position_premier(s: Seq<char>, seps: Seq<char>)
    ensures
        match position_premier(s, seps) {
            Some(i) => 0 <= i < s.len() && seps.contains(s[i]) && forall|j: int|
                0 <= j < i ==> !seps.contains(#[trigger] s[j]),
            None => forall|j: int| 0 <= j < s.len() ==> !seps.contains(#[trigger] s[j]),
        },
    decreases s.len(),
{
    if s.len() > 0 && !seps.contains(s[0]) {
        lemme_position_premier(s.skip(1), seps);
        match position_premier(s.skip(1), seps) {
            Some(i) => {
                assert(s.skip(1)[i] == s[i + 1]);
                assert forall|j: int| 0 <= j < i + 1 implies !seps.contains(#[trigger] s[j]) by {
                    if j > 0 {
                        assert(s.skip(1)[j - 1] == s[j]);
                    }
                }
            },
            None => {
                assert forall|j: int| 0 <= j < s.len() implies !seps.contains(#[trigger] s[j]) by {
                    if j > 0 {
                        assert(s.skip(1)[j - 1] == s[j]);
                    }
                }
            },
        }
    }
}

/// Réciproque : la position caractérisée est celle que donne `position_premier`.
pub proof fn lemme_position_premier_unique(s: Seq<char>, seps: Seq<char>, i: int)
    requires
        0 <= i <= s.len(),
        forall|j: int| 0 <= j < i ==> !seps.contains(#[trigger] s[j]),
        i < s.len() ==> seps.contains(s[i]),
    ensures
        position_premier(s, seps) == if i < s.len() { Some(i) } else { None::<int> },
{
    lemme_position_premier(s, seps);
    match position_premier(s, seps) {
        Some(k) => {
            if k < i {
                assert(!seps.contains(s[k]));
            } else if k > i {
                assert(!seps.contains(s[i]));
            }
        },
        None => {
            if i < s.len() {
                assert(!seps.contains(s[i]));
            }
        },
    }
}

/// Position du premier séparateur.
pub fn position_parmi(s: &[char], seps: &[char]) -> (r: Option<usize>)
    ensures
        match r {
            Some(i) => position_premier(s@, seps@) == Some(i as int),
            None => position_premier(s@, seps@) is None,
        },
{
    let mut i: usize = 0;
    while i < s.len()
        invariant
            i <= s@.len(),
            forall|j: int| 0 <= j < i ==> !seps@.contains(#[trigger] s@[j]),
        decreases s@.len() - i,
    {
        let c = s[i];
        let mut k: usize = 0;
        let mut dedans = false;
        while k < seps.len()
            invariant
                k <= seps@.len(),
                dedans == exists|l: int| 0 <= l < k && seps@[l] == c,
            decreases seps@.len() - k,
        {
            if seps[k] == c {
                dedans = true;
            }
            k = k + 1;
        }
        if dedans {
            proof {
                lemme_position_premier_unique(s@, seps@, i as int);
            }
            return Some(i);
        }
        assert(!seps@.contains(s@[i as int]));
        i = i + 1;
    }
    proof {
        lemme_position_premier_unique(s@, seps@, i as int);
    }
    None
}

/// Le début de `s` jusqu'au premier séparateur.
pub fn avant_premier(s: &[char], seps: &[char]) -> (r: Vec<char>)
    ensures
        r@ == avant_separateur(s@, seps@),
{
    let fin = match position_parmi(s, seps) {
        Some(i) => i,
        None => s.len(),
    };
    proof {
        lemme_position_premier(s@, seps@);
    }
    let mut r: Vec<char> = Vec::new();
    let mut k: usize = 0;
    while k < fin
        invariant
            k <= fin <= s@.len(),
            r@ =~= s@.take(k as int),
        decreases fin - k,
    {
        r.push(s[k]);
        k = k + 1;
    }
    assert(s@.take(s@.len() as int) =~= s@);
    r
}

/// La suite de `s` à partir de l'indice `debut`.
pub fn a_partir_de(s: &[char], debut: usize) -> (r: Vec<char>)
    requires
        debut <= s@.len(),
    ensures
        r@ == s@.skip(debut as int),
{
    let mut r: Vec<char> = Vec::new();
    let mut k: usize = debut;
    while k < s.len()
        invariant
            debut <= k <= s@.len(),
            r@ =~= s@.subrange(debut as int, k as int),
        decreases s@.len() - k,
    {
        r.push(s[k]);
        k = k + 1;
    }
    r
}


/// Position de la première occurrence de `motif` (`str::find`).
pub open spec fn premiere_occurrence(s: Seq<char>, motif: Seq<char>) -> Option<int> {
    if exists|i: int| apparait_en(s, motif, i) {
        Some(
            choose|i: int|
                apparait_en(s, motif, i) && forall|j: int| 0 <= j < i ==> !apparait_en(s, motif, j),
        )
    } else {
        None
    }
}

/// Si `i` est une occurrence sans occurrence avant elle, c'est la première.
pub proof fn lemme_premiere_occurrence(s: Seq<char>, motif: Seq<char>, i: int)
    requires
        apparait_en(s, motif, i),
        forall|j: int| 0 <= j < i ==> !apparait_en(s, motif, j),
    ensures
        premiere_occurrence(s, motif) == Some(i),
{
    let k = choose|k: int|
        apparait_en(s, motif, k) && forall|j: int| 0 <= j < k ==> !apparait_en(s, motif, j);
    if k < i {
        assert(!apparait_en(s, motif, k));
    } else if k > i {
        assert(!apparait_en(s, motif, i));
    }
}

/// Position de la première occurrence de `motif`.
pub fn trouver_motif(s: &[char], motif: &[char]) -> (r: Option<usize>)
    ensures
        match r {
            Some(i) => premiere_occurrence(s@, motif@) == Some(i as int) && i + motif@.len()
                <= s@.len(),
            None => premiere_occurrence(s@, motif@) is None,
        },
{
    if motif.len() > s.len() {
        assert forall|l: int| !apparait_en(s@, motif@, l) by {}
        return None;
    }
    if motif.len() == 0 {
        assert(s@.subrange(0, 0) =~= motif@);
        proof {
            lemme_premiere_occurrence(s@, motif@, 0);
        }
        return Some(0);
    }
    let fin = s.len() - motif.len();
    let mut i: usize = 0;
    while i <= fin
        invariant
            fin + motif@.len() == s@.len(),
            i <= fin + 1,
            fin < usize::MAX,
            forall|l: int| 0 <= l < i ==> !apparait_en(s@, motif@, l),
        decreases fin + 1 - i,
    {
        if apparait_a(s, motif, i) {
            proof {
                lemme_premiere_occurrence(s@, motif@, i as int);
            }
            return Some(i);
        }
        i = i + 1;
    }
    assert forall|l: int| !apparait_en(s@, motif@, l) by {
        if 0 <= l && l + motif@.len() <= s@.len() {
            assert(l <= fin);
        }
    }
    None
}

/// Code de `c` en minuscule ASCII (les lettres `A`–`Z` seulement).
pub open spec fn minuscule_ascii(c: char) -> u32 {
    let n = c as u32;
    if 65 <= n && n <= 90 {
        (n + 32) as u32
    } else {
        n
    }
}

/// `a.eq_ignore_ascii_case(b)`.
pub open spec fn egaux_sans_casse_ascii(a: Seq<char>, b: Seq<char>) -> bool {
    &&& a.len() == b.len()
    &&& forall|i: int| 0 <= i < a.len() ==> minuscule_ascii(#[trigger] a[i]) == minuscule_ascii(b[i])
}

pub fn code_minuscule(c: char) -> (r: u32)
    ensures
        r == minuscule_ascii(c),
{
    let n = c as u32;
    if 65 <= n && n <= 90 {
        n + 32
    } else {
        n
    }
}

/// `a.eq_ignore_ascii_case(b)`.
pub fn egaux_ascii(a: &[char], b: &[char]) -> (r: bool)
    ensures
        r == egaux_sans_casse_ascii(a@, b@),
{
    if a.len() != b.len() {
        return false;
    }
    let mut i: usize = 0;
    while i < a.len()
        invariant
            i <= a@.len(),
            a@.len() == b@.len(),
            forall|l: int| 0 <= l < i ==> minuscule_ascii(#[trigger] a@[l]) == minuscule_ascii(b@[l]),
        decreases a@.len() - i,
    {
        if code_minuscule(a[i]) != code_minuscule(b[i]) {
            return false;
        }
        i = i + 1;
    }
    true
}


/// Chiffre décimal `d < 10`.
pub open spec fn chiffre(d: nat) -> char {
    ((48 + d) as u8) as char
}

/// Écriture décimale de `n` (`n.to_string()`).
pub open spec fn decimal(n: nat) -> Seq<char>
    decreases n,
{
    if n < 10 {
        seq![chiffre(n)]
    } else {
        decimal(n / 10).push(chiffre(n % 10))
    }
}

/// Ajoute l'écriture décimale de `n`.
pub fn ecrire_decimal(n: usize, acc: &mut Vec<char>)
    ensures
        final(acc)@ == old(acc)@ + decimal(n as nat),
    decreases n,
{
    if n >= 10 {
        ecrire_decimal(n / 10, acc);
    }
    let d = (n % 10) as u8;
    let c = (48u8 + d) as char;
    acc.push(c);
    assert(acc@ =~= old(acc)@ + decimal(n as nat));
}

/// Ajoute l'écriture décimale d'un `u64`.
pub fn ecrire_decimal_u64(n: u64, acc: &mut Vec<char>)
    ensures
        final(acc)@ == old(acc)@ + decimal(n as nat),
    decreases n,
{
    if n >= 10 {
        ecrire_decimal_u64(n / 10, acc);
    }
    let d = (n % 10) as u8;
    let c = (48u8 + d) as char;
    acc.push(c);
    assert(acc@ =~= old(acc)@ + decimal(n as nat));
}

/// `s.ends_with(motif)`.
pub open spec fn finit_par(s: Seq<char>, motif: Seq<char>) -> bool {
    apparait_en(s, motif, s.len() - motif.len())
}

/// `s.trim_end_matches(c)`.
pub open spec fn sans_fin(s: Seq<char>, c: char) -> Seq<char>
    decreases s.len(),
{
    if s.len() > 0 && s.last() == c {
        sans_fin(s.drop_last(), c)
    } else {
        s
    }
}

/// `s.trim_end_matches(c)`.
pub fn retirer_fin(s: &[char], c: char) -> (r: Vec<char>)
    ensures
        r@ == sans_fin(s@, c),
{
    let mut j: usize = s.len();
    assert(s@.take(s@.len() as int) =~= s@);
    while j > 0 && s[j - 1] == c
        invariant
            j <= s@.len(),
            sans_fin(s@, c) == sans_fin(s@.take(j as int), c),
        decreases j,
    {
        assert(s@.take(j as int).drop_last() =~= s@.take(j - 1));
        j = j - 1;
    }
    let mut r: Vec<char> = Vec::new();
    let mut k: usize = 0;
    while k < j
        invariant
            k <= j <= s@.len(),
            r@ =~= s@.take(k as int),
        decreases j - k,
    {
        r.push(s[k]);
        k = k + 1;
    }
    proof {
        let t = s@.take(j as int);
        if t.len() > 0 {
            assert(t.last() == s@[j - 1]);
        }
    }
    r
}


/// Retire les blancs de tête (`trim_start`).
pub fn rogner_debut(s: &[char]) -> (r: Vec<char>)
    ensures
        r@ == sans_blancs_debut(s@),
{
    let n = s.len();
    let mut i: usize = 0;
    assert(s@.skip(0) =~= s@);
    while i < n && est_blanc(s[i])
        invariant
            i <= n,
            n == s@.len(),
            sans_blancs_debut(s@) == sans_blancs_debut(s@.skip(i as int)),
        decreases n - i,
    {
        assert(s@.skip(i as int).skip(1) =~= s@.skip(i + 1));
        i = i + 1;
    }
    proof {
        let d = s@.skip(i as int);
        if d.len() > 0 {
            assert(d[0] == s@[i as int]);
        }
    }
    a_partir_de(s, i)
}

/// Retire les blancs de queue (`trim_end`).
pub fn rogner_fin(s: &[char]) -> (r: Vec<char>)
    ensures
        r@ == sans_blancs_fin(s@),
{
    let mut j: usize = s.len();
    assert(s@.take(s@.len() as int) =~= s@);
    while j > 0 && est_blanc(s[j - 1])
        invariant
            j <= s@.len(),
            sans_blancs_fin(s@) == sans_blancs_fin(s@.take(j as int)),
        decreases j,
    {
        assert(s@.take(j as int).drop_last() =~= s@.take(j - 1));
        j = j - 1;
    }
    let mut r: Vec<char> = Vec::new();
    let mut k: usize = 0;
    while k < j
        invariant
            k <= j <= s@.len(),
            r@ =~= s@.take(k as int),
        decreases j - k,
    {
        r.push(s[k]);
        k = k + 1;
    }
    proof {
        let t = s@.take(j as int);
        if t.len() > 0 {
            assert(t.last() == s@[j - 1]);
        }
    }
    r
}

/// `x` figure-t-il parmi les morceaux ?
pub fn contient_morceau(vues: &Vec<Vec<char>>, x: &[char]) -> (r: bool)
    ensures
        r == vues.deep_view().contains(x@),
{
    let mut k: usize = 0;
    while k < vues.len()
        invariant
            k <= vues@.len(),
            forall|l: int| 0 <= l < k ==> #[trigger] vues.deep_view()[l] != x@,
        decreases vues@.len() - k,
    {
        assert(vues.deep_view()[k as int] =~= vues[k as int]@);
        if memes(vues[k].as_slice(), x) {
            return true;
        }
        k = k + 1;
    }
    false
}

/// Deux suites égales ?
pub fn memes(a: &[char], b: &[char]) -> (r: bool)
    ensures
        r == (a@ == b@),
{
    if a.len() != b.len() {
        return false;
    }
    let mut i: usize = 0;
    while i < a.len()
        invariant
            i <= a@.len(),
            a@.len() == b@.len(),
            forall|l: int| 0 <= l < i ==> a@[l] == b@[l],
        decreases a@.len() - i,
    {
        if a[i] != b[i] {
            return false;
        }
        i = i + 1;
    }
    assert(a@ =~= b@);
    true
}

/// Les `String` faites de chaque morceau.
pub fn chaines_de(v: &Vec<Vec<char>>) -> (r: Vec<String>)
    ensures
        r@.map_values(|s: String| s@) == v.deep_view(),
{
    let mut r: Vec<String> = Vec::new();
    let mut i: usize = 0;
    while i < v.len()
        invariant
            i <= v@.len(),
            r@.map_values(|s: String| s@) =~= v.deep_view().take(i as int),
        decreases v@.len() - i,
    {
        assert(v.deep_view()[i as int] =~= v[i as int]@);
        let ghost avant = r@;
        let c = chaine_de(v[i].as_slice());
        r.push(c);
        assert(r@.map_values(|s: String| s@) =~= avant.map_values(|s: String| s@).push(c@));
        assert(v.deep_view().take(i + 1) =~= v.deep_view().take(i as int).push(v.deep_view()[i as int]));
        i = i + 1;
    }
    assert(v.deep_view().take(v@.len() as int) =~= v.deep_view());
    r
}

/// Ajoute un morceau à la fin.
pub fn pousser_morceau(v: &mut Vec<Vec<char>>, m: Vec<char>)
    ensures
        final(v).deep_view() == old(v).deep_view().push(m@),
{
    let ghost avant = v.deep_view();
    let ghost vue = m@;
    assert(m.deep_view() =~= vue);
    v.push(m);
    assert(v.deep_view() =~~= avant.push(vue));
}


/// Les `n` premiers caractères (`chars().take(n)`).
pub open spec fn debut_de(s: Seq<char>, n: nat) -> Seq<char> {
    if s.len() <= n {
        s
    } else {
        s.take(n as int)
    }
}

/// Les `n` premiers caractères d'une chaîne.
pub fn tronquer(s: &str, n: usize) -> (r: String)
    ensures
        r@ == debut_de(s@, n as nat),
{
    let mut cs = caracteres(s);
    let ghost c0 = cs@;
    cs.truncate(n);
    assert(cs@ =~= debut_de(c0, n as nat));
    chaine_de(cs.as_slice())
}

/// `s.trim_start_matches(c)`.
pub open spec fn sans_debut(s: Seq<char>, c: char) -> Seq<char>
    decreases s.len(),
{
    if s.len() > 0 && s[0] == c {
        sans_debut(s.skip(1), c)
    } else {
        s
    }
}

/// `s.trim_start_matches(c)`.
pub fn retirer_debut(s: &[char], c: char) -> (r: Vec<char>)
    ensures
        r@ == sans_debut(s@, c),
{
    let n = s.len();
    let mut i: usize = 0;
    assert(s@.skip(0) =~= s@);
    while i < n && s[i] == c
        invariant
            i <= n,
            n == s@.len(),
            sans_debut(s@, c) == sans_debut(s@.skip(i as int), c),
        decreases n - i,
    {
        assert(s@.skip(i as int).skip(1) =~= s@.skip(i + 1));
        i = i + 1;
    }
    proof {
        let d = s@.skip(i as int);
        if d.len() > 0 {
            assert(d[0] == s@[i as int]);
        }
    }
    a_partir_de(s, i)
}

/// Minuscule ASCII d'un caractère (`to_ascii_lowercase`).
pub open spec fn minuscule_car(c: char) -> char {
    if 'A' <= c && c <= 'Z' {
        (((c as u8) + 32) as u8) as char
    } else {
        c
    }
}

/// `s.to_ascii_lowercase()`.
pub open spec fn en_minuscules(s: Seq<char>) -> Seq<char> {
    s.map_values(|c: char| minuscule_car(c))
}

/// `s.to_ascii_lowercase()`.
pub fn mettre_en_minuscules(s: &[char]) -> (r: Vec<char>)
    ensures
        r@ == en_minuscules(s@),
{
    let mut r: Vec<char> = Vec::new();
    let mut i: usize = 0;
    while i < s.len()
        invariant
            i <= s@.len(),
            r@ =~= en_minuscules(s@.take(i as int)),
        decreases s@.len() - i,
    {
        let c = s[i];
        let m = if 'A' <= c && c <= 'Z' {
            ((c as u8) + 32u8) as char
        } else {
            c
        };
        r.push(m);
        i = i + 1;
    }
    assert(s@.take(s@.len() as int) =~= s@);
    r
}

} // verus!
