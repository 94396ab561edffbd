//! Tri sans doublon de chaînes, dans l'ordre lexicographique des points de code
//! (celui de `Ord` sur `String` : l'ordre des octets UTF-8 suit celui des points de code).

use vstd::prelude::*;

verus! {

/// `a` précède strictement `b` dans l'ordre lexicographique des points de code.
pub open spec fn lex_inf(a: Seq<char>, b: Seq<char>) -> bool
    decreases a.len(),
{
    if a.len() == 0 {
        b.len() > 0
    } else if b.len() == 0 {
        false
    } else if a[0] != b[0] {
        a[0] < b[0]
    } else {
        lex_inf(a.skip(1), b.skip(1))
    }
}

pub proof fn lemme_lex_irreflexif(a: Seq<char>)
    ensures
        !lex_inf(a, a),
    decreases a.len(),
{
    if a.len() > 0 {
        lemme_lex_irreflexif(a.skip(1));
    }
}

pub proof fn lemme_lex_transitif(a: Seq<char>, b: Seq<char>, c: Seq<char>)
    requires
        lex_inf(a, b),
        lex_inf(b, c),
    ensures
        lex_inf(a, c),
    decreases a.len(),
{
    if a.len() > 0 && b.len() > 0 && c.len() > 0 {
        if a[0] == b[0] && b[0] == c[0] {
            lemme_lex_transitif(a.skip(1), b.skip(1), c.skip(1));
        }
    }
}

pub proof fn lemme_lex_total(a: Seq<char>, b: Seq<char>)
    requires
        a != b,
    ensures
        lex_inf(a, b) || lex_inf(b, a),
    decreases a.len(),
{
    if a.len() > 0 && b.len() > 0 && a[0] == b[0] {
        if a.skip(1) == b.skip(1) {
            assert(a =~= seq![a[0]] + a.skip(1));
            assert(b =~= seq![b[0]] + b.skip(1));
        }
        lemme_lex_total(a.skip(1), b.skip(1));
    } else if a.len() > 0 && b.len() > 0 {

    } else if a.len() == 0 && b.len() == 0 {
        assert(a =~= b);
    }
}

pub proof fn lemme_lex_antisymetrique(a: Seq<char>, b: Seq<char>)
    requires
        lex_inf(a, b),
    ensures
        !lex_inf(b, a),
        a != b,
    decreases a.len(),
{
    if a.len() > 0 && b.len() > 0 && a[0] == b[0] {
        lemme_lex_antisymetrique(a.skip(1), b.skip(1));
    }
    if a == b {
        lemme_lex_irreflexif(a);
    }
}

/// `a` précède strictement `b`.
pub fn avant_lex(a: &[char], b: &[char]) -> (r: bool)
    ensures
        r == lex_inf(a@, b@),
{
    let mut i: usize = 0;
    assert(a@.skip(0) =~= a@ && b@.skip(0) =~= b@);
    while i < a.len() && i < b.len() && a[i] == b[i]
        invariant
            i <= a@.len(),
            i <= b@.len(),
            lex_inf(a@, b@) == lex_inf(a@.skip(i as int), b@.skip(i as int)),
        decreases a@.len() - i,
    {
        assert(a@.skip(i as int).skip(1) =~= a@.skip(i + 1));
        assert(b@.skip(i as int).skip(1) =~= b@.skip(i + 1));
        i = i + 1;
    }
    if i == a.len() {
        i < b.len()
    } else if i == b.len() {
        false
    } else {
        assert(a@.skip(i as int)[0] == a@[i as int]);
        assert(b@.skip(i as int)[0] == b@[i as int]);
        a[i] < b[i]
    }
}

/// Strictement croissante (donc sans doublon).
pub open spec fn strictement_croissante(s: Seq<Seq<char>>) -> bool {
    forall|i: int, j: int| 0 <= i < j < s.len() ==> lex_inf(#[trigger] s[i], #[trigger] s[j])
}

/// Les éléments distincts de `s`, triés : la seule suite strictement croissante qui a les
/// mêmes éléments que `s`.
pub open spec fn est_tri_sans_doublon(r: Seq<Seq<char>>, s: Seq<Seq<char>>) -> bool {
    &&& strictement_croissante(r)
    &&& forall|x: Seq<char>| r.contains(x) <==> s.contains(x)
}

proof fn lemme_queue_croissante(a: Seq<Seq<char>>)
    requires
        strictement_croissante(a),
        a.len() > 0,
    ensures
        strictement_croissante(a.skip(1)),
        forall|x: Seq<char>| a.skip(1).contains(x) <==> (a.contains(x) && x != a[0]),
{
    let q = a.skip(1);
    assert forall|i: int, j: int| 0 <= i < j < q.len() implies lex_inf(#[trigger] q[i], #[trigger] q[j]) by {
        assert(q[i] == a[i + 1] && q[j] == a[j + 1]);
    }
    assert forall|x: Seq<char>| q.contains(x) <==> (a.contains(x) && x != a[0]) by {
        if q.contains(x) {
            let k = choose|k: int| 0 <= k < q.len() && q[k] == x;
            assert(a[k + 1] == x);
            assert(lex_inf(a[0], a[k + 1]));
            lemme_lex_antisymetrique(a[0], a[k + 1]);
        }
        if a.contains(x) && x != a[0] {
            let k = choose|k: int| 0 <= k < a.len() && a[k] == x;
            assert(k > 0);
            assert(q[k - 1] == x);
        }
    }
}

/// Deux suites strictement croissantes qui ont les mêmes éléments sont égales : le tri sans
/// doublon d'une liste est unique.
pub proof fn loi_tri_sans_doublon_unique(r1: Seq<Seq<char>>, r2: Seq<Seq<char>>, s: Seq<Seq<char>>)
    requires
        est_tri_sans_doublon(r1, s),
        est_tri_sans_doublon(r2, s),
    ensures
        r1 == r2,
    decreases r1.len(),
{
    if r1.len() == 0 {
        if r2.len() > 0 {
            assert(r2.contains(r2[0]));
        }
        assert(r1 =~= r2);
    } else {
        assert(r1.contains(r1[0]));
        assert(r2.len() > 0);
        assert(r2.contains(r2[0]));
        if r1[0] != r2[0] {
            let j = choose|j: int| 0 <= j < r2.len() && r2[j] == r1[0];
            let i = choose|i: int| 0 <= i < r1.len() && r1[i] == r2[0];
            assert(lex_inf(r2[0], r2[j]));
            assert(lex_inf(r1[0], r1[i]));
            lemme_lex_antisymetrique(r1[0], r2[0]);
        }
        lemme_queue_croissante(r1);
        lemme_queue_croissante(r2);
        assert forall|x: Seq<char>| r1.skip(1).contains(x) <==> r2.skip(1).contains(x) by {
            assert(r1.skip(1).contains(x) <==> (r1.contains(x) && x != r1[0]));
            assert(r2.skip(1).contains(x) <==> (r2.contains(x) && x != r2[0]));
            assert(r1.contains(x) <==> s.contains(x));
            assert(r2.contains(x) <==> s.contains(x));
        }
        assert(est_tri_sans_doublon(r2.skip(1), r1.skip(1)));
        assert(est_tri_sans_doublon(r1.skip(1), r1.skip(1)));
        loi_tri_sans_doublon_unique(r1.skip(1), r2.skip(1), r1.skip(1));
        assert(r1 =~= seq![r1[0]] + r1.skip(1));
        assert(r2 =~= seq![r2[0]] + r2.skip(1));
    }
}

/// Trie des chaînes et retire les doublons (`sort` puis `dedup`).
pub fn trier_sans_doublon(v: Vec<String>) -> (r: Vec<String>)
    ensures
        est_tri_sans_doublon(r@.map_values(|s: String| s@), v@.map_values(|s: String| s@)),
{
    let ghost vv = v@.map_values(|s: String| s@);
    let mut r: Vec<String> = Vec::new();
    let mut rc: Vec<Vec<char>> = Vec::new();
    let mut restant = v;
    let ghost mut i: int = 0;
    assert(vv.skip(0) =~= vv);
    while restant.len() > 0
        invariant
            0 <= i <= vv.len(),
            restant@.map_values(|s: String| s@) == vv.skip(i),
            restant@.len() + i == vv.len(),
            rc.deep_view() == r@.map_values(|s: String| s@),
            strictement_croissante(rc.deep_view()),
            forall|x: Seq<char>| rc.deep_view().contains(x) <==> vv.take(i).contains(x),
        decreases restant@.len(),
    {
        let ghost avant_restant = restant@;
        let x = restant.remove(0);
        let xc = crate::texte::caracteres(x.as_str());
        let ghost rv = rc.deep_view();
        proof {
            assert(avant_restant.map_values(|s: String| s@)[0] == x@);
            assert(vv.skip(i)[0] == vv[i]);
            assert(restant@ =~= avant_restant.skip(1));
            assert(restant@.map_values(|s: String| s@) =~= avant_restant.map_values(|s: String| s@).skip(1));
            assert(vv.skip(i).skip(1) =~= vv.skip(i + 1));
        }
        // Première position dont l'élément ne précède pas x.
        let mut p: usize = 0;
        while p < rc.len() && avant_lex(rc[p].as_slice(), xc.as_slice())
            invariant
                p <= rc@.len(),
                rv == rc.deep_view(),
                forall|k: int| 0 <= k < p ==> lex_inf(#[trigger] rv[k], xc@),
            decreases rc@.len() - p,
        {
            assert(rv[p as int] =~= rc[p as int]@);
            p = p + 1;
        }
        let egal = p < rc.len() && crate::texte::memes(rc[p].as_slice(), xc.as_slice());
        proof {
            if p < rc@.len() {
                assert(rv[p as int] =~= rc[p as int]@);
            }
        }
        if !egal {
            proof {
                if p < rv.len() {
                    lemme_lex_total(rv[p as int], xc@);
                }
            }
            let ghost xv = xc@;
            assert(xc.deep_view() =~= xv);
            rc.insert(p, xc);
            r.insert(p, x);
            proof {
                let nv = rc.deep_view();
                assert(nv =~~= rv.insert(p as int, x@));
                assert(r@.map_values(|s: String| s@) =~= nv);
                assert forall|a: int, b: int| 0 <= a < b < nv.len() implies lex_inf(#[trigger] nv[a], #[trigger] nv[b]) by {
                    if b < p {
                        assert(nv[a] == rv[a] && nv[b] == rv[b]);
                    } else if b == p {
                        assert(nv[a] == rv[a]);
                    } else if a == p {
                        assert(nv[b] == rv[b - 1]);
                        if b - 1 > p {
                            lemme_lex_transitif(x@, rv[p as int], rv[b - 1]);
                        }
                    } else if a < p {
                        assert(nv[a] == rv[a] && nv[b] == rv[b - 1]);
                    } else {
                        assert(nv[a] == rv[a - 1] && nv[b] == rv[b - 1]);
                    }
                }
                assert forall|y: Seq<char>| nv.contains(y) <==> vv.take(i + 1).contains(y) by {
                    assert(vv.take(i + 1) =~= vv.take(i).push(x@));
                    if nv.contains(y) {
                        let k = choose|k: int| 0 <= k < nv.len() && nv[k] == y;
                        if k < p {
                            assert(rv[k] == y);
                            assert(rv.contains(y));
                        } else if k > p {
                            assert(rv[k - 1] == y);
                            assert(rv.contains(y));
                        } else {
                            assert(vv.take(i + 1)[i] == y);
                        }
                    }
                    if vv.take(i + 1).contains(y) {
                        let k = choose|k: int| 0 <= k < vv.take(i + 1).len() && #[trigger] vv.take(i + 1)[k] == y;
                        if k < i {
                            assert(vv.take(i)[k] == y);
                            assert(rv.contains(y));
                            let m = choose|m: int| 0 <= m < rv.len() && rv[m] == y;
                            if m < p {
                                assert(nv[m] == y);
                            } else {
                                assert(nv[m + 1] == y);
                            }
                        } else {
                            assert(nv[p as int] == y);
                        }
                    }
                }
            }
        } else {
            proof {
                assert forall|y: Seq<char>| rv.contains(y) <==> vv.take(i + 1).contains(y) by {
                    assert(vv.take(i + 1) =~= vv.take(i).push(x@));
                    if vv.take(i + 1).contains(y) {
                        let k = choose|k: int| 0 <= k < vv.take(i + 1).len() && #[trigger] vv.take(i + 1)[k] == y;
                        if k < i {
                            assert(vv.take(i)[k] == y);
                        } else {
                            assert(rv[p as int] == y);
                        }
                    }
                    if rv.contains(y) {
                        assert(vv.take(i).contains(y));
                        let k = choose|k: int| 0 <= k < vv.take(i).len() && #[trigger] vv.take(i)[k] == y;
                        assert(vv.take(i + 1)[k] == y);
                    }
                }
            }
        }
        proof {
            i = i + 1;
        }
    }
    assert(vv.take(vv.len() as int) =~= vv);
    r
}

} // verus!
