//! Valeurs JSON : lecture d'un texte par `serde_json`, et accès aux membres.

use vstd::prelude::*;

verus! {

/// Une valeur JSON. Les membres d'un objet sont dans l'ordre de parcours de la
/// table d'origine, chaque clé une seule fois.
#[derive(Debug)]
pub enum ValeurJson {
    Nul,
    Booleen(bool),
    /// Le nombre tel qu'écrit.
    Nombre(String),
    Chaine(String),
    Tableau(Vec<ValeurJson>),
    Objet(Vec<(String, ValeurJson)>),
}

/// Valeur du premier membre de clé `cle`.
pub open spec fn membre(es: Seq<(String, ValeurJson)>, cle: Seq<char>) -> Option<ValeurJson>
    decreases es.len(),
{
    if es.len() == 0 {
        None
    } else if es[0].0@ == cle {
        Some(es[0].1)
    } else {
        membre(es.skip(1), cle)
    }
}

/// `valeur.get(cle)` : le membre d'un objet, rien pour un autre genre de valeur.
pub open spec fn obtenir(v: ValeurJson, cle: Seq<char>) -> Option<ValeurJson> {
    match v {
        ValeurJson::Objet(es) => membre(es@, cle),
        _ => None,
    }
}

/// `valeur.get(cle)`.
pub fn obtenir_membre<'a>(v: &'a ValeurJson, cle: &String) -> (r: Option<&'a ValeurJson>)
    ensures
        match r {
            Some(x) => obtenir(*v, cle@) == Some(*x),
            None => obtenir(*v, cle@) is None,
        },
{
    match v {
        ValeurJson::Objet(es) => {
            let mut i: usize = 0;
            assert(es@.skip(0) =~= es@);
            while i < es.len()
                invariant
                    i <= es@.len(),
                    obtenir(*v, cle@) == membre(es@, cle@),
                    membre(es@, cle@) == membre(es@.skip(i as int), cle@),
                decreases es@.len() - i,
            {
                let ghost t = es@.skip(i as int);
                assert(t[0] == es@[i as int]);
                let egal = es[i].0.eq(cle);
                assert(egal == (es@[i as int].0@ == cle@));
                if egal {
                    return Some(&es[i].1);
                }
                assert(t.skip(1) =~= es@.skip(i + 1));
                i = i + 1;
            }
            None
        },
        _ => None,
    }
}


#[verifier::external_type_specification]
#[verifier::external_body]
pub struct ExValeurSerde(serde_json::Value);

/// Ce que rend `serde_json::from_str::<serde_json::Value>` sur un texte, la valeur mise
/// sous la forme de `ValeurJson` (membres dans l'ordre de parcours de `serde_json`) ; en cas
/// d'échec, le texte de l'erreur de `serde_json`.
pub uninterp spec fn json_lu(texte: Seq<char>) -> Result<ValeurJson, Seq<char>>;

pub open spec fn vue_lecture_json(r: Result<ValeurJson, String>) -> Result<ValeurJson, Seq<char>> {
    match r {
        Ok(v) => Ok(v),
        Err(e) => Err(e@),
    }
}

/// Change une valeur de `serde_json` en `ValeurJson`, variante pour variante (le nombre par
/// son écriture `to_string`). Rien n'en est dit : `lire_json`, seul appelant, nomme le
/// résultat de l'ensemble.
#[verifier::external_body]
fn valeur_de_serde(v: serde_json::Value) -> ValeurJson {
    match v {
        serde_json::Value::Null => ValeurJson::Nul,
        serde_json::Value::Bool(b) => ValeurJson::Booleen(b),
        serde_json::Value::Number(n) => ValeurJson::Nombre(n.to_string()),
        serde_json::Value::String(s) => ValeurJson::Chaine(s),
        serde_json::Value::Array(a) => ValeurJson::Tableau(a.into_iter().map(valeur_de_serde).collect()),
        serde_json::Value::Object(o) => ValeurJson::Objet(o.into_iter().map(|(k, x)| (k, valeur_de_serde(x))).collect()),
    }
}

/// Appelle `serde_json::from_str::<serde_json::Value>` sur le texte. Le contrat nomme le
/// résultat (`json_lu`) sans le décrire : la grammaire JSON de `serde_json` et le texte de
/// ses erreurs ne sont pas écrits ici.
#[verifier::external_body]
pub(crate) fn lire_json(texte: &str) -> (r: Result<ValeurJson, String>)
    ensures
        vue_lecture_json(r) == json_lu(texte@),
{
    match serde_json::from_str::<serde_json::Value>(texte) {
        Ok(v) => Ok(valeur_de_serde(v)),
        Err(e) => Err(e.to_string()),
    }
}

} // verus!
