//! Échanges avec le serveur du modèle (LM Studio, OpenRouter) : adresses, en-têtes,
//! décisions sur les statuts, nettoyage de la réponse.

use vstd::prelude::*;
use crate::json::{json_lu, lire_json, obtenir, obtenir_membre, vue_lecture_json, ValeurJson};
use crate::transcript::garder_valeurs;
use crate::tri::{est_tri_sans_doublon, trier_sans_doublon};
use crate::texte::{
    pousser_morceau, chaines_de, decimal, ecrire_decimal,
    apparait_a, caracteres, chaine_de, contient, contient_motif, debut_de, en_minuscules, etendre,
    mettre_en_minuscules, retirer_debut, retirer_fin, rogne, rogner, sans_debut, sans_fin,
    tronquer,
};

verus! {

/// Erreurs d'appel au serveur du modèle.
#[derive(Debug)]
pub enum ErreurIA {
    Requete { message: String },
    Reponse { message: String },
    StatutHTTP { statut: u16, corps: String },
}

/// Paramètres de connexion au modèle. La température, un flottant, est portée à côté
/// par l'appelant.
#[derive(Debug, Clone)]
pub struct ConfigurationIA {
    pub base_url: String,
    pub route: String,
    pub modele: Option<String>,
    pub max_caracteres_transcript: usize,
    pub max_caracteres_reponse: usize,
    /// Jeton Bearer (ex. clé API OpenRouter). LM Studio local n'en a pas besoin.
    pub cle_api_bearer: Option<String>,
}

/// `c` est la lettre `l` du motif `<think>` en comparaison insensible à la casse
/// (classes de repli de casse Unicode : `k` admet aussi le signe kelvin U+212A).
pub open spec fn meme_lettre(c: char, l: char) -> bool {
    if l == 't' {
        c == 't' || c == 'T'
    } else if l == 'h' {
        c == 'h' || c == 'H'
    } else if l == 'i' {
        c == 'i' || c == 'I'
    } else if l == 'n' {
        c == 'n' || c == 'N'
    } else if l == 'k' {
        c == 'k' || c == 'K' || c == '\u{212A}'
    } else {
        c == l
    }
}

/// `motif` apparaît en `i` à la casse près.
pub open spec fn apparait_sans_casse(s: Seq<char>, motif: Seq<char>, i: int) -> bool {
    &&& 0 <= i
    &&& i + motif.len() <= s.len()
    &&& forall|j: int| 0 <= j < motif.len() ==> meme_lettre(#[trigger] s[i + j], motif[j])
}

/// `k` est la première fermeture `</think>` qui suit l'ouverture en tête de `s`.
pub open spec fn fermeture_pensee(s: Seq<char>, k: int) -> bool {
    &&& k >= 7
    &&& apparait_sans_casse(s, seq!['<', '/', 't', 'h', 'i', 'n', 'k', '>'], k)
    &&& forall|j: int| 7 <= j < k ==> !apparait_sans_casse(s, seq!['<', '/', 't', 'h', 'i', 'n', 'k', '>'], j)
}

/// Retire, de gauche à droite, chaque bloc `<think>…</think>` (motif `(?is)<think>.*?</think>` :
/// casse ignorée, fin de ligne comprise, fermeture la plus proche).
pub open spec fn sans_pensee(s: Seq<char>) -> Seq<char>
    decreases s.len(),
{
    if s.len() == 0 {
        s
    } else if apparait_sans_casse(s, seq!['<', 't', 'h', 'i', 'n', 'k', '>'], 0) && exists|k: int| fermeture_pensee(s, k) {
        let k = choose|k: int| fermeture_pensee(s, k);
        sans_pensee(s.skip(k + 8))
    } else {
        seq![s[0]] + sans_pensee(s.skip(1))
    }
}

fn lettre_egale(c: char, l: char) -> (r: bool)
    ensures
        r == meme_lettre(c, l),
{
    if l == 't' {
        c == 't' || c == 'T'
    } else if l == 'h' {
        c == 'h' || c == 'H'
    } else if l == 'i' {
        c == 'i' || c == 'I'
    } else if l == 'n' {
        c == 'n' || c == 'N'
    } else if l == 'k' {
        c == 'k' || c == 'K' || c == '\u{212A}'
    } else {
        c == l
    }
}

fn apparait_sans_casse_a(s: &[char], motif: &[char], i: usize) -> (r: bool)
    ensures
        r == apparait_sans_casse(s@, motif@, i as int),
{
    if i > s.len() || motif.len() > s.len() - i {
        return false;
    }
    let mut k: usize = 0;
    while k < motif.len()
        invariant
            k <= motif@.len(),
            i + motif@.len() <= s@.len(),
            s@.len() == s.len(),
            motif@.len() == motif.len(),
            forall|l: int| 0 <= l < k ==> meme_lettre(#[trigger] s@[i + l], motif@[l]),
        decreases motif@.len() - k,
    {
        if !lettre_egale(s[i + k], motif[k]) {
            return false;
        }
        k = k + 1;
    }
    true
}

/// Retire les blocs `<think>…</think>`.
pub fn retirer_pensees(s: &[char]) -> (r: Vec<char>)
    ensures
        r@ == sans_pensee(s@),
{
    let ouvre = vec!['<', 't', 'h', 'i', 'n', 'k', '>'];
    let ferme = vec!['<', '/', 't', 'h', 'i', 'n', 'k', '>'];
    assert(ouvre@ =~= seq!['<', 't', 'h', 'i', 'n', 'k', '>']);
    assert(ferme@ =~= seq!['<', '/', 't', 'h', 'i', 'n', 'k', '>']);
    let n = s.len();
    let mut r: Vec<char> = Vec::new();
    let mut i: usize = 0;
    assert(s@.skip(0) =~= s@);
    while i < n
        invariant
            i <= n,
            n == s@.len(),
            ouvre@ == seq!['<', 't', 'h', 'i', 'n', 'k', '>'],
            ferme@ == seq!['<', '/', 't', 'h', 'i', 'n', 'k', '>'],
            sans_pensee(s@) == r@ + sans_pensee(s@.skip(i as int)),
        decreases n - i,
    {
        let ghost t = s@.skip(i as int);
        let mut trouve = false;
        if apparait_sans_casse_a(s, ouvre.as_slice(), i) {
            proof {
                assert forall|j: int| 0 <= j < 7 implies meme_lettre(#[trigger] t[0 + j], ouvre@[j]) by {
                    assert(t[j] == s@[i + j]);
                }
            }
            let mut k: usize = i + 7;
            let mut ferme_trouvee = false;
            while k < n && !ferme_trouvee
                invariant
                    i + 7 <= k <= n,
                    n == s@.len(),
                    ferme@ == seq!['<', '/', 't', 'h', 'i', 'n', 'k', '>'],
                    t == s@.skip(i as int),
                    ferme_trouvee ==> apparait_sans_casse(s@, ferme@, k as int),
                    forall|j: int| i + 7 <= j < k ==> !apparait_sans_casse(s@, ferme@, j),
                decreases n - k, if ferme_trouvee { 0int } else { 1int },
            {
                if apparait_sans_casse_a(s, ferme.as_slice(), k) {
                    ferme_trouvee = true;
                } else {
                    k = k + 1;
                }
            }
            if ferme_trouvee {
                proof {
                    let kk = (k - i) as int;
                    assert forall|j: int| 0 <= j < 8 implies meme_lettre(#[trigger] t[kk + j], ferme@[j]) by {
                        assert(t[kk + j] == s@[k + j]);
                    }
                    assert forall|j: int| 7 <= j < kk implies !apparait_sans_casse(t, ferme@, j) by {
                        if apparait_sans_casse(t, ferme@, j) {
                            assert forall|l: int| 0 <= l < 8 implies meme_lettre(#[trigger] s@[i + j + l], ferme@[l]) by {
                                assert(t[j + l] == s@[i + j + l]);
                            }
                            assert(apparait_sans_casse(s@, ferme@, i + j));
                        }
                    }
                    assert(fermeture_pensee(t, kk));
                    assert forall|k2: int| fermeture_pensee(t, k2) implies k2 == kk by {
                        if k2 < kk {
                        } else if k2 > kk {
                            assert(!apparait_sans_casse(t, ferme@, kk));
                        }
                    }
                    assert(t.skip(kk + 8) =~= s@.skip(k + 8));
                }
                i = k + 8;
                trouve = true;
            } else {
                proof {
                    assert forall|k2: int| !fermeture_pensee(t, k2) by {
                        if fermeture_pensee(t, k2) {
                            assert forall|l: int| 0 <= l < 8 implies meme_lettre(#[trigger] s@[i + k2 + l], ferme@[l]) by {
                                assert(t[k2 + l] == s@[i + k2 + l]);
                            }
                            assert(apparait_sans_casse(s@, ferme@, i + k2));
                        }
                    }
                }
            }
        } else {
            proof {
                if apparait_sans_casse(t, ouvre@, 0) {
                    assert forall|j: int| 0 <= j < 7 implies meme_lettre(#[trigger] s@[i + j], ouvre@[j]) by {
                        assert(t[0 + j] == s@[i + j]);
                    }
                }
            }
        }
        if !trouve {
            proof {
                assert(t.skip(1) =~= s@.skip(i + 1));
                assert(t[0] == s@[i as int]);
            }
            r.push(s[i]);
            i = i + 1;
        }
    }
    r
}

/// Réponse sans blocs de raisonnement, rognée.
pub open spec fn reponse_sans_pensee(texte: Seq<char>) -> Seq<char> {
    rogne(sans_pensee(texte))
}

/// Enlève les blocs de raisonnement (`<think>…</think>`) puis rogne.
pub fn supprimer_blocs_pensee(texte: &str) -> (r: String)
    ensures
        r@ == reponse_sans_pensee(texte@),
{
    let cs = caracteres(texte);
    let sans = retirer_pensees(cs.as_slice());
    let t = rogner(sans.as_slice());
    chaine_de(t.as_slice())
}

/// La réponse gardée : les `limite` premiers caractères, sans blocs de raisonnement, rognée.
pub fn reponse_finale(contenu: &str, limite: usize) -> (r: String)
    ensures
        r@ == reponse_sans_pensee(debut_de(contenu@, limite as nat)),
{
    let tronque = tronquer(contenu, limite);
    supprimer_blocs_pensee(tronque.as_str())
}


/// `{base sans / final}/{route sans / initial}`.
pub open spec fn url_complete(base: Seq<char>, route: Seq<char>) -> Seq<char> {
    sans_fin(base, '/') + seq!['/'] + sans_debut(route, '/')
}

/// Adresse de l'appel de chat : base sans `/` final, `/`, route sans `/` initial.
pub fn url_chat(configuration: &ConfigurationIA) -> (r: String)
    ensures
        r@ == url_complete(configuration.base_url@, configuration.route@),
{
    let b = caracteres(configuration.base_url.as_str());
    let ro = caracteres(configuration.route.as_str());
    let mut u = retirer_fin(b.as_slice(), '/');
    u.push('/');
    let r2 = retirer_debut(ro.as_slice(), '/');
    etendre(&mut u, r2.as_slice());
    chaine_de(u.as_slice())
}

/// Adresse d'un chemin sous la base (base sans `/` final, puis le chemin).
pub open spec fn url_sous_base(base: Seq<char>, chemin: Seq<char>) -> Seq<char> {
    sans_fin(base, '/') + chemin
}

fn sous_base(base: &String, chemin: &str) -> (r: String)
    ensures
        r@ == url_sous_base(base@, chemin@),
{
    let b = caracteres(base.as_str());
    let mut u = retirer_fin(b.as_slice(), '/');
    let c = caracteres(chemin);
    etendre(&mut u, c.as_slice());
    chaine_de(u.as_slice())
}

/// `{base}/v1/models` (liste OpenAI-compatible de LM Studio).
pub fn url_modeles_openai(configuration: &ConfigurationIA) -> (r: String)
    ensures
        r@ == url_sous_base(configuration.base_url@, "/v1/models"@),
{
    sous_base(&configuration.base_url, "/v1/models")
}

/// `{base}/api/v1/models` (API REST de LM Studio).
pub fn url_modeles_rest(configuration: &ConfigurationIA) -> (r: String)
    ensures
        r@ == url_sous_base(configuration.base_url@, "/api/v1/models"@),
{
    sous_base(&configuration.base_url, "/api/v1/models")
}

/// `{base}/api/v1/models/load` (chargement d'un modèle par LM Studio).
pub fn url_chargement_modele(configuration: &ConfigurationIA) -> (r: String)
    ensures
        r@ == url_sous_base(configuration.base_url@, "/api/v1/models/load"@),
{
    sous_base(&configuration.base_url, "/api/v1/models/load")
}

/// Valeur de l'en-tête `Authorization` : `Bearer <clé rognée>` si la clé n'est pas blanche.
pub open spec fn entete_bearer(cle: Option<Seq<char>>) -> Option<Seq<char>> {
    match cle {
        Some(c) => if rogne(c).len() > 0 {
            Some("Bearer "@ + rogne(c))
        } else {
            None
        },
        None => None,
    }
}

pub open spec fn vue_option(o: Option<String>) -> Option<Seq<char>> {
    match o {
        Some(s) => Some(s@),
        None => None,
    }
}

/// Valeur de l'en-tête `Authorization`, s'il y en a un.
pub fn valeur_entete_bearer(configuration: &ConfigurationIA) -> (r: Option<String>)
    ensures
        vue_option(r) == entete_bearer(vue_option(configuration.cle_api_bearer)),
{
    match &configuration.cle_api_bearer {
        Some(cle) => {
            let c = caracteres(cle.as_str());
            let t = rogner(c.as_slice());
            if t.len() > 0 {
                let mut v = caracteres("Bearer ");
                etendre(&mut v, t.as_slice());
                Some(chaine_de(v.as_slice()))
            } else {
                None
            }
        },
        None => None,
    }
}

/// La base désigne-t-elle OpenRouter (`openrouter.ai` dans l'adresse) ?
pub fn est_openrouter(configuration: &ConfigurationIA) -> (r: bool)
    ensures
        r == contient(configuration.base_url@, "openrouter.ai"@),
{
    let b = caracteres(configuration.base_url.as_str());
    let m = caracteres("openrouter.ai");
    contient_motif(b.as_slice(), m.as_slice())
}

/// LM Studio a annulé le chargement du modèle pendant la première requête : statut 400 et
/// corps (en minuscules ASCII) citant `failed to load model` et `operation canceled`.
pub open spec fn chargement_annule(statut: u16, corps: Seq<char>) -> bool {
    statut == 400 && contient(en_minuscules(corps), "failed to load model"@) && contient(
        en_minuscules(corps),
        "operation canceled"@,
    )
}

/// Faut-il relancer la requête de chat après une annulation du chargement du modèle ?
pub fn erreur_modele_charge_annulee(statut: u16, corps: &str) -> (r: bool)
    ensures
        r == chargement_annule(statut, corps@),
{
    if statut != 400 {
        return false;
    }
    let c = caracteres(corps);
    let m = mettre_en_minuscules(c.as_slice());
    let a = caracteres("failed to load model");
    let b = caracteres("operation canceled");
    contient_motif(m.as_slice(), a.as_slice()) && contient_motif(m.as_slice(), b.as_slice())
}

/// Le modèle dont demander le chargement à LM Studio avant de relancer : aucun pour
/// OpenRouter ni sans modèle non blanc.
pub fn modele_a_charger(configuration: &ConfigurationIA) -> (r: Option<String>)
    ensures
        match r {
            Some(m) => !contient(configuration.base_url@, "openrouter.ai"@)
                && configuration.modele == Some(m) && rogne(m@).len() > 0,
            None => contient(configuration.base_url@, "openrouter.ai"@) || match configuration.modele {
                Some(m) => rogne(m@).len() == 0,
                None => true,
            },
        },
{
    if est_openrouter(configuration) {
        return None;
    }
    match &configuration.modele {
        Some(m) => {
            let c = caracteres(m.as_str());
            let t = rogner(c.as_slice());
            if t.len() > 0 {
                Some(m.clone())
            } else {
                None
            }
        },
        None => None,
    }
}

/// Statut HTTP de succès (2xx).
pub open spec fn succes_http(statut: u16) -> bool {
    200 <= statut && statut < 300
}

/// Refuse un statut hors 2xx : l'erreur garde le statut et les 1500 premiers caractères du corps.
pub fn verifier_statut(statut: u16, corps: &str) -> (r: Result<(), ErreurIA>)
    ensures
        r is Ok <==> succes_http(statut),
        match r {
            Err(ErreurIA::StatutHTTP { statut: s, corps: c }) => s == statut && c@ == debut_de(corps@, 1500),
            Err(_) => false,
            Ok(()) => true,
        },
{
    if 200 <= statut && statut < 300 {
        Ok(())
    } else {
        Err(ErreurIA::StatutHTTP { statut, corps: tronquer(corps, 1500) })
    }
}


/// Une chaîne JSON non vide.
pub open spec fn chaine_non_vide(v: Option<ValeurJson>) -> Option<Seq<char>> {
    match v {
        Some(ValeurJson::Chaine(s)) => if s@.len() > 0 {
            Some(s@)
        } else {
            None
        },
        _ => None,
    }
}

/// L'identifiant d'un objet modèle : la première des clés `key`, `id`, `model`, `name`,
/// `root` dont la valeur est une chaîne non vide.
pub open spec fn id_objet(v: ValeurJson) -> Option<Seq<char>> {
    match chaine_non_vide(obtenir(v, "key"@)) {
        Some(s) => Some(s),
        None => match chaine_non_vide(obtenir(v, "id"@)) {
            Some(s) => Some(s),
            None => match chaine_non_vide(obtenir(v, "model"@)) {
                Some(s) => Some(s),
                None => match chaine_non_vide(obtenir(v, "name"@)) {
                    Some(s) => Some(s),
                    None => chaine_non_vide(obtenir(v, "root"@)),
                },
            },
        },
    }
}

/// L'identifiant d'un élément de liste : une chaîne non vide, ou l'identifiant d'un objet.
pub open spec fn id_element(v: ValeurJson) -> Option<Seq<char>> {
    match v {
        ValeurJson::Chaine(s) => if s@.len() > 0 {
            Some(s@)
        } else {
            None
        },
        ValeurJson::Objet(_) => id_objet(v),
        _ => None,
    }
}

/// Identifiants d'un tableau JSON de modèles.
pub open spec fn ids_tableau(v: Option<ValeurJson>) -> Seq<Seq<char>> {
    match v {
        Some(ValeurJson::Tableau(a)) => garder_valeurs(a@, |x: ValeurJson| id_element(x)),
        _ => seq![],
    }
}

/// Identifiants lus dans une réponse LM Studio : `data[]` (format OpenAI), sinon
/// `data.models[]`, puis `models[]` (format REST).
pub open spec fn ids_reponse(v: ValeurJson) -> Seq<Seq<char>> {
    let d = ids_tableau(obtenir(v, "data"@));
    let d2 = if d.len() == 0 {
        match obtenir(v, "data"@) {
            Some(dv) => ids_tableau(obtenir(dv, "models"@)),
            None => seq![],
        }
    } else {
        d
    };
    d2 + ids_tableau(obtenir(v, "models"@))
}

/// Les clés lues dans une réponse de liste de modèles.
pub struct ClesModeles {
    pub key: String,
    pub id: String,
    pub model: String,
    pub name: String,
    pub root: String,
    pub data: String,
    pub models: String,
}

impl ClesModeles {
    pub open spec fn valides(&self) -> bool {
        &&& self.key@ == "key"@
        &&& self.id@ == "id"@
        &&& self.model@ == "model"@
        &&& self.name@ == "name"@
        &&& self.root@ == "root"@
        &&& self.data@ == "data"@
        &&& self.models@ == "models"@
    }

    pub fn nouvelles() -> (r: ClesModeles)
        ensures
            r.valides(),
    {
        ClesModeles {
            key: "key".to_owned(),
            id: "id".to_owned(),
            model: "model".to_owned(),
            name: "name".to_owned(),
            root: "root".to_owned(),
            data: "data".to_owned(),
            models: "models".to_owned(),
        }
    }
}

fn chaine_non_vide_de(v: Option<&ValeurJson>) -> (r: Option<String>)
    ensures
        vue_option(r) == chaine_non_vide(
            match v {
                Some(x) => Some(*x),
                None => None,
            },
        ),
{
    match v {
        Some(ValeurJson::Chaine(s)) => if !s.as_str().is_empty() {
            Some(s.clone())
        } else {
            None
        },
        _ => None,
    }
}

fn id_de_l_objet(v: &ValeurJson, cles: &ClesModeles) -> (r: Option<String>)
    requires
        cles.valides(),
    ensures
        vue_option(r) == id_objet(*v),
{
    match chaine_non_vide_de(obtenir_membre(v, &cles.key)) {
        Some(s) => return Some(s),
        None => {},
    }
    match chaine_non_vide_de(obtenir_membre(v, &cles.id)) {
        Some(s) => return Some(s),
        None => {},
    }
    match chaine_non_vide_de(obtenir_membre(v, &cles.model)) {
        Some(s) => return Some(s),
        None => {},
    }
    match chaine_non_vide_de(obtenir_membre(v, &cles.name)) {
        Some(s) => return Some(s),
        None => {},
    }
    chaine_non_vide_de(obtenir_membre(v, &cles.root))
}

fn ids_du_tableau(v: Option<&ValeurJson>, cles: &ClesModeles, acc: &mut Vec<String>)
    requires
        cles.valides(),
    ensures
        final(acc)@.map_values(|s: String| s@) == old(acc)@.map_values(|s: String| s@) + ids_tableau(
            match v {
                Some(x) => Some(*x),
                None => None,
            },
        ),
{
    match v {
        Some(ValeurJson::Tableau(a)) => {
            let ghost debut = acc@.map_values(|s: String| s@);
            let mut i: usize = 0;
            while i < a.len()
                invariant
                    i <= a@.len(),
                    cles.valides(),
                    acc@.map_values(|s: String| s@) == debut + garder_valeurs(a@.take(i as int), |x: ValeurJson| id_element(x)),
                decreases a@.len() - i,
            {
                proof {
                    let t = a@.take(i + 1);
                    assert(t.drop_last() =~= a@.take(i as int));
                }
                let id = match &a[i] {
                    ValeurJson::Chaine(s) => if !s.as_str().is_empty() {
                        Some(s.clone())
                    } else {
                        None
                    },
                    ValeurJson::Objet(_) => id_de_l_objet(&a[i], cles),
                    _ => None,
                };
                match id {
                    Some(s) => {
                        let ghost avant = acc@;
                        acc.push(s);
                        assert(acc@.map_values(|s: String| s@) =~= avant.map_values(|s: String| s@).push(s@));
                    },
                    None => {},
                }
                i = i + 1;
            }
            assert(a@.take(a@.len() as int) =~= a@);
        },
        _ => {
            assert(acc@.map_values(|s: String| s@) =~= acc@.map_values(|s: String| s@) + Seq::<Seq<char>>::empty());
        },
    }
}

/// Identifiants des modèles d'une réponse LM Studio déjà analysée, triés, sans doublon.
pub fn extraire_identifiants_modeles_depuis_json(valeur: &ValeurJson) -> (r: Vec<String>)
    ensures
        est_tri_sans_doublon(r@.map_values(|s: String| s@), ids_reponse(*valeur)),
{
    let cles = ClesModeles::nouvelles();
    let mut ids: Vec<String> = Vec::new();
    assert(ids@.map_values(|s: String| s@) =~= Seq::<Seq<char>>::empty());
    let data = obtenir_membre(valeur, &cles.data);
    ids_du_tableau(data, &cles, &mut ids);
    assert(ids@.map_values(|s: String| s@) =~= ids_tableau(obtenir(*valeur, "data"@)));
    if ids.len() == 0 {
        match data {
            Some(dv) => {
                let models = obtenir_membre(dv, &cles.models);
                ids_du_tableau(models, &cles, &mut ids);
            },
            None => {},
        }
    }
    let ghost d2 = ids@.map_values(|s: String| s@);
    let models = obtenir_membre(valeur, &cles.models);
    ids_du_tableau(models, &cles, &mut ids);
    assert(ids@.map_values(|s: String| s@) =~= ids_reponse(*valeur));
    trier_sans_doublon(ids)
}

/// Les identifiants qui contiennent `:free`, dans l'ordre.
pub open spec fn ids_gratuits(ids: Seq<Seq<char>>) -> Seq<Seq<char>>
    decreases ids.len(),
{
    if ids.len() == 0 {
        seq![]
    } else {
        let p = ids_gratuits(ids.drop_last());
        if contient(ids.last(), ":free"@) {
            p.push(ids.last())
        } else {
            p
        }
    }
}

/// Les identifiants gardés sont exactement ceux de la liste qui contiennent `:free`.
pub proof fn loi_ids_gratuits(ids: Seq<Seq<char>>)
    ensures
        forall|x: Seq<char>| ids_gratuits(ids).contains(x) <==> (ids.contains(x) && contient(x, ":free"@)),
    decreases ids.len(),
{
    if ids.len() > 0 {
        let p = ids.drop_last();
        loi_ids_gratuits(p);
        assert forall|x: Seq<char>| ids_gratuits(ids).contains(x) <==> (ids.contains(x) && contient(x, ":free"@)) by {
            assert(ids =~= p.push(ids.last()));
            if ids.contains(x) && x != ids.last() {
                let k = choose|k: int| 0 <= k < ids.len() && ids[k] == x;
                assert(p[k] == x);
            }
            if p.contains(x) {
                let k = choose|k: int| 0 <= k < p.len() && p[k] == x;
                assert(ids[k] == x);
            }
            if contient(ids.last(), ":free"@) {
                assert(ids_gratuits(ids) == ids_gratuits(p).push(ids.last()));
                assert(ids_gratuits(ids)[ids_gratuits(p).len() as int] == ids.last());
                if ids_gratuits(p).contains(x) {
                    let k = choose|k: int| 0 <= k < ids_gratuits(p).len() && ids_gratuits(p)[k] == x;
                    assert(ids_gratuits(ids)[k] == x);
                }
                if ids_gratuits(ids).contains(x) && x != ids.last() {
                    let k = choose|k: int| 0 <= k < ids_gratuits(ids).len() && ids_gratuits(ids)[k] == x;
                    assert(ids_gratuits(p)[k] == x);
                }
            }
            assert(ids.contains(ids.last()));
        }
    }
}

/// Modèles gratuits d'OpenRouter (`:free` dans l'identifiant), triés, sans doublon.
pub fn modeles_gratuits(ids: Vec<String>) -> (r: Vec<String>)
    ensures
        est_tri_sans_doublon(r@.map_values(|s: String| s@), ids_gratuits(ids@.map_values(|s: String| s@))),
{
    let ghost iv = ids@.map_values(|s: String| s@);
    let motif = caracteres(":free");
    let mut gardes: Vec<String> = Vec::new();
    let mut i: usize = 0;
    while i < ids.len()
        invariant
            i <= ids@.len(),
            iv == ids@.map_values(|s: String| s@),
            motif@ == ":free"@,
            gardes@.map_values(|s: String| s@) == ids_gratuits(iv.take(i as int)),
        decreases ids@.len() - i,
    {
        proof {
            let t = iv.take(i + 1);
            assert(t.drop_last() =~= iv.take(i as int));
            assert(t.last() == ids@[i as int]@);
        }
        let c = caracteres(ids[i].as_str());
        if contient_motif(c.as_slice(), motif.as_slice()) {
            let ghost avant = gardes@;
            let s = ids[i].clone();
            gardes.push(s);
            assert(gardes@.map_values(|s: String| s@) =~= avant.map_values(|s: String| s@).push(s@));
        }
        i = i + 1;
    }
    assert(iv.take(ids@.len() as int) =~= iv);
    trier_sans_doublon(gardes)
}


/// Le texte d'une erreur d'appel au serveur du modèle.
pub open spec fn texte_erreur_ia(e: ErreurIA) -> Seq<char> {
    match e {
        ErreurIA::Requete { message } => "échec requête LM Studio: "@ + message@,
        ErreurIA::Reponse { message } => "réponse LM Studio inattendue: "@ + message@,
        ErreurIA::StatutHTTP { statut, corps } => "LM Studio a renvoyé un statut HTTP "@ + decimal(statut as nat)
            + ": "@ + corps@,
    }
}

impl ErreurIA {
    /// Le texte de l'erreur.
    pub fn message(&self) -> (r: String)
        ensures
            r@ == texte_erreur_ia(*self),
    {
        match self {
            ErreurIA::Requete { message } => {
                let mut v = caracteres("échec requête LM Studio: ");
                let m = caracteres(message.as_str());
                etendre(&mut v, m.as_slice());
                chaine_de(v.as_slice())
            },
            ErreurIA::Reponse { message } => {
                let mut v = caracteres("réponse LM Studio inattendue: ");
                let m = caracteres(message.as_str());
                etendre(&mut v, m.as_slice());
                chaine_de(v.as_slice())
            },
            ErreurIA::StatutHTTP { statut, corps } => {
                let mut v = caracteres("LM Studio a renvoyé un statut HTTP ");
                ecrire_decimal(*statut as usize, &mut v);
                let a = caracteres(": ");
                etendre(&mut v, a.as_slice());
                let c = caracteres(corps.as_str());
                etendre(&mut v, c.as_slice());
                chaine_de(v.as_slice())
            },
        }
    }
}

/// Le modèle dont demander le chargement à LM Studio : aucun pour OpenRouter ni sans modèle
/// non blanc.
pub open spec fn modele_charge(c: ConfigurationIA) -> Option<Seq<char>> {
    if contient(c.base_url@, "openrouter.ai"@) {
        None
    } else {
        match c.modele {
            Some(m) => if rogne(m@).len() > 0 {
                Some(m@)
            } else {
                None
            },
            None => None,
        }
    }
}

/// L'erreur d'un statut hors 2xx : le statut et les 1500 premiers caractères du corps.
pub open spec fn est_erreur_statut(e: ErreurIA, statut: u16, corps: Seq<char>) -> bool {
    e == ErreurIA::StatutHTTP { statut: statut, corps: e->corps } && e->corps@ == debut_de(corps, 1500)
}

/// Suite d'un appel de chat après une réponse du serveur.
#[derive(Debug)]
pub enum PasChat {
    /// Demander le chargement de ce modèle s'il y en a un (l'issue n'importe pas),
    /// patienter 900 ms, puis renvoyer la requête de chat.
    ChargerPuisRenvoyer(Option<String>),
    /// Lire le corps JSON de la réponse et le passer à `conclure_chat`.
    Lire,
    Echec(ErreurIA),
}

/// Un message de la requête de chat : rôle et contenu.
#[derive(Debug, Clone)]
pub struct MessageDemande {
    pub role: String,
    pub contenu: String,
}

/// La requête de chat : modèle éventuel, messages, réponse en un seul bloc ou non. La
/// température, un flottant, est portée à côté par l'appelant.
#[derive(Debug, Clone)]
pub struct DemandeChatIA {
    pub modele: Option<String>,
    pub messages: Vec<MessageDemande>,
    pub stream: bool,
}

/// La requête de chat : le modèle de la configuration, le message système puis celui de
/// l'utilisateur, sans flux.
pub fn demande_chat(configuration: &ConfigurationIA, system: &str, user: &str) -> (r: DemandeChatIA)
    ensures
        vue_option(r.modele) == vue_option(configuration.modele),
        r.messages@.len() == 2,
        r.messages@[0].role@ == "system"@,
        r.messages@[0].contenu@ == system@,
        r.messages@[1].role@ == "user"@,
        r.messages@[1].contenu@ == user@,
        !r.stream,
{
    let modele = match &configuration.modele {
        Some(m) => Some(m.clone()),
        None => None,
    };
    let mut messages: Vec<MessageDemande> = Vec::new();
    messages.push(MessageDemande { role: "system".to_owned(), contenu: system.to_owned() });
    messages.push(MessageDemande { role: "user".to_owned(), contenu: user.to_owned() });
    DemandeChatIA { modele, messages, stream: false }
}

/// Décide de la suite après une réponse à la requête de chat (`premiere` : la première
/// requête envoyée). Après un chargement annulé par LM Studio à la première requête, on
/// charge le modèle et on renvoie ; sinon un statut 2xx fait lire la réponse, un autre
/// statut est une erreur.
pub fn apres_reponse_chat(configuration: &ConfigurationIA, premiere: bool, statut: u16, corps: &str) -> (r: PasChat)
    ensures
        premiere && chargement_annule(statut, corps@) ==> (r matches PasChat::ChargerPuisRenvoyer(m)
            && vue_option(m) == modele_charge(*configuration)),
        !(premiere && chargement_annule(statut, corps@)) && succes_http(statut) ==> r matches PasChat::Lire,
        !(premiere && chargement_annule(statut, corps@)) && !succes_http(statut) ==> (r matches PasChat::Echec(e)
            && est_erreur_statut(e, statut, corps@)),
{
    if premiere && erreur_modele_charge_annulee(statut, corps) {
        return PasChat::ChargerPuisRenvoyer(modele_a_charger(configuration));
    }
    match verifier_statut(statut, corps) {
        Ok(()) => PasChat::Lire,
        Err(e) => PasChat::Echec(e),
    }
}

/// Le corps d'une réponse de chat une fois lu comme JSON.
#[derive(Debug)]
pub enum LectureChat {
    /// Le contenu du message du premier choix.
    Contenu(String),
    /// La liste des choix est vide.
    AucunChoix,
    /// Le corps n'a pas la forme attendue ; le message du lecteur JSON.
    Illisible(String),
}

/// La réponse du modèle tirée de la lecture du corps : le contenu du premier choix, gardé
/// dans la limite de caractères, sans blocs de raisonnement, rogné.
pub fn conclure_chat(max_caracteres_reponse: usize, lecture: LectureChat) -> (r: Result<String, ErreurIA>)
    ensures
        match lecture {
            LectureChat::Contenu(c) => r matches Ok(t) && t@ == reponse_sans_pensee(
                debut_de(c@, max_caracteres_reponse as nat),
            ),
            LectureChat::AucunChoix => r matches Err(ErreurIA::Reponse { message: m })
                && m@ == "aucune choice dans la réponse"@,
            LectureChat::Illisible(e) => r matches Err(ErreurIA::Reponse { message: m })
                && m@ == "impossible de parser la réponse JSON: "@ + e@,
        },
{
    match lecture {
        LectureChat::Contenu(c) => Ok(reponse_finale(c.as_str(), max_caracteres_reponse)),
        LectureChat::AucunChoix => Err(ErreurIA::Reponse { message: "aucune choice dans la réponse".to_owned() }),
        LectureChat::Illisible(e) => Err(erreur_lecture_json(e.as_str())),
    }
}

fn erreur_lecture_json(e: &str) -> (r: ErreurIA)
    ensures
        r matches ErreurIA::Reponse { message: m } && m@ == "impossible de parser la réponse JSON: "@ + e@,
{
    let mut v = caracteres("impossible de parser la réponse JSON: ");
    let m = caracteres(e);
    etendre(&mut v, m.as_slice());
    ErreurIA::Reponse { message: chaine_de(v.as_slice()) }
}

/// Requête en cours de la liste des modèles de LM Studio.
#[derive(Debug, Clone, Copy, PartialEq, Eq, Structural)]
pub enum EtapeModeles {
    /// `GET {base}/v1/models`.
    OpenAi,
    /// `GET {base}/api/v1/models` après un 404 de la liste OpenAI-compatible.
    RestApres404,
    /// `GET {base}/api/v1/models` après une liste OpenAI-compatible sans identifiant.
    RestApresVide,
}

/// Suite de la liste des modèles.
#[derive(Debug)]
pub enum PasModeles {
    /// Envoyer `GET` à cette adresse, puis passer la réponse à `apres_reponse_modeles`.
    Demander(String, EtapeModeles),
    Fini(Result<Vec<String>, ErreurIA>),
}

/// Identifiants triés sans doublon d'une lecture JSON, ou l'erreur de lecture.
pub open spec fn ids_lus(lecture: Result<ValeurJson, Seq<char>>, r: Result<Vec<String>, ErreurIA>) -> bool {
    match lecture {
        Ok(v) => r matches Ok(ids) && est_tri_sans_doublon(ids@.map_values(|s: String| s@), ids_reponse(v)),
        Err(e) => r matches Err(ErreurIA::Reponse { message: m }) && m@ == "impossible de parser la réponse JSON: "@ + e,
    }
}

fn lire_ids(lecture: Result<ValeurJson, String>) -> (r: Result<Vec<String>, ErreurIA>)
    ensures
        ids_lus(vue_lecture_json(lecture), r),
{
    match lecture {
        Ok(v) => Ok(extraire_identifiants_modeles_depuis_json(&v)),
        Err(e) => Err(erreur_lecture_json(e.as_str())),
    }
}

/// Commence la liste des modèles de LM Studio : la première adresse à interroger.
pub fn lister_modeles_lm_studio(configuration: &ConfigurationIA) -> (r: (String, EtapeModeles))
    ensures
        r.0@ == url_sous_base(configuration.base_url@, "/v1/models"@),
        r.1 == EtapeModeles::OpenAi,
{
    (url_modeles_openai(configuration), EtapeModeles::OpenAi)
}

/// Décide de la suite après une réponse (statut et corps, que la fonction lit comme JSON).
/// La liste OpenAI-compatible répond 404 : on interroge l'API REST. Elle répond 2xx sans
/// identifiant : on interroge aussi l'API REST, dont un 404 laisse la liste vide. Un autre
/// statut hors 2xx est une erreur.
pub fn apres_reponse_modeles(
    configuration: &ConfigurationIA,
    etape: EtapeModeles,
    statut: u16,
    corps: &str,
) -> (r: PasModeles)
    ensures
        match etape {
            EtapeModeles::OpenAi => if statut == 404 {
                r matches PasModeles::Demander(u, e) && e == EtapeModeles::RestApres404
                    && u@ == url_sous_base(configuration.base_url@, "/api/v1/models"@)
            } else if !succes_http(statut) {
                r matches PasModeles::Fini(Err(e)) && est_erreur_statut(e, statut, corps@)
            } else {
                match json_lu(corps@) {
                    Ok(v) => if ids_reponse(v).len() == 0 {
                        r matches PasModeles::Demander(u, e) && e == EtapeModeles::RestApresVide
                            && u@ == url_sous_base(configuration.base_url@, "/api/v1/models"@)
                    } else {
                        r matches PasModeles::Fini(res) && ids_lus(json_lu(corps@), res)
                    },
                    Err(_) => r matches PasModeles::Fini(res) && ids_lus(json_lu(corps@), res),
                }
            },
            EtapeModeles::RestApres404 => if !succes_http(statut) {
                r matches PasModeles::Fini(Err(e)) && est_erreur_statut(e, statut, corps@)
            } else {
                r matches PasModeles::Fini(res) && ids_lus(json_lu(corps@), res)
            },
            EtapeModeles::RestApresVide => if succes_http(statut) {
                r matches PasModeles::Fini(res) && ids_lus(json_lu(corps@), res)
            } else if statut == 404 {
                r matches PasModeles::Fini(Ok(ids)) && ids@.len() == 0
            } else {
                r matches PasModeles::Fini(Err(e)) && est_erreur_statut(e, statut, corps@)
            },
        },
{
    match etape {
        EtapeModeles::OpenAi => {
            if statut == 404 {
                return PasModeles::Demander(url_modeles_rest(configuration), EtapeModeles::RestApres404);
            }
            if let Err(e) = verifier_statut(statut, corps) {
                return PasModeles::Fini(Err(e));
            }
            let lecture = lire_json(corps);
            let ghost l = vue_lecture_json(lecture);
            match lire_ids(lecture) {
                Ok(ids) => {
                    if ids.len() == 0 {
                        proof {
                            if let Ok(v) = l {
                                if ids_reponse(v).len() > 0 {
                                    assert(ids_reponse(v).contains(ids_reponse(v)[0]));
                                }
                            }
                        }
                        PasModeles::Demander(url_modeles_rest(configuration), EtapeModeles::RestApresVide)
                    } else {
                        proof {
                            if let Ok(v) = l {
                                let iv = ids@.map_values(|s: String| s@);
                                assert(iv[0] == ids@[0]@);
                                assert(iv.contains(iv[0]));
                            }
                        }
                        PasModeles::Fini(Ok(ids))
                    }
                },
                Err(e) => PasModeles::Fini(Err(e)),
            }
        },
        EtapeModeles::RestApres404 => {
            if let Err(e) = verifier_statut(statut, corps) {
                return PasModeles::Fini(Err(e));
            }
            PasModeles::Fini(lire_ids(lire_json(corps)))
        },
        EtapeModeles::RestApresVide => {
            if 200 <= statut && statut < 300 {
                PasModeles::Fini(lire_ids(lire_json(corps)))
            } else if statut == 404 {
                PasModeles::Fini(Ok(Vec::new()))
            } else {
                PasModeles::Fini(Err(ErreurIA::StatutHTTP { statut, corps: tronquer(corps, 1500) }))
            }
        },
    }
}

/// Les modèles gratuits d'OpenRouter tirés d'une réponse : le statut doit être 2xx, puis
/// les identifiants lus (ou l'erreur de lecture) donnent ceux qui contiennent `:free`,
/// triés, sans doublon.
pub fn conclure_modeles_openrouter(statut: u16, corps: &str, lecture: Result<Vec<String>, String>) -> (r: Result<Vec<String>, ErreurIA>)
    ensures
        !succes_http(statut) ==> (r matches Err(e) && est_erreur_statut(e, statut, corps@)),
        succes_http(statut) ==> match lecture {
            Ok(ids) => r matches Ok(g) && est_tri_sans_doublon(
                g@.map_values(|s: String| s@),
                ids_gratuits(ids@.map_values(|s: String| s@)),
            ),
            Err(e) => r matches Err(ErreurIA::Reponse { message: m })
                && m@ == "impossible de parser la réponse JSON: "@ + e@,
        },
{
    if let Err(e) = verifier_statut(statut, corps) {
        return Err(e);
    }
    match lecture {
        Ok(ids) => Ok(modeles_gratuits(ids)),
        Err(e) => Err(erreur_lecture_json(e.as_str())),
    }
}

} // verus!
