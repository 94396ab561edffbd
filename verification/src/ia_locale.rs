//! Inférence locale : prompt ChatML et décisions sur la fenêtre de contexte.

use vstd::prelude::*;
use crate::ia::{reponse_sans_pensee, supprimer_blocs_pensee};
use crate::texte::{caracteres, chaine_de, debut_de, decimal, ecrire_decimal, etendre, rogne, rogner, tronquer};

verus! {

/// Erreurs de l'inférence locale.
#[derive(Debug)]
pub enum ErreurIaLocale {
    Backend(String),
    Chargement(String),
    Contexte(String),
    Tokenisation(String),
    Decodage(String),
    ContexteTropPetit { n_ctx: i32, n_prompt: i32, n_max_sortie: i32 },
    TokenVersTexte(String),
}

/// Prompt ChatML : système puis utilisateur (rognés), puis l'ouverture de la réponse.
pub open spec fn prompt_chatml(system: Seq<char>, user: Seq<char>) -> Seq<char> {
    "<|im_start|>system\n"@ + rogne(system) + "<|im_end|>\n"@ + "<|im_start|>user\n"@ + rogne(user)
        + "<|im_end|>\n"@ + "<|im_start|>assistant\n"@
}

/// Construit un prompt ChatML (famille Qwen) sans dépendre du gabarit du fichier GGUF.
pub fn construire_prompt_chatml(system: &str, user: &str) -> (r: String)
    ensures
        r@ == prompt_chatml(system@, user@),
{
    let mut p = caracteres("<|im_start|>system\n");
    let cs = caracteres(system);
    let s = rogner(cs.as_slice());
    etendre(&mut p, s.as_slice());
    let a = caracteres("<|im_end|>\n");
    etendre(&mut p, a.as_slice());
    let b = caracteres("<|im_start|>user\n");
    etendre(&mut p, b.as_slice());
    let cu = caracteres(user);
    let u = rogner(cu.as_slice());
    etendre(&mut p, u.as_slice());
    let c = caracteres("<|im_end|>\n");
    etendre(&mut p, c.as_slice());
    let d = caracteres("<|im_start|>assistant\n");
    etendre(&mut p, d.as_slice());
    chaine_de(p.as_slice())
}

/// Fenêtre de contexte utilisée : celle demandée (au moins 512), sans dépasser celle
/// d'entraînement du modèle (au moins 512).
pub open spec fn fenetre_effective(n_ctx_train: u32, n_ctx: u32) -> u32 {
    let plafond = if n_ctx_train >= 512 { n_ctx_train } else { 512 };
    let demande = if n_ctx >= 512 { n_ctx } else { 512 };
    if demande <= plafond { demande } else { plafond }
}

/// La fenêtre de contexte à utiliser pour un modèle et une demande.
pub fn n_ctx_effectif(n_ctx_train: u32, n_ctx: u32) -> (r: u32)
    ensures
        r == fenetre_effective(n_ctx_train, n_ctx),
        r >= 512,
{
    let plafond = if n_ctx_train >= 512 { n_ctx_train } else { 512 };
    let demande = if n_ctx >= 512 { n_ctx } else { 512 };
    if demande <= plafond {
        demande
    } else {
        plafond
    }
}

/// Nombre maximal de jetons générés : celui demandé, au moins 64.
pub fn n_max_sortie(max_tokens_sortie: i32) -> (r: i32)
    ensures
        r == if max_tokens_sortie >= 64 { max_tokens_sortie } else { 64 },
{
    if max_tokens_sortie >= 64 {
        max_tokens_sortie
    } else {
        64
    }
}

/// Le prompt et la sortie demandée tiennent-ils dans la fenêtre ? Sinon, l'erreur qui le dit.
pub fn verifier_fenetre(n_ctx: i32, n_prompt: i32, n_max_sortie: i32) -> (r: Result<(), ErreurIaLocale>)
    ensures
        r is Ok <==> n_prompt + n_max_sortie <= n_ctx,
        match r {
            Err(ErreurIaLocale::ContexteTropPetit { n_ctx: a, n_prompt: b, n_max_sortie: c }) => a == n_ctx && b == n_prompt && c == n_max_sortie,
            Err(_) => false,
            Ok(()) => true,
        },
{
    if (n_prompt as i64) + (n_max_sortie as i64) > (n_ctx as i64) {
        Err(ErreurIaLocale::ContexteTropPetit { n_ctx, n_prompt, n_max_sortie })
    } else {
        Ok(())
    }
}

/// Taille de lot pour `decode` : au moins celle du prompt et 2048, au plus la fenêtre.
pub open spec fn taille_batch(n_prompt: u32, n_ctx: u32) -> u32 {
    let b = if n_prompt >= 2048 { n_prompt } else { 2048 };
    if b <= n_ctx { b } else { n_ctx }
}

/// La taille de lot à donner au contexte.
pub fn n_batch_decode(n_prompt: u32, n_ctx: u32) -> (r: u32)
    ensures
        r == taille_batch(n_prompt, n_ctx),
{
    let b = if n_prompt >= 2048 { n_prompt } else { 2048 };
    if b <= n_ctx {
        b
    } else {
        n_ctx
    }
}

/// Capacité du lot du prompt : le nombre de jetons du prompt, au moins 512.
pub fn taille_lot(n_prompt: i32) -> (r: i32)
    ensures
        r == if n_prompt >= 512 { n_prompt } else { 512 },
{
    if n_prompt >= 512 {
        n_prompt
    } else {
        512
    }
}

/// La génération continue tant qu'il reste des jetons à produire et de la place dans la fenêtre.
pub fn continuer_generation(n_decodes: i32, n_max_sortie: i32, n_curseur: i32, n_ctx_total: i32) -> (r: bool)
    ensures
        r == (n_decodes < n_max_sortie && n_curseur < n_ctx_total),
{
    n_decodes < n_max_sortie && n_curseur < n_ctx_total
}


/// Écriture décimale d'un entier signé (`n.to_string()`).
pub open spec fn entier_signe(n: int) -> Seq<char> {
    if n < 0 {
        seq!['-'] + decimal((-n) as nat)
    } else {
        decimal(n as nat)
    }
}

fn ecrire_i32(n: i32, acc: &mut Vec<char>)
    ensures
        final(acc)@ == old(acc)@ + entier_signe(n as int),
{
    if n < 0 {
        acc.push('-');
        let m: i64 = -(n as i64);
        ecrire_decimal(m as usize, acc);
    } else {
        ecrire_decimal(n as usize, acc);
    }
}

/// Le texte d'une erreur de l'inférence locale.
pub open spec fn texte_erreur_locale(e: ErreurIaLocale) -> Seq<char> {
    match e {
        ErreurIaLocale::Backend(m) => "backend llama.cpp indisponible: "@ + m@,
        ErreurIaLocale::Chargement(m) => "chargement du modèle GGUF échoué: "@ + m@,
        ErreurIaLocale::Contexte(m) => "création du contexte llama.cpp échouée: "@ + m@,
        ErreurIaLocale::Tokenisation(m) => "tokenisation échouée: "@ + m@,
        ErreurIaLocale::Decodage(m) => "appel decode() échoué: "@ + m@,
        ErreurIaLocale::ContexteTropPetit { n_ctx, n_prompt, n_max_sortie } => "la fenêtre de contexte (n_ctx="@
            + entier_signe(n_ctx as int) + ") est trop petite pour le prompt ("@ + entier_signe(n_prompt as int)
            + " tokens) et la sortie demandée ("@ + entier_signe(n_max_sortie as int) + ")."@,
        ErreurIaLocale::TokenVersTexte(m) => "conversion token→texte échouée: "@ + m@,
    }
}

fn prefixe_puis(prefixe: &str, m: &String) -> (r: String)
    ensures
        r@ == prefixe@ + m@,
{
    let mut v = caracteres(prefixe);
    let c = caracteres(m.as_str());
    etendre(&mut v, c.as_slice());
    chaine_de(v.as_slice())
}

impl ErreurIaLocale {
    /// Le texte de l'erreur.
    pub fn message(&self) -> (r: String)
        ensures
            r@ == texte_erreur_locale(*self),
    {
        match self {
            ErreurIaLocale::Backend(m) => prefixe_puis("backend llama.cpp indisponible: ", m),
            ErreurIaLocale::Chargement(m) => prefixe_puis("chargement du modèle GGUF échoué: ", m),
            ErreurIaLocale::Contexte(m) => prefixe_puis("création du contexte llama.cpp échouée: ", m),
            ErreurIaLocale::Tokenisation(m) => prefixe_puis("tokenisation échouée: ", m),
            ErreurIaLocale::Decodage(m) => prefixe_puis("appel decode() échoué: ", m),
            ErreurIaLocale::ContexteTropPetit { n_ctx, n_prompt, n_max_sortie } => {
                let mut v = caracteres("la fenêtre de contexte (n_ctx=");
                ecrire_i32(*n_ctx, &mut v);
                let a = caracteres(") est trop petite pour le prompt (");
                etendre(&mut v, a.as_slice());
                ecrire_i32(*n_prompt, &mut v);
                let b = caracteres(" tokens) et la sortie demandée (");
                etendre(&mut v, b.as_slice());
                ecrire_i32(*n_max_sortie, &mut v);
                let c = caracteres(").");
                etendre(&mut v, c.as_slice());
                chaine_de(v.as_slice())
            },
            ErreurIaLocale::TokenVersTexte(m) => prefixe_puis("conversion token→texte échouée: ", m),
        }
    }
}

/// La réponse gardée d'une génération locale : sans blocs de raisonnement, rognée, puis
/// limitée à `max_caracteres_reponse` caractères.
pub fn reponse_locale(sortie: &str, max_caracteres_reponse: usize) -> (r: String)
    ensures
        r@ == debut_de(reponse_sans_pensee(sortie@), max_caracteres_reponse as nat),
{
    let propre = supprimer_blocs_pensee(sortie);
    tronquer(propre.as_str(), max_caracteres_reponse)
}

/// La génération s'arrête quand la réponse atteint la limite de caractères.
pub fn reponse_complete(sortie: &str, max_caracteres_reponse: usize) -> (r: bool)
    ensures
        r == (sortie@.len() >= max_caracteres_reponse),
{
    let c = caracteres(sortie);
    c.len() >= max_caracteres_reponse
}


/// Quand le prompt et la sortie tiennent dans la fenêtre, le lot de `decode` peut recevoir
/// tout le prompt, et ne dépasse pas la fenêtre.
pub proof fn loi_lot_contient_le_prompt(n_prompt: u32, n_max_sortie: u32, n_ctx: u32)
    requires
        n_prompt + n_max_sortie <= n_ctx,
    ensures
        n_prompt <= taille_batch(n_prompt, n_ctx) <= n_ctx,
{
}

/// La fenêtre utilisée ne dépasse pas celle d'entraînement du modèle (quand elle vaut au
/// moins 512) ni celle demandée (quand elle vaut au moins 512).
pub proof fn loi_fenetre_plafonnee(n_ctx_train: u32, n_ctx: u32)
    ensures
        512 <= fenetre_effective(n_ctx_train, n_ctx),
        n_ctx_train >= 512 ==> fenetre_effective(n_ctx_train, n_ctx) <= n_ctx_train,
        n_ctx >= 512 ==> fenetre_effective(n_ctx_train, n_ctx) <= n_ctx,
{
}

} // verus!
