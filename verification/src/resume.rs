//! Messages envoyés au modèle et validation de sa réponse.

use vstd::prelude::*;
use crate::config::FormatSortie;
use crate::texte::{
    caracteres, chaine_de, est_blanc_spec, etendre, lemme_rogne, que_des_blancs, rogne, rogner,
};

verus! {

/// Sortie typée d'un résumé.
#[derive(Debug, Clone)]
pub enum SortieResume {
    CarteMentaleMarkdown(String),
}

/// Sortie du modèle refusée.
#[derive(Debug)]
pub enum ErreurSortieResume {
    Invalide { format: FormatSortie, message: String },
}

/// Le bloc de titre : `"Titre de la vidéo: <titre rogné>\n"` si le titre n'est pas blanc.
pub open spec fn bloc_titre(titre: Option<Seq<char>>) -> Seq<char> {
    match titre {
        Some(t) if rogne(t).len() > 0 => "Titre de la vidéo: "@ + rogne(t) + "\n"@,
        _ => seq![],
    }
}

/// Consigne pour une vidéo.
pub open spec fn consigne_video(transcript: Seq<char>, titre: Option<Seq<char>>) -> Seq<char> {
    "Réalise une carte mentale de cette vidéo :\n\n"@ + bloc_titre(titre) + "Transcript :\n---\n"@
        + rogne(transcript) + "\n---"@
}

/// Consigne pour un texte libre.
pub open spec fn consigne_texte_libre(texte: Seq<char>) -> Seq<char> {
    "Réalise une carte mentale (Markdown) à partir du texte suivant :\n\n---\n"@ + rogne(texte)
        + "\n---"@
}

/// Construit les messages (système, utilisateur) pour l'IA : pas de rôle système,
/// une seule consigne.
pub fn construire_messages_resume(
    transcript: &str,
    titre_video: Option<&str>,
    _format: FormatSortie,
) -> (r: (String, String))
    ensures
        r.0@ == Seq::<char>::empty(),
        r.1@ == consigne_video(
            transcript@,
            match titre_video {
                Some(t) => Some(t@),
                None => None,
            },
        ),
{
    let system = String::new();
    let mut user = caracteres("Réalise une carte mentale de cette vidéo :\n\n");
    let ghost titre = match titre_video {
        Some(t) => Some(t@),
        None => None::<Seq<char>>,
    };
    match titre_video {
        Some(t) => {
            let ct = caracteres(t);
            let tr = rogner(ct.as_slice());
            if tr.len() > 0 {
                let debut = caracteres("Titre de la vidéo: ");
                etendre(&mut user, debut.as_slice());
                etendre(&mut user, tr.as_slice());
                let fin = caracteres("\n");
                etendre(&mut user, fin.as_slice());
            }
        },
        None => {},
    }
    assert(user@ =~= "Réalise une carte mentale de cette vidéo :\n\n"@ + bloc_titre(titre));
    let milieu = caracteres("Transcript :\n---\n");
    etendre(&mut user, milieu.as_slice());
    let ctr = caracteres(transcript);
    let t = rogner(ctr.as_slice());
    etendre(&mut user, t.as_slice());
    let fin = caracteres("\n---");
    etendre(&mut user, fin.as_slice());
    (system, chaine_de(user.as_slice()))
}

/// Messages pour un texte collé (pas de vidéo YouTube).
pub fn construire_messages_resume_texte_libre(texte: &str, _format: FormatSortie) -> (r: (
    String,
    String,
))
    ensures
        r.0@ == Seq::<char>::empty(),
        r.1@ == consigne_texte_libre(texte@),
{
    let system = String::new();
    let mut user = caracteres(
        "Réalise une carte mentale (Markdown) à partir du texte suivant :\n\n---\n",
    );
    let ct = caracteres(texte);
    let t = rogner(ct.as_slice());
    etendre(&mut user, t.as_slice());
    let fin = caracteres("\n---");
    etendre(&mut user, fin.as_slice());
    (system, chaine_de(user.as_slice()))
}

/// `str::replace("\r\n", "\n")` : chaque `\r\n` pris de gauche à droite devient `\n`.
pub open spec fn remplace_crlf(s: Seq<char>) -> Seq<char>
    decreases s.len(),
{
    if s.len() == 0 {
        s
    } else if s.len() >= 2 && s[0] == '\r' && s[1] == '\n' {
        seq!['\n'] + remplace_crlf(s.skip(2))
    } else {
        seq![s[0]] + remplace_crlf(s.skip(1))
    }
}

/// Texte rogné, fins de ligne `\r\n` normalisées en `\n`.
pub open spec fn nettoye(s: Seq<char>) -> Seq<char> {
    remplace_crlf(rogne(s))
}

fn remplacer_crlf(s: &[char]) -> (r: Vec<char>)
    ensures
        r@ == remplace_crlf(s@),
{
    let n = s.len();
    let mut r: Vec<char> = Vec::new();
    let mut i: usize = 0;
    assert(s@.skip(0) =~= s@);
    while i < n
        invariant
            i <= n,
            n == s@.len(),
            remplace_crlf(s@) == r@ + remplace_crlf(s@.skip(i as int)),
        decreases n - i,
    {
        let ghost t = s@.skip(i as int);
        if i + 1 < n && s[i] == '\r' && s[i + 1] == '\n' {
            assert(t[0] == s@[i as int] && t[1] == s@[i + 1]);
            assert(t.skip(2) =~= s@.skip(i + 2));
            r.push('\n');
            i = i + 2;
        } else {
            assert(t[0] == s@[i as int]);
            proof {
                if t.len() >= 2 {
                    assert(t[1] == s@[i + 1]);
                }
            }
            assert(t.skip(1) =~= s@.skip(i + 1));
            r.push(s[i]);
            i = i + 1;
        }
    }
    assert(s@.skip(n as int) =~= Seq::<char>::empty());
    assert(r@ + Seq::<char>::empty() =~= r@);
    r
}

/// Le premier caractère est gardé par le remplacement s'il n'est pas `\r`.
proof fn lemme_remplace_premier(s: Seq<char>)
    requires
        s.len() > 0,
        s[0] != '\r',
    ensures
        remplace_crlf(s).len() > 0,
        remplace_crlf(s)[0] == s[0],
{
}

/// Une sortie est refusée exactement quand elle est blanche.
proof fn lemme_nettoye_vide(s: Seq<char>)
    ensures
        (rogne(nettoye(s)).len() == 0) <==> (rogne(s).len() == 0),
{
    lemme_rogne(s);
    let t = rogne(s);
    if t.len() > 0 {
        lemme_remplace_premier(t);
        lemme_rogne(nettoye(s));
        if rogne(nettoye(s)).len() == 0 {
            assert(que_des_blancs(nettoye(s)));
            assert(est_blanc_spec(nettoye(s)[0]));
        }
    } else {
        assert(nettoye(s) =~= Seq::<char>::empty());
        lemme_rogne(nettoye(s));
    }
}

/// Transforme la sortie brute de l'IA en sortie typée : refusée si blanche.
pub fn parser_sortie_ia_vers_sortie(format: FormatSortie, contenu_ia: &str) -> (r: Result<
    SortieResume,
    ErreurSortieResume,
>)
    ensures
        r is Err <==> rogne(contenu_ia@).len() == 0,
        match r {
            Ok(SortieResume::CarteMentaleMarkdown(t)) => t@ == nettoye(contenu_ia@),
            Err(ErreurSortieResume::Invalide { format: f, message }) => f == format && message@
                == "sortie vide"@,
        },
{
    let cs = caracteres(contenu_ia);
    let t = rogner(cs.as_slice());
    let contenu = remplacer_crlf(t.as_slice());
    let verif = rogner(contenu.as_slice());
    proof {
        lemme_nettoye_vide(contenu_ia@);
    }
    match format {
        FormatSortie::CarteMentale => {
            if verif.len() == 0 {
                return Err(
                    ErreurSortieResume::Invalide { format, message: "sortie vide".to_owned() },
                );
            }
            Ok(SortieResume::CarteMentaleMarkdown(chaine_de(contenu.as_slice())))
        },
    }
}

/// La version texte d'une sortie typée.
pub fn formatter_sortie_resume_sortie(format: FormatSortie, sortie: SortieResume) -> (r: String)
    ensures
        match sortie {
            SortieResume::CarteMentaleMarkdown(t) => r == t,
        },
{
    match (format, sortie) {
        (FormatSortie::CarteMentale, SortieResume::CarteMentaleMarkdown(t)) => t,
    }
}

/// Une réponse non blanche, validée puis remise en texte, donne la réponse rognée aux fins
/// de ligne normalisées ; une réponse blanche est refusée.
pub proof fn loi_sortie_aller_retour(contenu: Seq<char>)
    ensures
        rogne(contenu).len() > 0 ==> rogne(nettoye(contenu)).len() > 0,
        rogne(contenu).len() == 0 ==> rogne(nettoye(contenu)).len() == 0,
{
    lemme_nettoye_vide(contenu);
}


/// Le texte d'une sortie refusée : le format (nom de sa variante) et le message.
pub open spec fn texte_erreur_sortie(e: ErreurSortieResume) -> Seq<char> {
    match e {
        ErreurSortieResume::Invalide { format, message } => "sortie IA invalide pour le format "@ + match format {
            FormatSortie::CarteMentale => "CarteMentale"@,
        } + ": "@ + message@,
    }
}

impl ErreurSortieResume {
    /// Le texte de l'erreur.
    pub fn message(&self) -> (r: String)
        ensures
            r@ == texte_erreur_sortie(*self),
    {
        match self {
            ErreurSortieResume::Invalide { format, message } => {
                let mut v = caracteres("sortie IA invalide pour le format ");
                let f = match format {
                    FormatSortie::CarteMentale => caracteres("CarteMentale"),
                };
                etendre(&mut v, f.as_slice());
                let a = caracteres(": ");
                etendre(&mut v, a.as_slice());
                let m = caracteres(message.as_str());
                etendre(&mut v, m.as_slice());
                chaine_de(v.as_slice())
            },
        }
    }
}

} // verus!
