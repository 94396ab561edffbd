//! Format de sortie et paramètres de connexion au modèle.

use vstd::prelude::*;

verus! {

/// Format de sortie demandé par l'utilisateur.
#[derive(Debug, Clone, Copy, PartialEq, Eq, Structural)]
pub enum FormatSortie {
    /// Carte mentale (en Markdown).
    CarteMentale,
}

impl FormatSortie {
    /// Extension du fichier de sortie.
    pub fn ext_fichier(self) -> (r: &'static str)
        ensures
            r@ == "md"@,
    {
        match self {
            FormatSortie::CarteMentale => "md",
        }
    }

    /// Nom du format, tel que l'utilisent les fichiers et les échanges avec l'interface.
    pub fn nom_pour_prompt(self) -> (r: &'static str)
        ensures
            r@ == "carte_mentale"@,
    {
        match self {
            FormatSortie::CarteMentale => "carte_mentale",
        }
    }
}

} // verus!
