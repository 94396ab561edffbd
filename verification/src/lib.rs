//! Logique vérifiée de Resume YouTube : chaînes enregistrées, transcripts,
//! messages pour le modèle, sorties et décisions autour de yt-dlp.

pub mod texte;
pub mod transcript;
pub mod json;
pub mod chaines;
pub mod config;
pub mod resume;
pub mod youtube;
pub mod sous_titres;
pub mod ia;
pub mod tri;
pub mod donnees;
pub mod commandes;
pub mod ia_locale;
pub mod ytdlp;
