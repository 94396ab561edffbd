# resume_youtube

Récupère le transcript de vidéos YouTube (via `yt-dlp`) et le fait résumer en carte
mentale par un modèle (LM Studio, OpenRouter, ou un modèle GGUF local).

- `src/` : la bibliothèque vérifiée par Verus. Chaînes enregistrées (`chaines`),
  lecture des sous-titres WebVTT / SRT / JSON3 (`transcript`, `sous_titres`), vidéos et
  listes renvoyées par yt-dlp (`youtube`, `ytdlp`), messages et réponses du modèle
  (`resume`, `ia`, `ia_locale`), dossiers de données (`donnees`) et décisions des
  commandes de l'application (`commandes`). Les échanges qui alternent travail extérieur
  et décision (liste des vidéos d'une chaîne, informations d'une vidéo, reprises après
  un refus « trop de requêtes », appel de chat, liste des modèles, résumé d'une vidéo,
  d'une chaîne ou d'un texte collé, extraction des transcripts d'une chaîne, test complet)
  y sont des machines à états : l'appelant exécute la demande et rend le résultat.
- `app/` : le programme en ligne de commande et tout ce qui touche au système (processus
  yt-dlp, fichiers, HTTP, llama.cpp, lecture JSON par serde).
- `tests/` : les tests de la bibliothèque.

L'interface de bureau (Tauri) ne fait pas partie de ce dépôt : ses commandes prennent leurs
décisions dans `src/commandes` et `src/donnees` ; `app/commandes_io.rs` en reprend la
partie fichiers et `app/taches_io.rs` exécute ses tâches longues (résumés, extraction,
test complet, téléchargement du modèle local) sous forme de fonctions ordinaires.
