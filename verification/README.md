# OpenWiki core

The logic of the OpenWiki capture and knowledge-base app, as a library verified with Verus.

- `src/` — the library. Each module states what its functions return in `requires` /
  `ensures` contracts over spec functions, and proves them. Calls into outside crates
  (regex, serde_json, base64, chrono, dirs) go through small trusted wrappers whose contracts
  say what the crate documents or name the result as a function of the arguments.
- `tests/` — tests of the library on concrete inputs.
- `app/` — a command-line front end: network reads with reqwest, running yt-dlp, the
  workspace on disk, and the floating-point geometry of the bubble window.

Modules of the library, roughly in the order the app uses them:

| module | what it decides |
| --- | --- |
| `detector`, `fragments`, `bubble` | which captures are kept, saved or confirmed, and where the bubble goes |
| `reader`, `page_reads`, `api_replies`, `html_text`, `youtube`, `translation`, `patterns` | what a read of a link yields |
| `workspace`, `preferences` | paths and Markdown of the workspace, default folders |
| `metadata`, `compile_steps`, `page_ranking`, `query_terms`, `wiki_engine`, `wiki_batch` | compiling captures into wiki pages |
| `qa`, `local_wiki`, `local_sync` | questions to the wiki, and syncing a local Markdown wiki |
| `attention` | the attention radar: settings, sampling, batches, heatmap |
| `migrations`, `whats_new` | database migrations at startup, the update announcement |
