# forum_saver

Saves forum threads (Discuz, NGA, V2EX) for offline reading: every page of a
thread with the images, style sheets, scripts and fonts it uses, rewritten to
point at the local copies.

- `src/` is the library, written in Verus and verified: thread-address
  grammars and page numbering of each forum, the NGA settings-script rewrite,
  the order in which pages are saved, which assets are fetched and how links
  and `url(...)` references are rewritten, the configuration and the
  messages.  Pages are read and edited as HTML text through the document
  tree (`src/html.rs`, over `kuchiki`); what each forum reads from a page
  and how it rewrites it is in `src/forums/pages.rs`, the localising of a
  page's assets in `src/document.rs`.  `src/laws.rs` and `src/schedule.rs` hold the properties that
  relate several functions (addresses and file names read back, pages saved
  once, forums found by domain, ...).
- `app/` is the command-line program around it: configuration files, HTTP
  and the file system.  It reads the message catalogues from
  `resources/i18n/<language tag>.ftl` and the script that saved NGA pages
  load from `resources/js/nga_patch.js`, where those files exist; without a
  catalogue, messages are shown by their keys.
- `tests/` runs the library on concrete inputs.
