# Publo

Publo is a local-first publishing pipeline: Markdown notes become posts on
LinkedIn, X and Substack Notes, through publish commands, scheduled jobs run by
a worker, and a small catalog GUI.

## Layout

- `src/` is the verified library, written in Verus. Every public function
  states what it returns in its `ensures`, over spec functions and views, and
  laws that span several functions stand as public proof functions
  (`lemma_*`). The main modules:
  - `note`, `publish`, `media`, `preflight`: the note contract (publish text
    after the last `---` line, embeds removed), platform text and media rules,
    and the checks a post passes before it is scheduled or published;
  - `jobs`, `schedule`, `clock`, `badges`, `catalog`: the job lifecycle and its
    moves, the scheduling decisions, stored times, and what the catalog shows;
  - `guard`: hashes, the post fingerprint and the duplicate-publish check;
  - `publishing`, `platforms`, `requests`, `oauth`, `auth`, `substack`,
    `link_preview`: request payloads, provider answers and errors, logins and
    token refreshes;
  - `config`, `setup`, `commands`, `errors`: configuration layering, workspace
    files, command checks, and the error contract with its exit codes.
- Calls into outside crates (`url`, `sha2`, `base64`, `urlencoding`, `chrono`,
  `rand`, `uuid`, `scraper`, `serde_json`) and into `std::path` go through
  small trusted wrappers marked `#[verifier::external_body]`; each one's doc
  comment says what its contract claims of the outside function.
- `tests/` runs the library on concrete values.
- `app/` is the command-line program around the library: argument parsing,
  files, the SQLite job database, HTTP calls, the local OAuth callback server
  and the GUI server. It hands the library plain values and acts on what comes
  back.
