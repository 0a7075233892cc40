# jsscli

A JSON-first command-line client for JSS / Frappe sites, whose logic is a library
verified with Verus.

- `src/` is the verified library: accounts and their store, settings, the ordered
  string map both are kept in, the session record and its encryption (AES-256-GCM
  under an HKDF-SHA256 key, stored as hex), error reports and exit codes, the JSON
  values the client handles and their compact text, table layouts, and the parsing
  of replies, arguments, filters and report responses (JSON text is parsed by
  `serde_json` behind a trusted wrapper, and turned into the library's values).
- `app/` is the program around it: command-line parsing, files, the keyring, the
  password prompt, the HTTP client of the site, and printing.
- `tests/` exercises the library on concrete values.
