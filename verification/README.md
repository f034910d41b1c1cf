# positron

The verified core of the Positron backend, written in Verus.

- `src/` holds the rules of the server as verified functions with contracts
  over mathematical models: note access and ownership transfer
  (`notes`), snapshot retention (`retention`), allowed origins
  (`origins`), tokens, cookies and sessions (`jwt`, `session`, `clock`),
  sign-in decisions (`login`, `totp`, `passkey`, `webauthn`, `pkce`,
  `app_login`), e-mail changes (`email`), OAuth policies and clients
  (`oauth`), the administration commands (`cli`), the server's own
  settings (`config`) and the base64 text of bytes (`base64_text`). Laws that span several functions are public proof
  functions next to them.
- Calls into `sha2`, `base64`, `uuid`, `chrono`, `rand`, `url` and
  `dashmap` go through small trusted wrappers whose contracts state what
  those crates document.
- `tests/` runs the library on concrete values.
- `app/` is a small program that reads the settings from the environment,
  checks them with the library and prints them, plus the JSON forms of the
  library's values.
