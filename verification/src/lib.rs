//! Verified core of the Positron backend: the rules that decide who may read
//! and edit a note, which snapshots a retention pass drops, how allowed
//! origins are normalised, how tokens, sessions and cookies are shaped, the
//! sign-in decisions (password, TOTP, passkeys, app login codes with PKCE),
//! e-mail address changes, OAuth policies and clients, the administration
//! commands, and the server's own settings.

pub mod app_login;
pub mod base64_text;
pub mod cli;
pub mod clock;
pub mod config;
pub mod email;
pub mod jwt;
pub mod login;
pub mod notes;
pub mod oauth;
pub mod origins;
pub mod passkey;
pub mod pkce;
pub mod retention;
pub mod session;
pub mod totp;
pub mod webauthn;
