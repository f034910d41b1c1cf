//! The relying party that passkeys are registered for: its id, its origin
//! and the further origins that may use it, derived from the settings.
use crate::origins::{comma_pieces, split_commas};
use vstd::prelude::*;

verus! {

/// The URL `text` as the `url` crate serialises it after parsing; `None`
/// when `text` is not an absolute URL.
pub uninterp spec fn spec_parse_url(text: Seq<char>) -> Option<Seq<char>>;

/// The host of the URL `text` as the `url` crate reports it; `None` when
/// `text` is not an absolute URL or has no host.
pub uninterp spec fn spec_url_host(text: Seq<char>) -> Option<Seq<char>>;

/// Parses `text` with `url::Url::parse` and returns its serialisation. The
/// contract only names the result; URL syntax is left to the crate.
#[verifier::external_body]
pub(crate) fn parse_url(text: &str) -> (r: Option<String>)
    ensures
        match r {
            Some(u) => spec_parse_url(text@) == Some(u@),
            None => spec_parse_url(text@) is None,
        },
{
    match url::Url::parse(text) {
        Ok(u) => Some(u.as_str().to_string()),
        Err(_) => None,
    }
}

/// Parses `text` with `url::Url::parse` and returns `Url::host_str` of the
/// result. The contract only names the result.
#[verifier::external_body]
fn url_host(text: &str) -> (r: Option<String>)
    ensures
        match r {
            Some(h) => spec_url_host(text@) == Some(h@),
            None => spec_url_host(text@) is None,
        },
{
    match url::Url::parse(text) {
        Ok(u) => match u.host_str() {
            Some(h) => Some(h.to_string()),
            None => None,
        },
        Err(_) => None,
    }
}

/// The texts of a list of strings.
pub open spec fn url_texts(v: Seq<String>) -> Seq<Seq<char>> {
    v.map_values(|s: String| s@)
}

/// The texts of `uris` that parse as URLs, as URLs, in order.
pub open spec fn spec_parsed_urls(uris: Seq<Seq<char>>) -> Seq<Seq<char>> {
    uris.filter_map(|u: Seq<char>| spec_parse_url(u))
}

/// Parses each of `uris`, keeping those that are URLs, in order.
pub fn parsed_urls(uris: &Vec<String>) -> (urls: Vec<String>)
    ensures
        url_texts(urls@) == spec_parsed_urls(url_texts(uris@)),
{
    let ghost us = url_texts(uris@);
    let mut urls: Vec<String> = Vec::new();
    let mut i: usize = 0;
    assert(us.take(0) =~= Seq::<Seq<char>>::empty());
    assert(url_texts(urls@) =~= Seq::<Seq<char>>::empty());
    while i < uris.len()
        invariant
            i <= uris.len(),
            us == url_texts(uris@),
            url_texts(urls@) == spec_parsed_urls(us.take(i as int)),
        decreases uris.len() - i,
    {
        let ghost prev = url_texts(urls@);
        proof {
            reveal(Seq::filter_map);
            assert(us.take(i + 1).drop_last() =~= us.take(i as int));
            assert(us.take(i + 1).last() == uris@[i as int]@);
        }
        match parse_url(uris[i].as_str()) {
            Some(u) => {
                urls.push(u);
                assert(url_texts(urls@) =~= prev.push(u@));
            },
            None => {},
        }
        i += 1;
    }
    assert(us.take(uris.len() as int) =~= us);
    urls
}

/// The further origins allowed to use passkeys: the pieces of the
/// comma-separated setting that parse as URLs, as URLs, in order; the
/// other pieces (an empty one, for instance) are skipped.
pub open spec fn spec_additional_origins(setting: Seq<char>) -> Seq<Seq<char>> {
    spec_parsed_urls(split_commas(setting))
}

/// Reads the further allowed origins from their setting.
pub fn additional_origins(setting: &str) -> (origins: Vec<String>)
    ensures
        url_texts(origins@) == spec_additional_origins(setting@),
{
    let pieces = comma_pieces(setting);
    parsed_urls(&pieces)
}

/// Why the relying party could not be determined.
#[derive(Debug, Clone, Copy, PartialEq, Eq, Structural)]
pub enum RelyingPartyError {
    /// No id was configured and the origin has no host to take it from.
    OriginWithoutHost,
}

/// The id and origin passkeys are registered for.
pub struct RelyingParty {
    pub id: String,
    pub origin: String,
}

/// The origin is the configured one, or else the site's URL; the id is the
/// configured one, or else the origin's host.
pub open spec fn spec_relying_party(
    webauthn_id: Option<Seq<char>>,
    rp_origin: Option<Seq<char>>,
    site_url: Seq<char>,
) -> Result<(Seq<char>, Seq<char>), RelyingPartyError> {
    let origin = match rp_origin {
        Some(o) => o,
        None => site_url,
    };
    match webauthn_id {
        Some(id) => Ok((id, origin)),
        None => match spec_url_host(origin) {
            Some(host) => Ok((host, origin)),
            None => Err(RelyingPartyError::OriginWithoutHost),
        },
    }
}

/// Determines the relying party from the settings; the origins are URLs as
/// the settings hold them.
pub fn relying_party(webauthn_id: Option<String>, rp_origin: Option<String>, site_url: String) -> (r:
    Result<RelyingParty, RelyingPartyError>)
    ensures
        match r {
            Ok(rp) => spec_relying_party(
                match webauthn_id {
                    Some(i) => Some(i@),
                    None => None,
                },
                match rp_origin {
                    Some(o) => Some(o@),
                    None => None,
                },
                site_url@,
            ) == Ok::<(Seq<char>, Seq<char>), RelyingPartyError>((rp.id@, rp.origin@)),
            Err(e) => spec_relying_party(
                match webauthn_id {
                    Some(i) => Some(i@),
                    None => None,
                },
                match rp_origin {
                    Some(o) => Some(o@),
                    None => None,
                },
                site_url@,
            ) == Err::<(Seq<char>, Seq<char>), RelyingPartyError>(e),
        },
{
    let origin = match rp_origin {
        Some(o) => o,
        None => site_url,
    };
    match webauthn_id {
        Some(id) => Ok(RelyingParty { id, origin }),
        None => match url_host(origin.as_str()) {
            Some(host) => Ok(RelyingParty { id: host, origin }),
            None => Err(RelyingPartyError::OriginWithoutHost),
        },
    }
}

/// A configured relying-party id is always the id, whether or not an origin
/// is configured; the origin is the configured one, or else the site's URL;
/// only without a configured id is the id taken from the origin's host.
pub proof fn lemma_relying_party_settings(
    webauthn_id: Option<Seq<char>>,
    rp_origin: Option<Seq<char>>,
    site_url: Seq<char>,
)
    ensures
        webauthn_id matches Some(id) ==> spec_relying_party(webauthn_id, rp_origin, site_url) == Ok::<
            (Seq<char>, Seq<char>),
            RelyingPartyError,
        >((id, rp_origin.unwrap_or(site_url))),
        spec_relying_party(webauthn_id, rp_origin, site_url) matches Ok(p) ==> p.1 == rp_origin.unwrap_or(
            site_url,
        ),
        webauthn_id is None ==> spec_relying_party(webauthn_id, rp_origin, site_url) == match spec_url_host(
            rp_origin.unwrap_or(site_url),
        ) {
            Some(host) => Ok::<(Seq<char>, Seq<char>), RelyingPartyError>(
                (host, rp_origin.unwrap_or(site_url)),
            ),
            None => Err(RelyingPartyError::OriginWithoutHost),
        },
{
}

} // verus!
