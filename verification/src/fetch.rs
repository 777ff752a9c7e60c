//! The verified edge of series acquisition: configuration checking and
//! request-URL construction. The transport itself — one GET per session
//! lifetime — is the unverified caller's concern.

use vstd::prelude::*;
use vstd::string::*;
use crate::errors::ConfigError;

verus! {

/// The startup configuration the fetcher needs: the provider's base URL and
/// the credential token. Absence of either is fatal at startup.
#[derive(Debug)]
pub struct FetchConfig {
    pub base_url: String,
    pub token: String,
}

/// Checks the configuration supplied at process start; fails with the exact
/// missing piece, base URL first.
pub fn load_config(base_url: Option<String>, token: Option<String>) -> (r: Result<
    FetchConfig,
    ConfigError,
>)
    ensures
        r is Ok <==> (base_url is Some && token is Some),
        base_url is None ==> r == Err::<FetchConfig, ConfigError>(ConfigError::MissingBaseUrl),
        (base_url is Some && token is None) ==> r == Err::<FetchConfig, ConfigError>(
            ConfigError::MissingToken,
        ),
        r matches Ok(c) ==> c.base_url@ == base_url->0@ && c.token@ == token->0@,
{
    match base_url {
        None => Err(ConfigError::MissingBaseUrl),
        Some(base_url) => match token {
            None => Err(ConfigError::MissingToken),
            Some(token) => Ok(FetchConfig { base_url, token }),
        },
    }
}

/// Builds the one request URL of a session: the full historical series for
/// `country`, sorted by date descending, under the configured credential.
pub fn build_url(cfg: &FetchConfig, country: &str) -> (url: String)
    ensures
        url@ == cfg.base_url@ + "inflation?country="@ + country@
            + "&historical=true&sortBy=date&sortOrder=desc&token="@ + cfg.token@,
{
    let mut url = cfg.base_url.clone();
    url.append("inflation?country=");
    url.append(country);
    url.append("&historical=true&sortBy=date&sortOrder=desc&token=");
    url.append(cfg.token.as_str());
    url
}

} // verus!
