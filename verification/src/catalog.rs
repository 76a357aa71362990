//! The catalog side of a migration: where the asset list is fetched from,
//! how the request is authorized, and how a failed listing is classified.
//!
//! The network call itself is made by the surrounding program; a listing
//! failure of any kind aborts the whole run, since no upload may proceed
//! without the full catalog.

use vstd::prelude::*;

verus! {

/// Why listing the catalog failed. Any of these aborts the migration
/// before the first upload.
#[derive(Clone, Copy, Debug, PartialEq, Eq, Structural)]
pub enum CatalogError {
    /// The listing request could not be completed.
    Network,
    /// The source rejected the bearer token.
    Auth,
    /// The response body did not parse as a list of asset records.
    MalformedBody,
}

impl CatalogError {
    /// A short diagnostic label for reporting.
    pub fn label(&self) -> (r: &'static str)
        ensures
            *self is Network ==> r@ == "catalog network failure"@,
            *self is Auth ==> r@ == "catalog authentication failure"@,
            *self is MalformedBody ==> r@ == "catalog response malformed"@,
    {
        match self {
            CatalogError::Network => "catalog network failure",
            CatalogError::Auth => "catalog authentication failure",
            CatalogError::MalformedBody => "catalog response malformed",
        }
    }
}

/// The listing endpoint: the configured base location followed by the
/// catalog path.
pub fn catalog_url(base_url: &str) -> (r: String)
    ensures
        r@ == base_url@ + "/api/upload/files"@,
{
    let mut s = String::from_str(base_url);
    s.append("/api/upload/files");
    s
}

/// The authorization header value carrying the bearer token, used for the
/// listing call and for every per-asset download.
pub fn bearer_header(auth_token: &str) -> (r: String)
    ensures
        r@ == "Bearer "@ + auth_token@,
{
    let mut s = String::from_str("Bearer ");
    s.append(auth_token);
    s
}

} // verus!
