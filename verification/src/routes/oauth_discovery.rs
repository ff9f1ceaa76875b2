//! `GET /.well-known/cosmon-oauth-clients`: the document of the client ids.

use vstd::prelude::*;
use crate::error;
use crate::error::ApiError;
use crate::oauth_discovery;
use crate::oauth_discovery::{ClientRegistry, DiscoveryError};

verus! {

/// What the answer says of caching: the next request must see a change.
pub const DISCOVERY_CACHE_CONTROL: &'static str = "no-store";

/// The document to answer with, or the refusal: none is configured, or what is
/// there cannot be vouched for.
pub fn get_oauth_clients(loaded: Result<Option<ClientRegistry>, DiscoveryError>) -> (r: Result<ClientRegistry, ApiError>)
    ensures
        match loaded {
            Ok(Some(doc)) => r == Ok::<_, ApiError>(doc),
            Ok(None) => r matches Err(e) && error::says(e, 404, "discovery_unconfigured"@) && e.request_id is None,
            Err(_) => r matches Err(e) && error::says(e, 500, "discovery_error"@) && e.request_id is None,
        },
{
    match loaded {
        Ok(Some(doc)) => Ok(doc),
        Ok(None) => Err(ApiError::with_status(404, "discovery_unconfigured")),
        Err(_) => Err(ApiError::with_status(500, "discovery_error")),
    }
}

} // verus!
