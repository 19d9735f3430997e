//! Authentication that provides no authentication.

use vstd::prelude::*;

use crate::error::{Error, ErrorKind};
use crate::url::{parsed_url, Url};

verus! {

/// Authentication type that provides no authentication.
///
/// It always answers with one endpoint, fixed when it is made, and has no
/// credentials to send or to renew.
#[derive(Clone, Debug)]
pub struct NoAuth {
    endpoint: Url,
}

/// What [`NoAuth::from_endpoint`] returns for the outcome `parsed` of
/// parsing an endpoint.
pub open spec fn no_auth_from_parsed(parsed: Result<Url, Error>, result: Result<NoAuth, Error>)
    -> bool {
    match parsed {
        Ok(url) => result matches Ok(auth) && auth.endpoint() == url,
        Err(error) => result == Err::<NoAuth, Error>(error),
    }
}

impl NoAuth {
    /// The endpoint that this authentication answers with.
    pub closed spec fn endpoint(&self) -> Url {
        self.endpoint
    }

    /// Create a new fake authentication method using a fixed endpoint.
    ///
    /// Fails with `InvalidEndpoint` where `endpoint` is not a valid URL.
    pub fn new(endpoint: &str) -> (result: Result<NoAuth, Error>)
        ensures
            match parsed_url(endpoint@) {
                Some(text) => result matches Ok(auth) && auth.endpoint()@ == text,
                None => result matches Err(error) && error@ == (
                    ErrorKind::InvalidEndpoint,
                    "the endpoint is not a valid URL"@,
                ),
            },
    {
        NoAuth::from_endpoint(Url::parse(endpoint))
    }

    /// The authentication or the error that an outcome of parsing an
    /// endpoint stands for.
    pub fn from_endpoint(parsed: Result<Url, Error>) -> (result: Result<NoAuth, Error>)
        ensures
            no_auth_from_parsed(parsed, result),
    {
        match parsed {
            Ok(endpoint) => Ok(NoAuth { endpoint }),
            Err(error) => Err(error),
        }
    }

    /// The fixed endpoint, whatever service and interface are asked for.
    pub fn get_endpoint(&self, service_type: String, endpoint_interface: Option<String>) -> (url:
        &Url)
        ensures
            *url == self.endpoint(),
    {
        &self.endpoint
    }

    /// Region used with this authentication: none.
    pub fn region(&self) -> (region: Option<String>)
        ensures
            region is None,
    {
        None
    }
}

} // verus!
