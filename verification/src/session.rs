//! The session: one authentication, one cache of discovered services, and
//! the decisions of the request pipeline.
//!
//! A session never waits. A query is answered from the cache, or it comes
//! back as a request to discover the service; the caller runs the discovery
//! and hands its result in, and the next query is answered.

use vstd::prelude::*;

use crate::cache::MapCache;
use crate::error::{Error, ErrorKind};
use crate::protocol::{is_pick, ServiceInfo};
use crate::services::{header_texts, ServiceType};
use crate::url::{segment_texts, url_from_extended, Url};
use crate::version::ApiVersion;

verus! {

/// An HTTP method, as `reqwest` has it. The session hands it on unread.
#[verifier::external_type_specification]
#[verifier::external_body]
pub struct ExMethod(reqwest::Method);

/// The text of an optional string.
pub open spec fn option_text(text: Option<String>) -> Option<Seq<char>> {
    match text {
        Some(text) => Some(text@),
        None => None,
    }
}

/// What a session holds: its authentication, the services it has
/// discovered, by catalog key, and the endpoint interface it asks for.
pub struct SessionModel<A> {
    /// The authentication in use.
    pub auth: A,
    /// The discovered services.
    pub cached: Map<Seq<char>, ServiceInfo>,
    /// The endpoint interface, if one is chosen.
    pub endpoint_interface: Option<Seq<char>>,
}

impl<A> SessionModel<A> {
    /// A session that knows nothing yet and asks for the default interface.
    pub open spec fn fresh(auth: A) -> SessionModel<A> {
        SessionModel { auth, cached: Map::empty(), endpoint_interface: None }
    }

    /// Whether a query for `key` has to discover the service first.
    pub open spec fn needs_discovery(self, key: Seq<char>) -> bool {
        !self.cached.contains_key(key)
    }

    /// What discovery of `key` is asked with: the key and the interface.
    pub open spec fn discovery(self, key: Seq<char>) -> (Seq<char>, Option<Seq<char>>) {
        (key, self.endpoint_interface)
    }

    /// The session once `info` is known of `key`.
    pub open spec fn store(self, key: Seq<char>, info: ServiceInfo) -> SessionModel<A> {
        SessionModel { cached: self.cached.insert(key, info), ..self }
    }

    /// The session with everything discovered forgotten.
    pub open spec fn reset(self) -> SessionModel<A> {
        SessionModel { cached: Map::empty(), ..self }
    }

    /// The session using `auth`, with everything discovered forgotten.
    pub open spec fn with_auth<B>(self, auth: B) -> SessionModel<B> {
        SessionModel { auth, cached: Map::empty(), endpoint_interface: self.endpoint_interface }
    }

    /// The session asking for `endpoint_interface`, with everything
    /// discovered forgotten.
    pub open spec fn with_interface(self, endpoint_interface: Seq<char>) -> SessionModel<A> {
        SessionModel {
            cached: Map::empty(),
            endpoint_interface: Some(endpoint_interface),
            ..self
        }
    }
}

/// What the caller asks the authentication and the discovery for when a
/// service is not cached.
#[derive(Clone, Debug)]
pub struct DiscoveryRequest {
    /// The catalog key of the service.
    pub service_type: String,
    /// The endpoint interface to ask for, if one is chosen.
    pub endpoint_interface: Option<String>,
}

impl View for DiscoveryRequest {
    type V = (Seq<char>, Option<Seq<char>>);

    open spec fn view(&self) -> (Seq<char>, Option<Seq<char>>) {
        (self.service_type@, option_text(self.endpoint_interface))
    }
}

/// The outcome of a query: the answer, or the discovery that must come
/// first.
#[derive(Debug)]
pub enum Lookup<T> {
    /// The service is cached: the answer.
    Ready(T),
    /// The service is not cached: discover it, hand the result to
    /// [`Session::cache_service_info`], and ask again.
    Discover(DiscoveryRequest),
}

impl<T> Lookup<T> {
    /// The answer, if the query was answered.
    pub fn ready(self) -> (answer: Option<T>)
        ensures
            answer == match self {
                Lookup::Ready(value) => Some(value),
                Lookup::Discover(_) => None::<T>,
            },
    {
        match self {
            Lookup::Ready(value) => Some(value),
            Lookup::Discover(_) => None,
        }
    }
}

/// What the authentication is asked to prepare, and the version to stamp on
/// what it prepared.
pub struct RequestPlan {
    /// The method of the request.
    pub method: reqwest::Method,
    /// The URL of the request.
    pub url: Url,
    /// The API version to ask for, if any.
    pub api_version: Option<ApiVersion>,
}

/// The headers that ask `service` for `api_version`: none where no version
/// is asked for; `None` where the service does not speak the version.
pub open spec fn plan_headers<Srv: ServiceType>(service: Srv, api_version: Option<ApiVersion>)
    -> Option<Seq<(Seq<char>, Seq<char>)>> {
    match api_version {
        Some(version) => service.version_headers(version),
        None => Some(Seq::empty()),
    }
}

impl RequestPlan {
    /// The headers to stamp on the prepared request.
    ///
    /// No headers where the plan asks for no version. Fails with
    /// `IncompatibleApiVersion` where `service` does not speak the version
    /// asked for.
    pub fn version_headers<Srv: ServiceType>(&self, service: &Srv) -> (result: Result<
        Vec<(String, String)>,
        Error,
    >)
        ensures
            match plan_headers(*service, self.api_version) {
                Some(headers) => result matches Ok(stamped) && header_texts(stamped@) == headers,
                None => result matches Err(error) && error@.0
                    == ErrorKind::IncompatibleApiVersion,
            },
    {
        let mut headers: Vec<(String, String)> = Vec::new();
        assert(header_texts(headers@) =~= Seq::empty());
        match self.api_version {
            Some(version) => {
                match service.set_api_version_headers(&mut headers, version) {
                    Ok(()) => {
                        proof {
                            let added = service.version_headers(version).unwrap();
                            assert(Seq::<(Seq<char>, Seq<char>)>::empty() + added =~= added);
                        }
                        Ok(headers)
                    },
                    Err(error) => Err(error),
                }
            },
            None => Ok(headers),
        }
    }
}

/// An API session: an authentication, the endpoint interface to ask for, and
/// what discovery has told of each service so far.
#[derive(Debug)]
pub struct Session<A> {
    auth: A,
    cached_info: MapCache<String, ServiceInfo>,
    endpoint_interface: Option<String>,
}

impl<A> View for Session<A> {
    type V = SessionModel<A>;

    closed spec fn view(&self) -> SessionModel<A> {
        SessionModel {
            auth: self.auth,
            cached: self.cached_info@,
            endpoint_interface: option_text(self.endpoint_interface),
        }
    }
}

impl<A> Session<A> {
    /// Create a new session with a given authentication.
    ///
    /// The session knows no service yet and uses the default endpoint
    /// interface.
    pub fn new(auth_type: A) -> (session: Session<A>)
        ensures
            session@ == SessionModel::fresh(auth_type),
    {
        Session { auth: auth_type, cached_info: MapCache::default(), endpoint_interface: None }
    }

    /// Get a reference to the authentication in use.
    pub fn auth_type(&self) -> (auth: &A)
        ensures
            *auth == self@.auth,
    {
        &self.auth
    }

    /// Endpoint interface in use (if any): the one that discovery is asked
    /// with.
    pub fn endpoint_interface(&self) -> (endpoint_interface: &Option<String>)
        ensures
            option_text(*endpoint_interface) == self@.endpoint_interface,
    {
        &self.endpoint_interface
    }

    /// Purge the cached endpoint information. Renewing the authentication
    /// itself is the caller's next step.
    pub fn refresh(&mut self)
        ensures
            final(self)@ == old(self)@.reset(),
    {
        self.reset_cache();
    }

    /// Reset the internal cache.
    fn reset_cache(&mut self)
        ensures
            final(self)@ == old(self)@.reset(),
    {
        self.cached_info = MapCache::default();
    }

    /// Set a new authentication for this `Session`.
    ///
    /// This call clears the cached service information.
    pub fn set_auth_type(&mut self, auth_type: A)
        ensures
            final(self)@ == old(self)@.with_auth(auth_type),
    {
        self.reset_cache();
        self.auth = auth_type;
    }

    /// Set endpoint interface to use.
    ///
    /// This call clears the cached service information.
    pub fn set_endpoint_interface(&mut self, endpoint_interface: String)
        ensures
            final(self)@ == old(self)@.with_interface(endpoint_interface@),
    {
        self.reset_cache();
        self.endpoint_interface = Some(endpoint_interface);
    }

    /// Convert this session into one using the given authentication, with
    /// the cached service information cleared.
    pub fn with_auth_type<B>(self, auth_method: B) -> (session: Session<B>)
        ensures
            session@ == self@.with_auth(auth_method),
    {
        Session {
            auth: auth_method,
            cached_info: MapCache::default(),
            endpoint_interface: self.endpoint_interface,
        }
    }

    /// Convert this session into one using the given endpoint interface,
    /// with the cached service information cleared.
    pub fn with_endpoint_interface(self, endpoint_interface: String) -> (session: Session<A>)
        ensures
            session@ == self@.with_interface(endpoint_interface@),
    {
        let mut session = self;
        session.set_endpoint_interface(endpoint_interface);
        session
    }

    /// What discovery of `service` is asked with.
    fn discovery_request<Srv: ServiceType>(&self, service: &Srv) -> (request: DiscoveryRequest)
        ensures
            request@ == self@.discovery(service.catalog_key()),
    {
        let endpoint_interface = match &self.endpoint_interface {
            Some(name) => Some(name.clone()),
            None => None,
        };
        DiscoveryRequest { service_type: service.catalog_type().to_owned(), endpoint_interface }
    }

    /// Extract from what is cached of `service`: what `filter` makes of it;
    /// or, where the service is not cached, the discovery to run.
    pub fn extract_service_info<Srv, F, T>(&self, service: &Srv, filter: F) -> (step: Lookup<
        T,
    >) where Srv: ServiceType, F: FnOnce(&ServiceInfo) -> T
        requires
            !self@.needs_discovery(service.catalog_key()) ==> call_requires(
                filter,
                (&self@.cached[service.catalog_key()],),
            ),
        ensures
            match step {
                Lookup::Ready(value) => !self@.needs_discovery(service.catalog_key())
                    && call_ensures(filter, (&self@.cached[service.catalog_key()],), value),
                Lookup::Discover(request) => self@.needs_discovery(service.catalog_key())
                    && request@ == self@.discovery(service.catalog_key()),
            },
    {
        let key = service.catalog_type().to_owned();
        match self.cached_info.extract(&key, filter) {
            Some(value) => Lookup::Ready(value),
            None => Lookup::Discover(self.discovery_request(service)),
        }
    }

    /// Take in what discovery told of `service`: extract from it what
    /// `filter` makes of it, then cache it under the service's catalog key.
    pub fn complete_discovery<Srv, F, T>(&mut self, service: &Srv, info: ServiceInfo, filter: F)
        -> (value: T) where Srv: ServiceType, F: FnOnce(&ServiceInfo) -> T
        requires
            call_requires(filter, (&info,)),
        ensures
            call_ensures(filter, (&info,), value),
            final(self)@ == old(self)@.store(service.catalog_key(), info),
    {
        let value = filter(&info);
        self.cache_service_info(service, info);
        value
    }

    /// Cache what discovery told of `service`, in place of what was cached
    /// of it before, if anything.
    pub fn cache_service_info<Srv: ServiceType>(&mut self, service: &Srv, info: ServiceInfo)
        ensures
            final(self)@ == old(self)@.store(service.catalog_key(), info),
    {
        self.cached_info.set(service.catalog_type().to_owned(), info);
    }

    /// Get minimum/maximum API (micro)version information.
    ///
    /// The answer is `None` if the range cannot be determined, which usually
    /// means that microversioning is not supported.
    pub fn get_api_versions<Srv: ServiceType>(&self, service: &Srv) -> (step: Lookup<
        Option<(ApiVersion, ApiVersion)>,
    >)
        ensures
            match step {
                Lookup::Ready(range) => !self@.needs_discovery(service.catalog_key()) && range
                    == self@.cached[service.catalog_key()].version_range(),
                Lookup::Discover(request) => self@.needs_discovery(service.catalog_key())
                    && request@ == self@.discovery(service.catalog_key()),
            },
    {
        let filter = |info: &ServiceInfo| -> (range: Option<(ApiVersion, ApiVersion)>)
            ensures
                range == info.version_range(),
            { info.get_api_versions() };
        self.extract_service_info(service, filter)
    }

    /// Construct an endpoint for the given service from the path.
    pub fn get_endpoint<Srv: ServiceType>(&self, service: &Srv, path: &[&str]) -> (step: Lookup<
        Result<Url, Error>,
    >)
        ensures
            match step {
                Lookup::Ready(result) => !self@.needs_discovery(service.catalog_key())
                    && url_from_extended(
                    self@.cached[service.catalog_key()].endpoint(segment_texts(path@)),
                    result,
                ),
                Lookup::Discover(request) => self@.needs_discovery(service.catalog_key())
                    && request@ == self@.discovery(service.catalog_key()),
            },
    {
        let filter = |info: &ServiceInfo| -> (result: Result<Url, Error>)
            ensures
                url_from_extended(info.endpoint(segment_texts(path@)), result),
            { info.get_endpoint(path) };
        self.extract_service_info(service, filter)
    }

    /// Get the currently used major version from the given service.
    ///
    /// The answer is `None` if the service does not support API version
    /// discovery at all.
    pub fn get_major_version<Srv: ServiceType>(&self, service: &Srv) -> (step: Lookup<
        Option<ApiVersion>,
    >)
        ensures
            match step {
                Lookup::Ready(version) => !self@.needs_discovery(service.catalog_key())
                    && version == self@.cached[service.catalog_key()].major_version,
                Lookup::Discover(request) => self@.needs_discovery(service.catalog_key())
                    && request@ == self@.discovery(service.catalog_key()),
            },
    {
        let filter = |info: &ServiceInfo| -> (version: Option<ApiVersion>)
            ensures
                version == info.major_version,
            { info.get_major_version() };
        self.extract_service_info(service, filter)
    }

    /// Pick the highest API version supported by the service.
    ///
    /// With no versions to pick from the answer is `None` at once, whatever
    /// is cached. Otherwise the answer is `None` if none of the requested
    /// versions are available.
    pub fn pick_api_version<Srv: ServiceType>(&self, service: &Srv, versions: &[ApiVersion]) -> (step:
        Lookup<Option<ApiVersion>>)
        ensures
            match step {
                Lookup::Ready(pick) => if versions@.len() == 0 {
                    pick is None
                } else {
                    !self@.needs_discovery(service.catalog_key()) && is_pick(
                        self@.cached[service.catalog_key()],
                        versions@,
                        pick,
                    )
                },
                Lookup::Discover(request) => versions@.len() > 0 && self@.needs_discovery(
                    service.catalog_key(),
                ) && request@ == self@.discovery(service.catalog_key()),
            },
    {
        if versions.len() == 0 {
            Lookup::Ready(None)
        } else {
            let filter = |info: &ServiceInfo| -> (pick: Option<ApiVersion>)
                ensures
                    is_pick(*info, versions@, pick),
                { info.pick_api_version(versions) };
            self.extract_service_info(service, filter)
        }
    }

    /// Check if the service supports the API version.
    pub fn supports_api_version<Srv: ServiceType>(&self, service: &Srv, version: ApiVersion) -> (step:
        Lookup<bool>)
        ensures
            match step {
                Lookup::Ready(supported) => !self@.needs_discovery(service.catalog_key())
                    && supported == self@.cached[service.catalog_key()].supports(version),
                Lookup::Discover(request) => self@.needs_discovery(service.catalog_key())
                    && request@ == self@.discovery(service.catalog_key()),
            },
    {
        let filter = |info: &ServiceInfo| -> (supported: bool)
            ensures
                supported == info.supports(version),
            { info.supports_api_version(version) };
        self.extract_service_info(service, filter)
    }

    /// Plan an HTTP request to the given service.
    ///
    /// The plan holds the method, the endpoint of the service extended by
    /// `path`, and the version asked for. The authentication prepares a
    /// request for the plan's method and URL; the headers of
    /// [`RequestPlan::version_headers`] go on what it prepared.
    pub fn request<Srv: ServiceType>(
        &self,
        service: &Srv,
        method: reqwest::Method,
        path: &[&str],
        api_version: Option<ApiVersion>,
    ) -> (step: Lookup<Result<RequestPlan, Error>>)
        ensures
            match step {
                Lookup::Ready(result) => !self@.needs_discovery(service.catalog_key())
                    && planned_for(
                    self@.cached[service.catalog_key()].endpoint(segment_texts(path@)),
                    method,
                    api_version,
                    result,
                ),
                Lookup::Discover(request) => self@.needs_discovery(service.catalog_key())
                    && request@ == self@.discovery(service.catalog_key()),
            },
    {
        match self.get_endpoint(service, path) {
            Lookup::Ready(endpoint) => Lookup::Ready(plan_request(endpoint, method, api_version)),
            Lookup::Discover(request) => Lookup::Discover(request),
        }
    }
}

/// What [`Session::request`] answers where the endpoint of the request has
/// the text `endpoint`, or cannot be made.
pub open spec fn planned_for(
    endpoint: Option<Seq<char>>,
    method: reqwest::Method,
    api_version: Option<ApiVersion>,
    result: Result<RequestPlan, Error>,
) -> bool {
    match endpoint {
        Some(text) => result matches Ok(plan) && plan.method == method && plan.url@ == text
            && plan.api_version == api_version,
        None => result matches Err(error) && error@ == (
            ErrorKind::InvalidEndpoint,
            "the endpoint cannot be extended by a path"@,
        ),
    }
}

/// What [`plan_request`] returns for the endpoint resolved for a request.
pub open spec fn planned(
    endpoint: Result<Url, Error>,
    method: reqwest::Method,
    api_version: Option<ApiVersion>,
    result: Result<RequestPlan, Error>,
) -> bool {
    match endpoint {
        Ok(url) => result matches Ok(plan) && plan.method == method && plan.url == url
            && plan.api_version == api_version,
        Err(error) => result == Err::<RequestPlan, Error>(error),
    }
}

/// The plan of a request to the endpoint that was resolved for it, or the
/// error of resolving it.
pub fn plan_request(
    endpoint: Result<Url, Error>,
    method: reqwest::Method,
    api_version: Option<ApiVersion>,
) -> (result: Result<RequestPlan, Error>)
    ensures
        planned(endpoint, method, api_version, result),
{
    match endpoint {
        Ok(url) => Ok(RequestPlan { method, url, api_version }),
        Err(error) => Err(error),
    }
}

/// Once a service is cached, queries for it are answered without discovery,
/// and storing it does not touch what is known of other services, nor the
/// authentication, nor the interface.
pub proof fn law_cached_service_needs_no_discovery<A>(
    session: SessionModel<A>,
    key: Seq<char>,
    info: ServiceInfo,
    other: Seq<char>,
)
    ensures
        !session.store(key, info).needs_discovery(key),
        session.store(key, info).cached[key] == info,
        other != key ==> session.store(key, info).needs_discovery(other)
            == session.needs_discovery(other),
        other != key && !session.needs_discovery(other) ==> session.store(key, info).cached[other]
            == session.cached[other],
        !session.needs_discovery(key) ==> !session.store(other, info).needs_discovery(key),
        session.store(key, info).auth == session.auth,
        session.store(key, info).discovery(other) == session.discovery(other),
{
}

/// After the cache is reset, or the authentication or the endpoint interface
/// replaced, every service has to be discovered afresh, whatever was cached
/// before; and discovery is asked with the interface then in use.
pub proof fn law_detached_session_discovers_afresh<A, B>(
    session: SessionModel<A>,
    auth: B,
    endpoint_interface: Seq<char>,
    key: Seq<char>,
)
    ensures
        session.reset().needs_discovery(key),
        session.reset().discovery(key) == session.discovery(key),
        session.with_auth(auth).needs_discovery(key),
        session.with_auth(auth).discovery(key) == session.discovery(key),
        session.with_auth(auth).auth == auth,
        session.with_interface(endpoint_interface).needs_discovery(key),
        session.with_interface(endpoint_interface).discovery(key) == (
            key,
            Some(endpoint_interface),
        ),
        session.with_interface(endpoint_interface).auth == session.auth,
        SessionModel::fresh(auth).needs_discovery(key),
        SessionModel::fresh(auth).discovery(key) == (key, None::<Seq<char>>),
{
}

} // verus!
