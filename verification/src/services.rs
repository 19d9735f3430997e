//! Service descriptors: what the session needs to know of a service family.

use vstd::prelude::*;
use vstd::string::StringExecFns;

use crate::error::{Error, ErrorKind};
use crate::version::ApiVersion;

verus! {

/// The texts of headers: name and value of each, in order.
pub open spec fn header_texts(headers: Seq<(String, String)>) -> Seq<(Seq<char>, Seq<char>)> {
    headers.map_values(|header: (String, String)| (header.0@, header.1@))
}

/// A service family, as the session sees it.
pub trait ServiceType {
    /// The key of the service in the catalog.
    spec fn catalog_key(&self) -> Seq<char>;

    /// The headers that ask the service for `version`, or `None` where the
    /// service does not speak `version`.
    spec fn version_headers(&self, version: ApiVersion) -> Option<Seq<(Seq<char>, Seq<char>)>>;

    /// The key of the service in the catalog.
    fn catalog_type(&self) -> (name: &'static str)
        ensures
            name@ == self.catalog_key(),
    ;

    /// Add to `headers` those that ask the service for `version`.
    ///
    /// Fails with `IncompatibleApiVersion`, and leaves `headers` as they
    /// were, where the service does not speak `version`.
    fn set_api_version_headers(
        &self,
        headers: &mut Vec<(String, String)>,
        version: ApiVersion,
    ) -> (result: Result<(), Error>)
        ensures
            match self.version_headers(version) {
                Some(added) => result is Ok && header_texts(final(headers)@) == header_texts(
                    old(headers)@,
                ) + added,
                None => result matches Err(error) && error@.0 == ErrorKind::IncompatibleApiVersion
                    && final(headers)@ == old(headers)@,
            },
    ;
}

/// Which versions a [`GenericService`] speaks.
#[derive(Clone, Copy, Debug, PartialEq, Eq, Structural)]
pub enum VersionSelector {
    /// Every version.
    Any,
    /// The versions with this major number.
    Major(u16),
    /// This version alone.
    Exact(ApiVersion),
}

impl VersionSelector {
    /// Whether the selector admits `version`.
    pub open spec fn admits(self, version: ApiVersion) -> bool {
        match self {
            VersionSelector::Any => true,
            VersionSelector::Major(major) => version.0 == major,
            VersionSelector::Exact(exact) => version == exact,
        }
    }

    /// Whether the selector admits `version`.
    pub fn matches(&self, version: ApiVersion) -> (admitted: bool)
        ensures
            admitted == self.admits(version),
    {
        match self {
            VersionSelector::Any => true,
            VersionSelector::Major(major) => version.0 == *major,
            VersionSelector::Exact(exact) => version.0 == exact.0 && version.1 == exact.1,
        }
    }
}

/// A service that asks for a version by the one generic header.
#[derive(Clone, Copy, Debug)]
pub struct GenericService {
    catalog_type: &'static str,
    major_version: VersionSelector,
}

/// The name of the generic version header.
pub open spec fn api_version_header() -> Seq<char> {
    "openstack-api-version"@
}

/// The value of the generic version header: the catalog type, a space, the
/// version.
pub open spec fn api_version_value(catalog_type: Seq<char>, version: ApiVersion) -> Seq<char> {
    catalog_type + seq![' '] + version.text()
}

impl GenericService {
    /// A descriptor of the service `catalog_type` that speaks the versions
    /// that `major_version` admits.
    pub fn new(catalog_type: &'static str, major_version: VersionSelector) -> (service:
        GenericService)
        ensures
            service.catalog_key() == catalog_type@,
            service.selector() == major_version,
    {
        GenericService { catalog_type, major_version }
    }

    /// The versions that the service speaks.
    pub closed spec fn selector(&self) -> VersionSelector {
        self.major_version
    }
}

impl ServiceType for GenericService {
    closed spec fn catalog_key(&self) -> Seq<char> {
        self.catalog_type@
    }

    open spec fn version_headers(&self, version: ApiVersion) -> Option<
        Seq<(Seq<char>, Seq<char>)>,
    > {
        if self.selector().admits(version) {
            Some(seq![(api_version_header(), api_version_value(self.catalog_key(), version))])
        } else {
            None
        }
    }

    fn catalog_type(&self) -> (name: &'static str) {
        self.catalog_type
    }

    fn set_api_version_headers(
        &self,
        headers: &mut Vec<(String, String)>,
        version: ApiVersion,
    ) -> (result: Result<(), Error>) {
        if self.major_version.matches(version) {
            let mut value = self.catalog_type.to_owned();
            proof {
                reveal_strlit(" ");
                assert(" "@ =~= seq![' ']);
            }
            value.append(" ");
            value.append(version.to_string().as_str());
            let ghost before = headers@;
            headers.push(("openstack-api-version".to_owned(), value));
            proof {
                assert(header_texts(headers@) =~= header_texts(before) + seq![
                    (api_version_header(), api_version_value(self.catalog_key(), version)),
                ]);
            }
            Ok(())
        } else {
            Err(
                Error::new(
                    ErrorKind::IncompatibleApiVersion,
                    "the service does not speak this API version".to_owned(),
                ),
            )
        }
    }
}

} // verus!
