//! What discovery tells of a service.

use vstd::prelude::*;

use crate::error::Error;
use crate::url::{extended_url, extension_fits, segment_texts, url_from_extended, Url};
use crate::version::ApiVersion;

verus! {

/// The result of discovering one service: where its API is rooted and which
/// versions it speaks.
#[derive(Clone, Debug)]
pub struct ServiceInfo {
    /// The root of the service's API.
    pub root_url: Url,
    /// The major version in use, if the service tells.
    pub major_version: Option<ApiVersion>,
    /// The lowest microversion, if the service tells.
    pub minimum_version: Option<ApiVersion>,
    /// The highest microversion, if the service tells.
    pub current_version: Option<ApiVersion>,
}

/// Whether `version` is the best of `candidates` that `info` supports: one of
/// them, supported, and no supported candidate comes after it.
pub open spec fn is_best_supported(
    info: ServiceInfo,
    candidates: Seq<ApiVersion>,
    version: ApiVersion,
) -> bool {
    &&& candidates.contains(version)
    &&& info.supports(version)
    &&& forall|other: ApiVersion| #[trigger]
        candidates.contains(other) && info.supports(other) ==> other.at_most(version)
}

/// What picking from `candidates` gives: the best supported one, or `None`
/// where `info` supports none of them.
pub open spec fn is_pick(info: ServiceInfo, candidates: Seq<ApiVersion>, pick: Option<ApiVersion>)
    -> bool {
    match pick {
        Some(version) => is_best_supported(info, candidates, version),
        None => forall|other: ApiVersion| #[trigger]
            candidates.contains(other) ==> !info.supports(other),
    }
}

impl ServiceInfo {
    /// The range of microversions, where the service tells both of its ends.
    pub open spec fn version_range(self) -> Option<(ApiVersion, ApiVersion)> {
        match (self.minimum_version, self.current_version) {
            (Some(minimum), Some(current)) => Some((minimum, current)),
            _ => None,
        }
    }

    /// Whether the service supports `version`: it lies within the range of
    /// microversions, or the service tells no range.
    pub open spec fn supports(self, version: ApiVersion) -> bool {
        match self.version_range() {
            Some((minimum, current)) => minimum.at_most(version) && version.at_most(current),
            None => true,
        }
    }

    /// Minimum and maximum API (micro)version, or `None` where the range
    /// cannot be determined.
    pub fn get_api_versions(&self) -> (range: Option<(ApiVersion, ApiVersion)>)
        ensures
            range == self.version_range(),
    {
        match (self.minimum_version, self.current_version) {
            (Some(minimum), Some(current)) => Some((minimum, current)),
            _ => None,
        }
    }

    /// The major version in use, if the service tells.
    pub fn get_major_version(&self) -> (version: Option<ApiVersion>)
        ensures
            version == self.major_version,
    {
        self.major_version
    }

    /// The root URL extended by the segments of `path`.
    pub fn get_endpoint(&self, path: &[&str]) -> (result: Result<Url, Error>)
        ensures
            url_from_extended(self.endpoint(segment_texts(path@)), result),
    {
        self.root_url.extend(path)
    }

    /// The text of the root URL extended by `segments`, or `None` where it
    /// cannot be extended by them.
    pub open spec fn endpoint(self, segments: Seq<Seq<char>>) -> Option<Seq<char>> {
        if extension_fits(self.root_url@, segments) {
            extended_url(self.root_url@, segments)
        } else {
            None
        }
    }

    /// Whether the service supports `version`.
    pub fn supports_api_version(&self, version: ApiVersion) -> (supported: bool)
        ensures
            supported == self.supports(version),
    {
        match (self.minimum_version, self.current_version) {
            (Some(minimum), Some(current)) => minimum.is_at_most(&version) && version.is_at_most(
                &current,
            ),
            _ => true,
        }
    }

    /// Pick the highest of `versions` that the service supports, or `None`
    /// where it supports none of them.
    pub fn pick_api_version(&self, versions: &[ApiVersion]) -> (pick: Option<ApiVersion>)
        ensures
            is_pick(*self, versions@, pick),
    {
        let mut best: Option<ApiVersion> = None;
        let mut index: usize = 0;
        while index < versions.len()
            invariant
                index <= versions.len(),
                is_pick(*self, versions@.take(index as int), best),
            decreases versions.len() - index,
        {
            let candidate = versions[index];
            let ghost seen = versions@.take(index as int);
            let ghost next = versions@.take(index as int + 1);
            let ghost previous = best;
            proof {
                assert(next =~= seen.push(candidate));
                assert forall|other: ApiVersion| next.contains(other) implies seen.contains(other)
                    || other == candidate by {
                    let at = choose|at: int| 0 <= at < next.len() && next[at] == other;
                    if at < seen.len() {
                        assert(seen[at] == other);
                    }
                }
                assert(next.contains(candidate)) by {
                    assert(next[index as int] == candidate);
                }
                assert forall|other: ApiVersion| seen.contains(other) implies next.contains(
                    other,
                ) by {
                    let at = choose|at: int| 0 <= at < seen.len() && seen[at] == other;
                    assert(next[at] == other);
                }
            }
            if self.supports_api_version(candidate) {
                let better = match best {
                    Some(current) => current.is_before(&candidate),
                    None => true,
                };
                if better {
                    best = Some(candidate);
                }
            }
            index = index + 1;
        }
        proof {
            assert(versions@.take(index as int) =~= versions@);
        }
        best
    }
}

/// The pick is unique: two picks from the same candidates are equal.
pub proof fn law_pick_is_unique(
    info: ServiceInfo,
    candidates: Seq<ApiVersion>,
    first: Option<ApiVersion>,
    second: Option<ApiVersion>,
)
    requires
        is_pick(info, candidates, first),
        is_pick(info, candidates, second),
    ensures
        first == second,
{
}

/// Nothing is picked from no candidates.
pub proof fn law_pick_of_nothing(info: ServiceInfo, pick: Option<ApiVersion>)
    requires
        is_pick(info, Seq::<ApiVersion>::empty(), pick),
    ensures
        pick is None,
{
}

/// A service that tells no range of microversions tells no versions, and
/// supports every version.
pub proof fn law_no_range_supports_all(info: ServiceInfo, version: ApiVersion)
    requires
        info.minimum_version is None || info.current_version is None,
    ensures
        info.version_range() is None,
        info.supports(version),
{
}

} // verus!
