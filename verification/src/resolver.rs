//! Which registered version applies to a request.
//!
//! A request names its major version in the path (`v7`) and may name a minor
//! and a patch version in two headers. A request that names a patch version
//! above the default asks for exactly that version. Every other request gets
//! the latest registered patch of its major and minor version.

use vstd::prelude::*;
use vstd::string::StringSliceAdditionalSpecFns;
use crate::decimal::{decimal_u16, parse_u16, parse_u16_in};
use crate::registry::{
    latest_patch, lemma_latest_patch_exists, lemma_latest_patch_registered, SchemaRegistry,
};
use crate::version::SemVer;
use crate::ves::{
    failed_schema_validation, failed_schema_validation_view, invalid_api_version,
    invalid_api_version_view, VesError, VesErrorView,
};

verus! {

/// The header that names the minor version of a request.
pub const HEADER_MINOR_VERSION: &'static str = "X-MinorVersion";

/// The header that names the patch version of a request.
pub const HEADER_PATCH_VERSION: &'static str = "X-PatchVersion";

/// The minor version of a request that names none.
pub const DEFAULT_MINOR_VERSION: u16 = 0;

/// The patch version of a request that names none.
pub const DEFAULT_PATCH_VERSION: u16 = 1;

/// The byte `v`, with which the version in the path begins.
pub const VERSION_PREFIX: u8 = 118;

/// The values of the two version headers of a request, as they were sent;
/// `None` for a header that the request does not have.
pub struct VersionHeaders {
    pub minor_version: Option<Vec<u8>>,
    pub patch_version: Option<Vec<u8>>,
}

/// What a [`VersionHeaders`] holds.
pub struct VersionHeadersView {
    pub minor_version: Option<Seq<u8>>,
    pub patch_version: Option<Seq<u8>>,
}

/// The bytes of a header value, if the header is there.
pub open spec fn header_bytes(value: Option<Vec<u8>>) -> Option<Seq<u8>> {
    match value {
        Some(bytes) => Some(bytes@),
        None => None,
    }
}

impl View for VersionHeaders {
    type V = VersionHeadersView;

    open spec fn view(&self) -> VersionHeadersView {
        VersionHeadersView {
            minor_version: header_bytes(self.minor_version),
            patch_version: header_bytes(self.patch_version),
        }
    }
}

impl VersionHeaders {
    /// The headers of a request that names neither a minor nor a patch
    /// version.
    pub fn new() -> (headers: VersionHeaders)
        ensures
            headers@ == (VersionHeadersView { minor_version: None, patch_version: None }),
    {
        VersionHeaders { minor_version: None, patch_version: None }
    }
}

/// Why a request is rejected.
#[derive(Debug, Clone, Copy, PartialEq, Eq, Structural)]
pub enum VersionError {
    /// The request names no version, or one that is not supported.
    InvalidApiVersion,
    /// The schema of the version does not accept the body.
    SchemaValidationFailed,
}

impl VersionError {
    /// The error that is reported to the sender of the request.
    pub open spec fn report(self) -> VesErrorView {
        match self {
            VersionError::InvalidApiVersion => invalid_api_version_view(),
            VersionError::SchemaValidationFailed => failed_schema_validation_view(),
        }
    }

    /// The error that is reported to the sender of the request.
    pub fn to_ves_error(self) -> (e: VesError)
        ensures
            e@ == self.report(),
    {
        match self {
            VersionError::InvalidApiVersion => invalid_api_version(),
            VersionError::SchemaValidationFailed => failed_schema_validation(),
        }
    }
}

/// The registered version that applies to a request.
#[derive(Debug, Clone, Copy, PartialEq, Eq, Structural)]
pub enum Resolution {
    /// The request names a patch version above the default, and exactly that
    /// version is registered. The body is passed on without validation.
    Exact(SemVer),
    /// The request leaves the patch version open: the registered version with
    /// the greatest patch number applies, and its schema validates the body.
    Latest(SemVer),
}

/// The major version that the path segment `version` names: the number after
/// the leading `v`.
pub open spec fn requested_major(version: Seq<u8>) -> Option<u16> {
    if version.len() > 0 && version[0] == VERSION_PREFIX {
        decimal_u16(version.skip(1))
    } else {
        None
    }
}

/// The number that a version header names; `default` where the header is not
/// there, and `None` where its value is no number.
pub open spec fn header_number(value: Option<Seq<u8>>, default: u16) -> Option<u16> {
    match value {
        Some(text) => decimal_u16(text),
        None => Some(default),
    }
}

/// The version that applies to a request with the path segment `version` and
/// the headers `headers`, where `versions` are registered.
pub open spec fn resolution(
    version: Seq<u8>,
    headers: VersionHeadersView,
    versions: Set<SemVer>,
) -> Result<Resolution, VersionError> {
    match (
        requested_major(version),
        header_number(headers.minor_version, DEFAULT_MINOR_VERSION),
        header_number(headers.patch_version, DEFAULT_PATCH_VERSION),
    ) {
        (Some(major), Some(minor), Some(patch)) => {
            if patch > DEFAULT_PATCH_VERSION {
                if versions.contains(SemVer { major, minor, patch }) {
                    Ok(Resolution::Exact(SemVer { major, minor, patch }))
                } else {
                    Err(VersionError::InvalidApiVersion)
                }
            } else {
                match latest_patch(versions, major, minor) {
                    Some(latest) => Ok(Resolution::Latest(SemVer { major, minor, patch: latest })),
                    None => Err(VersionError::InvalidApiVersion),
                }
            }
        },
        _ => Err(VersionError::InvalidApiVersion),
    }
}

/// Reads the number that a version header names.
fn read_header(value: &Option<Vec<u8>>, default: u16) -> (r: Option<u16>)
    ensures
        r == header_number(header_bytes(*value), default),
{
    match value {
        Some(bytes) => parse_u16(bytes.as_slice()),
        None => Some(default),
    }
}

/// Selects the registered version that applies to a request.
pub fn resolve(version: &str, headers: &VersionHeaders, registry: &SchemaRegistry) -> (r: Result<
    Resolution,
    VersionError,
>)
    ensures
        r == resolution(version.spec_bytes(), headers@, registry@.dom()),
{
    let path: &[u8] = version.as_bytes();
    if path.len() == 0 || path[0] != VERSION_PREFIX {
        return Err(VersionError::InvalidApiVersion);
    }
    assert(path@.skip(1) =~= path@.subrange(1, path@.len() as int));
    let major: u16 = match parse_u16_in(path, 1, path.len()) {
        Some(major) => major,
        None => {
            return Err(VersionError::InvalidApiVersion);
        },
    };
    let minor: u16 = match read_header(&headers.minor_version, DEFAULT_MINOR_VERSION) {
        Some(minor) => minor,
        None => {
            return Err(VersionError::InvalidApiVersion);
        },
    };
    let patch: u16 = match read_header(&headers.patch_version, DEFAULT_PATCH_VERSION) {
        Some(patch) => patch,
        None => {
            return Err(VersionError::InvalidApiVersion);
        },
    };
    if patch > DEFAULT_PATCH_VERSION {
        let exact = SemVer { major, minor, patch };
        if registry.contains(&exact) {
            Ok(Resolution::Exact(exact))
        } else {
            Err(VersionError::InvalidApiVersion)
        }
    } else {
        match registry.latest_patch(major, minor) {
            Some(latest) => Ok(Resolution::Latest(SemVer { major, minor, patch: latest })),
            None => Err(VersionError::InvalidApiVersion),
        }
    }
}

/// A request that leaves the patch version open is held against the greatest
/// registered patch of its major and minor version: where versions of that
/// line are registered, one of them applies, and none of them has a greater
/// patch number.
pub proof fn lemma_latest_patch_applies(
    version: Seq<u8>,
    headers: VersionHeadersView,
    versions: Set<SemVer>,
    registered: SemVer,
)
    requires
        header_number(headers.patch_version, DEFAULT_PATCH_VERSION) matches Some(patch) && patch
            <= DEFAULT_PATCH_VERSION,
        requested_major(version) == Some(registered.major),
        header_number(headers.minor_version, DEFAULT_MINOR_VERSION) == Some(registered.minor),
        versions.contains(registered),
    ensures
        resolution(version, headers, versions) matches Ok(Resolution::Latest(latest))
            && versions.contains(latest) && latest.major == registered.major && latest.minor
            == registered.minor && latest.patch >= registered.patch,
{
    lemma_latest_patch_exists(
        versions,
        registered.major,
        registered.minor,
        registered.patch,
    );
    lemma_latest_patch_registered(versions, registered.major, registered.minor);
}

} // verus!
