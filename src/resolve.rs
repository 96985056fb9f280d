//! Choosing a version directory and composing the path of a tool inside it.

use vstd::prelude::*;
use crate::binary::{KnownBinary, binary_name, opt_view};

verus! {

#[derive(Clone, Debug, PartialEq)]
/// A tool path relative to the kit's `10/bin` directory:
/// `<version>/<architecture>/<binary>`.
pub struct ToolPath {
    pub version: String,
    pub architecture: String,
    pub binary: String,
}

/// The segments of a tool path, as character sequences.
pub struct ToolPathModel {
    pub version: Seq<char>,
    pub architecture: Seq<char>,
    pub binary: Seq<char>,
}

impl View for ToolPath {
    type V = ToolPathModel;

    open spec fn view(&self) -> ToolPathModel {
        ToolPathModel { version: self.version@, architecture: self.architecture@, binary: self.binary@ }
    }
}

/// The ways in which locating a tool can fail.
#[derive(Clone, Debug, PartialEq)]
#[allow(inconsistent_fields)]
pub enum OurError {
    /// The requested version has no directory; `potential` is the most recent one.
    BinDirNotFound { desired: String, potential: String },
    /// There is no version directory at all; `desired` is the version that was
    /// asked for, if any.
    NoVersionsAvailable { desired: Option<String> },
    /// The composed path does not exist and a missing tool is not tolerated.
    ToolNotFound(ToolPath),
    /// The installation root could not be determined.
    KitDirUnknown,
    /// The version-listing directory could not be read.
    LookupFailed(String),
}

/// Failures, with strings as character sequences.
#[allow(inconsistent_fields)]
pub enum ErrorModel {
    BinDirNotFound { desired: Seq<char>, potential: Seq<char> },
    NoVersionsAvailable { desired: Option<Seq<char>> },
    ToolNotFound(ToolPathModel),
    KitDirUnknown,
    LookupFailed(Seq<char>),
}

impl View for OurError {
    type V = ErrorModel;

    open spec fn view(&self) -> ErrorModel {
        match self {
            OurError::BinDirNotFound { desired, potential } => ErrorModel::BinDirNotFound {
                desired: desired@,
                potential: potential@,
            },
            OurError::NoVersionsAvailable { desired } => ErrorModel::NoVersionsAvailable {
                desired: opt_view(*desired),
            },
            OurError::ToolNotFound(p) => ErrorModel::ToolNotFound(p@),
            OurError::KitDirUnknown => ErrorModel::KitDirUnknown,
            OurError::LookupFailed(s) => ErrorModel::LookupFailed(s@),
        }
    }
}

/// The view of a result that carries a tool path or an error.
pub open spec fn result_view(r: Result<ToolPath, OurError>) -> Result<ToolPathModel, ErrorModel> {
    match r {
        Ok(p) => Ok(p@),
        Err(e) => Err(e@),
    }
}

/// The names of a version directory set, as character sequences.
pub open spec fn names_view(s: Seq<String>) -> Seq<Seq<char>> {
    s.map_values(|x: String| x@)
}

/// Whether `v` is the name of one of the version directories.
pub open spec fn has_version(versions: Seq<Seq<char>>, v: Seq<char>) -> bool {
    exists|i: int| 0 <= i < versions.len() && versions[i] == v
}

/// The outcome of choosing a version directory and composing the tool path:
/// the requested version when present, the last (most recent) one when none is
/// requested.
pub open spec fn resolution(
    versions: Seq<Seq<char>>,
    requested: Option<Seq<char>>,
    architecture: Seq<char>,
    binary: Seq<char>,
) -> Result<ToolPathModel, ErrorModel> {
    match requested {
        None => if versions.len() == 0 {
            Err(ErrorModel::NoVersionsAvailable { desired: None })
        } else {
            Ok(ToolPathModel { version: versions.last(), architecture, binary })
        },
        Some(v) => if has_version(versions, v) {
            Ok(ToolPathModel { version: v, architecture, binary })
        } else if versions.len() == 0 {
            Err(ErrorModel::NoVersionsAvailable { desired: Some(v) })
        } else {
            Err(ErrorModel::BinDirNotFound { desired: v, potential: versions.last() })
        },
    }
}

/// Selects the version directory among `versions` (ascending) and composes
/// `<version>/<architecture>/<binary>`.
pub fn resolve(
    versions: &Vec<String>,
    requested_version: Option<String>,
    architecture: String,
    binary: String,
) -> (r: Result<ToolPath, OurError>)
    ensures
        result_view(r) == resolution(
            names_view(versions@),
            opt_view(requested_version),
            architecture@,
            binary@,
        ),
{
    let n = versions.len();
    match requested_version {
        None => {
            if n == 0 {
                Err(OurError::NoVersionsAvailable { desired: None })
            } else {
                let version = versions[n - 1].clone();
                Ok(ToolPath { version, architecture, binary })
            }
        },
        Some(v) => {
            let mut i: usize = 0;
            while i < n
                invariant
                    n == versions@.len(),
                    requested_version == Some(v),
                    0 <= i <= n,
                    forall|j: int| 0 <= j < i ==> versions@[j]@ != v@,
                decreases n - i,
            {
                if versions[i].eq(&v) {
                    proof {
                        assert(names_view(versions@)[i as int] == v@);
                        assert(has_version(names_view(versions@), v@));
                    }
                    return Ok(ToolPath { version: v, architecture, binary });
                }
                i = i + 1;
            }
            proof {
                assert(!has_version(names_view(versions@), v@)) by {
                    if has_version(names_view(versions@), v@) {
                        let j = choose|j: int|
                            0 <= j < n && names_view(versions@)[j] == v@;
                        assert(versions@[j]@ == v@);
                    }
                }
            }
            if n == 0 {
                Err(OurError::NoVersionsAvailable { desired: Some(v) })
            } else {
                let potential = versions[n - 1].clone();
                Err(OurError::BinDirNotFound { desired: v, potential })
            }
        },
    }
}

/// The architecture used when none is given.
pub open spec fn default_architecture(a: Option<Seq<char>>) -> Seq<char> {
    match a {
        Some(s) => s,
        None => "x64"@,
    }
}

/// The given architecture, or `x64` when none is given.
pub fn architecture_or_default(architecture: Option<String>) -> (r: String)
    ensures
        r@ == default_architecture(opt_view(architecture)),
{
    match architecture {
        Some(a) => a,
        None => "x64".to_owned(),
    }
}

/// Composes the path of `binary` from a request: the explicit kit version if
/// any, the architecture (by default `x64`) and the binary's file name.
pub fn plan_tool_path(
    versions: &Vec<String>,
    kit_version: Option<String>,
    architecture: Option<String>,
    binary: &KnownBinary,
) -> (r: Result<ToolPath, OurError>)
    ensures
        result_view(r) == resolution(
            names_view(versions@),
            opt_view(kit_version),
            default_architecture(opt_view(architecture)),
            binary_name(*binary),
        ),
{
    let arch = architecture_or_default(architecture);
    resolve(versions, kit_version, arch, binary.get_subdir())
}

/// How a lookup ended when it did not fail.
#[derive(Clone, Debug, PartialEq)]
pub enum Outcome {
    /// The tool exists at the path.
    Found(ToolPath),
    /// The tool is missing, which was tolerated: a warning is due.
    MissingAllowed(ToolPath),
}

/// The final decision on a composed path, given whether it exists on disk and
/// whether a missing tool is tolerated.
pub fn check_tool(path: ToolPath, exists: bool, allow_missing: bool) -> (r: Result<Outcome, OurError>)
    ensures
        exists ==> r == Ok::<Outcome, OurError>(Outcome::Found(path)),
        !exists && allow_missing ==> r == Ok::<Outcome, OurError>(Outcome::MissingAllowed(path)),
        !exists && !allow_missing ==> r == Err::<Outcome, OurError>(OurError::ToolNotFound(path)),
{
    if exists {
        Ok(Outcome::Found(path))
    } else if allow_missing {
        Ok(Outcome::MissingAllowed(path))
    } else {
        Err(OurError::ToolNotFound(path))
    }
}

} // verus!
