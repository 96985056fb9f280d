//! General properties of version selection.

use vstd::prelude::*;
use crate::order::{name_bytes, name_le, sorted_names, lemma_bytes_le_reflexive};
use crate::resolve::{ToolPathModel, ErrorModel, names_view, has_version, resolution};

verus! {

/// The last name of an ascending set comes no earlier than any name of it.
pub proof fn lemma_last_is_greatest(versions: Seq<String>)
    requires
        sorted_names(versions),
        versions.len() > 0,
    ensures
        forall|i: int| 0 <= i < versions.len() ==> name_le(#[trigger] versions[i]@, versions.last()@),
{
    assert forall|i: int| 0 <= i < versions.len() implies name_le(#[trigger] versions[i]@, versions.last()@) by {
        if i == versions.len() - 1 {
            lemma_bytes_le_reflexive(name_bytes(versions[i]@));
        }
    }
}

/// With no version requested, a non-empty ascending version set yields the
/// greatest of its names.
pub proof fn lemma_latest_selected(versions: Seq<String>, architecture: Seq<char>, binary: Seq<char>)
    requires
        sorted_names(versions),
        versions.len() > 0,
    ensures
        resolution(names_view(versions), None, architecture, binary) is Ok,
        resolution(names_view(versions), None, architecture, binary)->Ok_0.version == versions.last()@,
        forall|i: int|
            0 <= i < versions.len() ==> name_le(
                #[trigger] versions[i]@,
                resolution(names_view(versions), None, architecture, binary)->Ok_0.version,
            ),
{
    lemma_last_is_greatest(versions);
}

/// A requested version that is present is selected, wherever it stands in the
/// set.
pub proof fn lemma_requested_selected(
    versions: Seq<String>,
    i: int,
    architecture: Seq<char>,
    binary: Seq<char>,
)
    requires
        0 <= i < versions.len(),
    ensures
        resolution(names_view(versions), Some(versions[i]@), architecture, binary) == Ok::<
            ToolPathModel,
            ErrorModel,
        >(ToolPathModel { version: versions[i]@, architecture, binary }),
{
    assert(names_view(versions)[i] == versions[i]@);
    assert(has_version(names_view(versions), versions[i]@));
}

/// A requested version that is absent from a non-empty ascending set is
/// reported as not found, with the greatest name as the suggestion.
pub proof fn lemma_absent_version_suggests_latest(
    versions: Seq<String>,
    v: Seq<char>,
    architecture: Seq<char>,
    binary: Seq<char>,
)
    requires
        sorted_names(versions),
        versions.len() > 0,
        forall|i: int| 0 <= i < versions.len() ==> #[trigger] versions[i]@ != v,
    ensures
        resolution(names_view(versions), Some(v), architecture, binary) == Err::<
            ToolPathModel,
            ErrorModel,
        >(ErrorModel::BinDirNotFound { desired: v, potential: versions.last()@ }),
        forall|i: int| 0 <= i < versions.len() ==> name_le(#[trigger] versions[i]@, versions.last()@),
{
    lemma_last_is_greatest(versions);
    assert(!has_version(names_view(versions), v)) by {
        if has_version(names_view(versions), v) {
            let j = choose|j: int| 0 <= j < versions.len() && names_view(versions)[j] == v;
            assert(versions[j]@ == v);
        }
    }
    assert(names_view(versions).last() == versions.last()@);
}

/// An empty version set fails with its own error, whether or not a version
/// was requested.
pub proof fn lemma_empty_set_fails(
    requested: Option<Seq<char>>,
    architecture: Seq<char>,
    binary: Seq<char>,
)
    ensures
        resolution(names_view(Seq::empty()), requested, architecture, binary) == Err::<
            ToolPathModel,
            ErrorModel,
        >(ErrorModel::NoVersionsAvailable { desired: requested }),
{
    assert(names_view(Seq::<String>::empty()).len() == 0);
    assert(requested is Some ==> !has_version(names_view(Seq::empty()), requested->Some_0));
}

} // verus!
