//! Locating developer tools inside a versioned kit installation tree.
//!
//! The kit locator keeps the version directories found under `10/bin` and
//! sorts them by name; the resolver picks one (the requested version, or the
//! most recent) and composes `<version>/<architecture>/<binary>`; a last step
//! decides, from whether that path exists, between success, a tolerated
//! missing tool and failure. Reading the disk is left to the caller.

mod binary;
mod kits;
mod laws;
mod order;
mod resolve;

pub use binary::{KnownBinary, binary_name, value_name, opt_view};
pub use kits::{
    DirEntry, get_kit_bin_dirs, is_reserved, is_reserved_name, is_version_entry, kept_names,
    lemma_kept_names_members,
};
pub use laws::{
    lemma_last_is_greatest, lemma_latest_selected, lemma_requested_selected,
    lemma_absent_version_suggests_latest, lemma_empty_set_fails,
};
pub use order::{
    bytes_le, name_bytes, name_le, sorted_names, lemma_bytes_le_total, lemma_bytes_le_transitive,
    lemma_bytes_le_reflexive, compare_names,
};
pub use resolve::{
    ToolPath, ToolPathModel, OurError, ErrorModel, Outcome, result_view, names_view, has_version, resolution,
    resolve, default_architecture, architecture_or_default, plan_tool_path, check_tool,
};
