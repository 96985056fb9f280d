//! Discovery of the version directories under a kit's `10/bin` directory.

use vstd::prelude::*;
use vstd::seq_lib::group_to_multiset_ensures;
use crate::order::{name_le, name_bytes, sorted_names, compare_names, lemma_bytes_le_total, lemma_bytes_le_transitive};

verus! {

#[derive(Clone, Debug, PartialEq)]
/// One entry found directly under the `10/bin` directory.
pub struct DirEntry {
    /// The entry's leaf name.
    pub name: String,
    /// Whether the entry is a directory.
    pub is_dir: bool,
}

/// Names of the architecture directories that share the `10/bin` level with the
/// version directories.
pub open spec fn is_reserved_name(n: Seq<char>) -> bool {
    n == "arm"@ || n == "arm64"@ || n == "x64"@ || n == "x86"@
}

/// Whether an entry names a version directory.
pub open spec fn is_version_entry(e: DirEntry) -> bool {
    e.is_dir && !is_reserved_name(e.name@)
}

/// The names of the version directories among `entries`, in the order found.
pub open spec fn kept_names(entries: Seq<DirEntry>) -> Seq<String>
    decreases entries.len(),
{
    if entries.len() == 0 {
        Seq::empty()
    } else {
        let prev = kept_names(entries.drop_last());
        if is_version_entry(entries.last()) {
            prev.push(entries.last().name)
        } else {
            prev
        }
    }
}

/// Whether `name` is one of the architecture directory names.
pub fn is_reserved(name: &String) -> (r: bool)
    ensures
        r == is_reserved_name(name@),
{
    let arm = "arm".to_owned();
    let arm64 = "arm64".to_owned();
    let x64 = "x64".to_owned();
    let x86 = "x86".to_owned();
    name.eq(&arm) || name.eq(&arm64) || name.eq(&x64) || name.eq(&x86)
}

/// Keeps the entries that are version directories and returns their names in
/// ascending byte order.
pub fn get_kit_bin_dirs(entries: &Vec<DirEntry>) -> (r: Vec<String>)
    ensures
        sorted_names(r@),
        r@.to_multiset() == kept_names(entries@).to_multiset(),
        forall|k: int| 0 <= k < r@.len() ==> !is_reserved_name(#[trigger] r@[k]@),
        forall|i: int|
            0 <= i < entries@.len() && is_version_entry(#[trigger] entries@[i])
                ==> r@.contains(entries@[i].name),
{
    broadcast use group_to_multiset_ensures;

    let mut out: Vec<String> = Vec::new();
    let mut i: usize = 0;
    while i < entries.len()
        invariant
            0 <= i <= entries@.len(),
            sorted_names(out@),
            out@.to_multiset() == kept_names(entries@.subrange(0, i as int)).to_multiset(),
        decreases entries@.len() - i,
    {
        proof {
            assert(entries@.subrange(0, i + 1).drop_last() =~= entries@.subrange(0, i as int));
        }
        let e = &entries[i];
        let ghost done = kept_names(entries@.subrange(0, i as int));
        proof {
            let next = entries@.subrange(0, i + 1);
            assert(next.last() == entries@[i as int]);
            if is_version_entry(entries@[i as int]) {
                assert(kept_names(next) == done.push(entries@[i as int].name));
            } else {
                assert(kept_names(next) == done);
            }
        }
        if e.is_dir && !is_reserved(&e.name) {
            let x = e.name.clone();
            let mut k: usize = 0;
            while k < out.len() && compare_names(&out[k], &x)
                invariant
                    0 <= k <= out@.len(),
                    x == e.name,
                    sorted_names(out@),
                    forall|j: int| 0 <= j < k ==> name_le(#[trigger] out@[j]@, x@),
                decreases out@.len() - k,
            {
                k = k + 1;
            }
            proof {
                if k < out@.len() {
                    lemma_bytes_le_total(
                        name_bytes(out@[k as int]@),
                        name_bytes(x@),
                    );
                    assert forall|j: int| k <= j < out@.len() implies name_le(x@, #[trigger] out@[j]@) by {
                        if j > k {
                            lemma_bytes_le_transitive(
                                name_bytes(x@),
                                name_bytes(out@[k as int]@),
                                name_bytes(out@[j]@),
                            );
                        }
                    }
                }
            }
            let ghost before = out@;
            out.insert(k, x);
            proof {
                assert(out@ =~= before.insert(k as int, x));
                vstd::seq_lib::to_multiset_insert(before, k as int, x);
                vstd::seq_lib::to_multiset_build(done, x);
                assert forall|a: int, b: int| 0 <= a < b < out@.len() implies name_le(
                    #[trigger] out@[a]@,
                    #[trigger] out@[b]@,
                ) by {
                    if b < k {
                    } else if a < k && b == k {
                    } else if a < k {
                        lemma_bytes_le_transitive(
                            name_bytes(before[a]@),
                            name_bytes(x@),
                            name_bytes(before[b - 1]@),
                        );
                    } else if a == k {
                    } else {
                        assert(out@[a] == before[a - 1]);
                    }
                }
            }
        }
        i = i + 1;
    }
    proof {
        assert(entries@.subrange(0, i as int) =~= entries@);
        lemma_kept_names_members(entries@);
        assert forall|k: int| 0 <= k < out@.len() implies !is_reserved_name(#[trigger] out@[k]@) by {
            assert(out@.to_multiset().count(out@[k]) > 0);
        }
        assert forall|j: int|
            0 <= j < entries@.len() && is_version_entry(#[trigger] entries@[j])
                implies out@.contains(entries@[j].name) by {
            assert(kept_names(entries@).to_multiset().count(entries@[j].name) > 0);
        }
    }
    out
}

/// A name is kept exactly when some version-directory entry carries it.
pub proof fn lemma_kept_names_members(entries: Seq<DirEntry>)
    ensures
        forall|s: String|
            kept_names(entries).contains(s) <==> exists|i: int|
                0 <= i < entries.len() && is_version_entry(#[trigger] entries[i]) && entries[i].name
                    == s,
    decreases entries.len(),
{
    if entries.len() > 0 {
        let prev = entries.drop_last();
        lemma_kept_names_members(prev);
        if is_version_entry(entries.last()) {
            assert(kept_names(entries) == kept_names(prev).push(entries.last().name));
        } else {
            assert(kept_names(entries) == kept_names(prev));
        }
        assert forall|s: String|
            kept_names(entries).contains(s) <==> exists|i: int|
                0 <= i < entries.len() && is_version_entry(#[trigger] entries[i]) && entries[i].name
                    == s by {
            if kept_names(entries).contains(s) {
                if kept_names(prev).contains(s) {
                    let i = choose|i: int|
                        0 <= i < prev.len() && is_version_entry(#[trigger] prev[i]) && prev[i].name
                            == s;
                    assert(entries[i] == prev[i]);
                } else {
                    let w = choose|w: int| 0 <= w < kept_names(entries).len() && kept_names(entries)[w] == s;
                    if is_version_entry(entries.last()) {
                        if w < kept_names(prev).len() {
                            assert(kept_names(prev)[w] == s);
                        }
                    }
                    assert(is_version_entry(entries[entries.len() - 1]));
                }
            }
            if exists|i: int|
                0 <= i < entries.len() && is_version_entry(#[trigger] entries[i]) && entries[i].name
                    == s {
                let i = choose|i: int|
                    0 <= i < entries.len() && is_version_entry(#[trigger] entries[i]) && entries[i].name
                        == s;
                if i < entries.len() - 1 {
                    assert(prev[i] == entries[i]);
                    assert(is_version_entry(prev[i]) && prev[i].name == s);
                    assert(kept_names(prev).contains(s));
                    let w = choose|w: int| 0 <= w < kept_names(prev).len() && kept_names(prev)[w] == s;
                    if is_version_entry(entries.last()) {
                        assert(kept_names(entries)[w] == s);
                    }
                } else {
                    assert(kept_names(entries).last() == s);
                }
            }
        }
    }
}

} // verus!
