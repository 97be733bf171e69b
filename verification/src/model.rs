//! The ghost model the contracts are stated over.
//!
//! A cache store is modelled as a map from digest strings to object content,
//! and a source tree as a map from tree-relative paths to file content. One
//! manifest entry is a `DepModel`. `build_one` / `restore_one` say what
//! processing a single dependency does to those maps, and `build_all` /
//! `restore_all` fold that over a whole manifest in order.

use crate::digest::hash_of;
use vstd::prelude::*;

verus! {

/// One manifest entry, at the ghost level: a tree-relative path and the
/// digest the file's content is expected to have.
pub struct DepModel {
    pub name: Seq<char>,
    pub expected_hash: Seq<char>,
}

/// What reading path `name` out of a source tree yields: the content, or
/// nothing when the file is absent.
pub open spec fn file_read(tree: Map<Seq<char>, Seq<u8>>, name: Seq<char>) -> Option<Seq<u8>> {
    if tree.dom().contains(name) {
        Some(tree[name])
    } else {
        None
    }
}

/// The cache store's invariant: every object's content hashes to the digest
/// it is stored under.
pub open spec fn cache_wf(cache: Map<Seq<char>, Seq<u8>>) -> bool {
    forall|d: Seq<char>| #[trigger] cache.dom().contains(d) ==> hash_of(cache[d]) == d
}

/// A read result that calls for a restore: the file is absent, or its
/// content does not hash to the expected digest.
pub open spec fn stale(read: Option<Seq<u8>>, expected: Seq<char>) -> bool {
    match read {
        Some(bytes) => hash_of(bytes) != expected,
        None => true,
    }
}

/// Whether the tree's copy of `name` needs replacing from the cache.
pub open spec fn needs_restore_spec(
    source: Map<Seq<char>, Seq<u8>>,
    name: Seq<char>,
    expected: Seq<char>,
) -> bool {
    stale(file_read(source, name), expected)
}

/// The effect of building one dependency on the cache: when no object for
/// `expected` exists yet and the source file is present with matching
/// content, the content is stored under `expected`; otherwise nothing
/// changes. (An unreadable source file and a hash mismatch are both
/// per-dependency no-ops for the cache.)
pub open spec fn build_one(
    cache: Map<Seq<char>, Seq<u8>>,
    source: Map<Seq<char>, Seq<u8>>,
    name: Seq<char>,
    expected: Seq<char>,
) -> Map<Seq<char>, Seq<u8>> {
    if cache.dom().contains(expected) {
        cache
    } else if source.dom().contains(name) && hash_of(source[name]) == expected {
        cache.insert(expected, source[name])
    } else {
        cache
    }
}

/// Building one dependency changes nothing exactly under this condition.
pub open spec fn build_noop(
    cache: Map<Seq<char>, Seq<u8>>,
    source: Map<Seq<char>, Seq<u8>>,
    name: Seq<char>,
    expected: Seq<char>,
) -> bool {
    cache.dom().contains(expected) || !source.dom().contains(name) || hash_of(source[name])
        != expected
}

/// Building a whole manifest, in manifest order.
pub open spec fn build_all(
    cache: Map<Seq<char>, Seq<u8>>,
    source: Map<Seq<char>, Seq<u8>>,
    deps: Seq<DepModel>,
) -> Map<Seq<char>, Seq<u8>>
    decreases deps.len(),
{
    if deps.len() == 0 {
        cache
    } else {
        build_all(
            build_one(cache, source, deps[0].name, deps[0].expected_hash),
            source,
            deps.drop_first(),
        )
    }
}

/// The effect of restoring one dependency on the source tree: when the
/// tree's copy is absent or stale and an object for `expected` exists, that
/// object's content overwrites the file; on a cache miss, and when the copy
/// is already correct, nothing changes.
pub open spec fn restore_one(
    cache: Map<Seq<char>, Seq<u8>>,
    source: Map<Seq<char>, Seq<u8>>,
    name: Seq<char>,
    expected: Seq<char>,
) -> Map<Seq<char>, Seq<u8>> {
    if !needs_restore_spec(source, name, expected) {
        source
    } else if cache.dom().contains(expected) {
        source.insert(name, cache[expected])
    } else {
        source
    }
}

/// Restoring a whole manifest, in manifest order.
pub open spec fn restore_all(
    cache: Map<Seq<char>, Seq<u8>>,
    source: Map<Seq<char>, Seq<u8>>,
    deps: Seq<DepModel>,
) -> Map<Seq<char>, Seq<u8>>
    decreases deps.len(),
{
    if deps.len() == 0 {
        source
    } else {
        restore_all(
            cache,
            restore_one(cache, source, deps[0].name, deps[0].expected_hash),
            deps.drop_first(),
        )
    }
}

} // verus!
