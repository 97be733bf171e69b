//! Restoring a source tree from the cache.
//!
//! Restoration is verify-first: for each dependency the caller reads the
//! tree's current copy (if any) and asks `needs_restore`; only when that
//! answers `true` does it read the cache object and hand the result to
//! `restore_step`. An `Overwrite` action is carried out by the caller:
//! create the missing parent directories, then write the bytes over the
//! file wholesale. A `MissingInCache` action becomes a warning and leaves
//! the file untouched.

use crate::digest::hash;
use crate::digest::hash_of;
use crate::manifest::Dependency;
use crate::model::build_one;
use crate::model::cache_wf;
use crate::model::DepModel;
use crate::model::file_read;
use crate::model::needs_restore_spec;
use crate::model::restore_all;
use crate::model::restore_one;
use vstd::prelude::*;
use vstd::string::StringExecFns;

verus! {

/// What the caller must do for one dependency whose tree copy is absent or
/// stale.
pub enum RestoreAction {
    /// The cache holds the object: overwrite the source file with these
    /// bytes, creating parent directories as needed.
    Overwrite { bytes: Vec<u8> },
    /// The cache has no object for the expected digest: warn, and leave the
    /// source file in its current state.
    MissingInCache,
}

/// The new source tree after the caller carries a restore action out for the
/// dependency's path.
pub open spec fn apply_restore(
    source: Map<Seq<char>, Seq<u8>>,
    name: Seq<char>,
    action: RestoreAction,
) -> Map<Seq<char>, Seq<u8>> {
    match action {
        RestoreAction::Overwrite { bytes } => source.insert(name, bytes@),
        RestoreAction::MissingInCache => source,
    }
}

/// Decide whether the tree's copy of a dependency needs replacing: it does
/// when the file is absent (`source` is `None`), and when its content does
/// not hash to the expected digest.
pub fn needs_restore(dep: &Dependency, source: &Option<Vec<u8>>) -> (r: bool)
    ensures
        r == match source {
            Some(b) => hash_of(b@) != dep.expected_hash@,
            None => true,
        },
        forall|tree: Map<Seq<char>, Seq<u8>>|
            (match source {
                Some(b) => file_read(tree, dep.name@) == Some(b@),
                None => file_read(tree, dep.name@) is None,
            }) ==> r == #[trigger] needs_restore_spec(tree, dep.name@, dep.expected_hash@),
{
    match source {
        None => true,
        Some(bytes) => {
            let digest = hash(bytes);
            !(digest == dep.expected_hash)
        },
    }
}

/// Decide what to do for a dependency that needs restoring, given the cache
/// read's outcome. Carrying the action out takes the source tree from any
/// state in which the dependency is absent or stale to exactly `restore_one`
/// of the model.
pub fn restore_step(dep: &Dependency, cache_read: Option<Vec<u8>>) -> (r: RestoreAction)
    ensures
        match cache_read {
            Some(b) => r matches RestoreAction::Overwrite { bytes } && bytes@ == b@,
            None => r is MissingInCache,
        },
        forall|cache: Map<Seq<char>, Seq<u8>>, tree: Map<Seq<char>, Seq<u8>>|
            needs_restore_spec(tree, dep.name@, dep.expected_hash@) && (match cache_read {
                Some(b) => file_read(cache, dep.expected_hash@) == Some(b@),
                None => file_read(cache, dep.expected_hash@) is None,
            }) ==> apply_restore(tree, dep.name@, r) == #[trigger] restore_one(
                cache,
                tree,
                dep.name@,
                dep.expected_hash@,
            ),
{
    match cache_read {
        Some(bytes) => RestoreAction::Overwrite { bytes },
        None => RestoreAction::MissingInCache,
    }
}

/// The warning a cache miss is reported with, naming the dependency.
pub fn missing_warning(dep: &Dependency) -> (r: String)
    ensures
        r@ == "missing in cache "@ + dep.name@,
{
    let mut r = String::from_str("missing in cache ");
    r.append(dep.name.as_str());
    r
}

/// Cache-miss isolation, first half: when the cache has no object for the
/// expected digest, restoring the dependency leaves the source tree exactly
/// as it was.
pub proof fn lemma_restore_miss_untouched(
    cache: Map<Seq<char>, Seq<u8>>,
    source: Map<Seq<char>, Seq<u8>>,
    name: Seq<char>,
    expected: Seq<char>,
)
    requires
        !cache.dom().contains(expected),
    ensures
        restore_one(cache, source, name, expected) == source,
{
}

/// Restoring one dependency twice is the same as restoring it once.
pub proof fn lemma_restore_one_idempotent(
    cache: Map<Seq<char>, Seq<u8>>,
    source: Map<Seq<char>, Seq<u8>>,
    name: Seq<char>,
    expected: Seq<char>,
)
    ensures
        restore_one(cache, restore_one(cache, source, name, expected), name, expected)
            == restore_one(cache, source, name, expected),
{
    let once = restore_one(cache, source, name, expected);
    if needs_restore_spec(source, name, expected) && cache.dom().contains(expected) {
        if needs_restore_spec(once, name, expected) {
            // the object's content does not hash to its digest; the second
            // run writes the same bytes again, changing nothing
            assert(restore_one(cache, once, name, expected) =~= once);
        }
    }
}

/// A whole restore touches no path outside the manifest: a file whose path
/// no dependency bears keeps its presence and its content.
pub proof fn lemma_restore_all_untouched_name(
    cache: Map<Seq<char>, Seq<u8>>,
    source: Map<Seq<char>, Seq<u8>>,
    deps: Seq<DepModel>,
    name: Seq<char>,
)
    requires
        forall|i: int| 0 <= i < deps.len() ==> (#[trigger] deps[i]).name != name,
    ensures
        restore_all(cache, source, deps).dom().contains(name) == source.dom().contains(name),
        source.dom().contains(name) ==> restore_all(cache, source, deps)[name] == source[name],
    decreases deps.len(),
{
    if deps.len() > 0 {
        let s1 = restore_one(cache, source, deps[0].name, deps[0].expected_hash);
        assert forall|i: int| 0 <= i < deps.drop_first().len() implies (#[trigger] deps.drop_first()[i]).name
            != name by {
            assert(deps.drop_first()[i] == deps[i + 1]);
        }
        lemma_restore_all_untouched_name(cache, s1, deps.drop_first(), name);
    }
}

/// The restore decision and effect for a dependency read nothing of the tree
/// but the dependency's own path: over two trees that agree there, a
/// dependency settled in one is settled in the other.
proof fn lemma_restore_one_agrees(
    cache: Map<Seq<char>, Seq<u8>>,
    s1: Map<Seq<char>, Seq<u8>>,
    s2: Map<Seq<char>, Seq<u8>>,
    name: Seq<char>,
    expected: Seq<char>,
)
    requires
        s1.dom().contains(name) == s2.dom().contains(name),
        s1.dom().contains(name) ==> s1[name] == s2[name],
        restore_one(cache, s1, name, expected) == s1,
    ensures
        restore_one(cache, s2, name, expected) == s2,
{
    if needs_restore_spec(s2, name, expected) && cache.dom().contains(expected) {
        assert(s1.insert(name, cache[expected]) == s1);
        assert(s1[name] == cache[expected]);
        assert(restore_one(cache, s2, name, expected) =~= s2);
    }
}

/// Idempotence of restore: running a restore twice over the same tree leaves
/// the filesystem state after the second run identical to after the first.
/// Stated for manifests that list each path once; a manifest listing the
/// same path twice is an ambiguous input the system leaves unspecified.
pub proof fn lemma_restore_idempotent(
    cache: Map<Seq<char>, Seq<u8>>,
    source: Map<Seq<char>, Seq<u8>>,
    deps: Seq<DepModel>,
)
    requires
        forall|i: int, j: int|
            0 <= i < j < deps.len() ==> (#[trigger] deps[i]).name != (#[trigger] deps[j]).name,
    ensures
        restore_all(cache, restore_all(cache, source, deps), deps) == restore_all(
            cache,
            source,
            deps,
        ),
    decreases deps.len(),
{
    if deps.len() > 0 {
        let d0 = deps[0];
        let s1 = restore_one(cache, source, d0.name, d0.expected_hash);
        let rest = deps.drop_first();
        let fin = restore_all(cache, s1, rest);
        assert forall|i: int, j: int| 0 <= i < j < rest.len() implies (#[trigger] rest[i]).name
            != (#[trigger] rest[j]).name by {
            assert(rest[i] == deps[i + 1] && rest[j] == deps[j + 1]);
        }
        assert forall|i: int| 0 <= i < rest.len() implies (#[trigger] rest[i]).name != d0.name by {
            assert(rest[i] == deps[i + 1]);
        }
        lemma_restore_idempotent(cache, s1, rest);
        lemma_restore_one_idempotent(cache, source, d0.name, d0.expected_hash);
        lemma_restore_all_untouched_name(cache, s1, rest, d0.name);
        lemma_restore_one_agrees(cache, s1, fin, d0.name, d0.expected_hash);
        assert(restore_all(cache, fin, deps) == restore_all(
            cache,
            restore_one(cache, fin, d0.name, d0.expected_hash),
            rest,
        ));
    }
}

/// Cache-miss isolation: a dependency whose expected digest has no cache
/// object changes nothing itself, and the run with it is the run without it
/// — it cannot keep any other dependency from restoring correctly.
pub proof fn lemma_restore_miss_isolated(
    cache: Map<Seq<char>, Seq<u8>>,
    source: Map<Seq<char>, Seq<u8>>,
    deps: Seq<DepModel>,
    k: int,
)
    requires
        0 <= k < deps.len(),
        !cache.dom().contains(deps[k].expected_hash),
    ensures
        restore_all(cache, source, deps) == restore_all(cache, source, deps.remove(k)),
    decreases deps.len(),
{
    if k == 0 {
        lemma_restore_miss_untouched(cache, source, deps[0].name, deps[0].expected_hash);
        assert(deps.remove(0) =~= deps.drop_first());
    } else {
        let s1 = restore_one(cache, source, deps[0].name, deps[0].expected_hash);
        lemma_restore_miss_isolated(cache, s1, deps.drop_first(), k - 1);
        assert(deps.drop_first()[k - 1] == deps[k]);
        assert(deps.remove(k).drop_first() =~= deps.drop_first().remove(k - 1));
        assert(deps.remove(k)[0] == deps[0]);
        assert(restore_all(cache, source, deps.remove(k)) == restore_all(
            cache,
            restore_one(cache, source, deps.remove(k)[0].name, deps.remove(k)[0].expected_hash),
            deps.remove(k).drop_first(),
        ));
    }
}

/// Effectiveness of restore: over a well-formed cache, a whole restore
/// leaves every dependency whose object is in the cache present and correct
/// — its file exists and its content hashes to the expected digest. Stated,
/// like idempotence, for manifests that list each path once.
pub proof fn lemma_restore_effective(
    cache: Map<Seq<char>, Seq<u8>>,
    source: Map<Seq<char>, Seq<u8>>,
    deps: Seq<DepModel>,
)
    requires
        cache_wf(cache),
        forall|i: int, j: int|
            0 <= i < j < deps.len() ==> (#[trigger] deps[i]).name != (#[trigger] deps[j]).name,
    ensures
        forall|i: int|
            0 <= i < deps.len() && cache.dom().contains((#[trigger] deps[i]).expected_hash) ==> {
                let fin = restore_all(cache, source, deps);
                fin.dom().contains(deps[i].name) && hash_of(fin[deps[i].name])
                    == deps[i].expected_hash
            },
    decreases deps.len(),
{
    if deps.len() > 0 {
        let d0 = deps[0];
        let s1 = restore_one(cache, source, d0.name, d0.expected_hash);
        let rest = deps.drop_first();
        let fin = restore_all(cache, s1, rest);
        assert forall|i: int, j: int| 0 <= i < j < rest.len() implies (#[trigger] rest[i]).name
            != (#[trigger] rest[j]).name by {
            assert(rest[i] == deps[i + 1] && rest[j] == deps[j + 1]);
        }
        lemma_restore_effective(cache, s1, rest);
        assert forall|i: int|
            0 <= i < deps.len() && cache.dom().contains(
                (#[trigger] deps[i]).expected_hash,
            ) implies (fin.dom().contains(deps[i].name) && hash_of(fin[deps[i].name])
            == deps[i].expected_hash) by {
            if i == 0 {
                // after its own step the first dependency is present and
                // correct, and no later dependency bears its path
                assert(s1.dom().contains(d0.name) && hash_of(s1[d0.name]) == d0.expected_hash);
                assert forall|j: int| 0 <= j < rest.len() implies (#[trigger] rest[j]).name
                    != d0.name by {
                    assert(rest[j] == deps[j + 1]);
                }
                lemma_restore_all_untouched_name(cache, s1, rest, d0.name);
            } else {
                assert(rest[i - 1] == deps[i]);
            }
        }
    }
}

/// Round trip: when a source file's content hashes to the expected digest,
/// building the dependency, deleting the file, and restoring it brings the
/// original content back exactly. (When the cache already held an object for
/// that digest, content addressing says it is the same content; the
/// hypothesis states just that.)
pub proof fn lemma_round_trip(
    cache: Map<Seq<char>, Seq<u8>>,
    source: Map<Seq<char>, Seq<u8>>,
    name: Seq<char>,
    expected: Seq<char>,
)
    requires
        source.dom().contains(name),
        hash_of(source[name]) == expected,
        cache.dom().contains(expected) ==> cache[expected] == source[name],
    ensures
        ({
            let built = build_one(cache, source, name, expected);
            let restored = restore_one(built, source.remove(name), name, expected);
            restored.dom().contains(name) && restored[name] == source[name]
        }),
{
}

} // verus!
