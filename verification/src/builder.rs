//! Seeding the cache from a source tree.
//!
//! For each dependency the caller checks whether an object for the expected
//! digest already exists, reads the source file if not, and hands both to
//! `build_step`, which decides what to do. A `Store` action is carried out by
//! the caller with an atomic write-by-digest (write to a temporary path in the
//! cache directory, then rename into place).

use crate::digest::hash;
use crate::digest::hash_of;
use crate::manifest::Dependency;
use crate::model::DepModel;
use crate::model::build_all;
use crate::model::build_noop;
use crate::model::build_one;
use crate::model::cache_wf;
use crate::model::file_read;
use vstd::prelude::*;

verus! {

/// What the caller must do for one dependency during a build.
pub enum BuildAction {
    /// An object for the expected digest already exists: do nothing.
    AlreadyCached,
    /// The source file was absent or unreadable: report a warning, continue.
    SourceUnreadable,
    /// The source file's content does not hash to the expected digest: do
    /// nothing (caching it would poison the cache), silently.
    HashMismatch,
    /// The content hashes to the expected digest: store it under that digest
    /// with an atomic write, skipping if an object appeared meanwhile.
    Store { bytes: Vec<u8> },
}

/// The new cache contents after the caller carries a build action out for
/// the dependency's expected digest.
pub open spec fn apply_build(
    cache: Map<Seq<char>, Seq<u8>>,
    expected: Seq<char>,
    action: BuildAction,
) -> Map<Seq<char>, Seq<u8>> {
    match action {
        BuildAction::Store { bytes } => cache.insert(expected, bytes@),
        _ => cache,
    }
}

/// Decide what building one dependency does. `cached` says whether an object
/// for `dep.expected_hash` already exists; `source` is the source file's
/// content, or `None` when it could not be read. Carrying the action out
/// takes the cache from any state consistent with those two observations to
/// exactly `build_one` of the model.
pub fn build_step(dep: &Dependency, cached: bool, source: Option<Vec<u8>>) -> (r: BuildAction)
    ensures
        cached ==> r is AlreadyCached,
        !cached ==> match source {
            Some(b) => if hash_of(b@) == dep.expected_hash@ {
                r matches BuildAction::Store { bytes } && bytes@ == b@
            } else {
                r is HashMismatch
            },
            None => r is SourceUnreadable,
        },
        forall|cache: Map<Seq<char>, Seq<u8>>, tree: Map<Seq<char>, Seq<u8>>|
            cached == cache.dom().contains(dep.expected_hash@) && (match source {
                Some(b) => file_read(tree, dep.name@) == Some(b@),
                None => file_read(tree, dep.name@) is None,
            }) ==> apply_build(cache, dep.expected_hash@, r) == #[trigger] build_one(
                cache,
                tree,
                dep.name@,
                dep.expected_hash@,
            ),
{
    if cached {
        BuildAction::AlreadyCached
    } else {
        match source {
            None => BuildAction::SourceUnreadable,
            Some(bytes) => {
                let digest = hash(&bytes);
                if digest == dep.expected_hash {
                    BuildAction::Store { bytes }
                } else {
                    BuildAction::HashMismatch
                }
            },
        }
    }
}

/// Building never removes or changes an existing cache object: the cache
/// only grows, and objects already present keep their content.
pub proof fn lemma_build_one_grows(
    cache: Map<Seq<char>, Seq<u8>>,
    source: Map<Seq<char>, Seq<u8>>,
    name: Seq<char>,
    expected: Seq<char>,
)
    ensures
        cache.submap_of(build_one(cache, source, name, expected)),
{
}

/// `build_all` grows the cache the same way `build_one` does.
pub proof fn lemma_build_all_grows(
    cache: Map<Seq<char>, Seq<u8>>,
    source: Map<Seq<char>, Seq<u8>>,
    deps: Seq<DepModel>,
)
    ensures
        cache.submap_of(build_all(cache, source, deps)),
    decreases deps.len(),
{
    if deps.len() > 0 {
        let next = build_one(cache, source, deps[0].name, deps[0].expected_hash);
        lemma_build_one_grows(cache, source, deps[0].name, deps[0].expected_hash);
        lemma_build_all_grows(next, source, deps.drop_first());
        vstd::map_lib::lemma_submap_of_trans(
            cache,
            next,
            build_all(next, source, deps.drop_first()),
        );
    }
}

/// Building one dependency leaves the cache exactly unchanged when and only
/// when `build_noop` holds of its inputs.
pub proof fn lemma_build_one_noop(
    cache: Map<Seq<char>, Seq<u8>>,
    source: Map<Seq<char>, Seq<u8>>,
    name: Seq<char>,
    expected: Seq<char>,
)
    ensures
        build_noop(cache, source, name, expected) <==> build_one(cache, source, name, expected)
            == cache,
{
    if !build_noop(cache, source, name, expected) {
        assert(build_one(cache, source, name, expected).dom().contains(expected));
    }
}

/// The integrity gate: when the source file's content does not hash to the
/// manifest's expected digest (or the file cannot be read at all), building
/// that dependency creates no cache object and changes nothing.
pub proof fn lemma_build_integrity(
    cache: Map<Seq<char>, Seq<u8>>,
    source: Map<Seq<char>, Seq<u8>>,
    name: Seq<char>,
    expected: Seq<char>,
)
    requires
        file_read(source, name) matches Some(content) ==> hash_of(content) != expected,
    ensures
        build_one(cache, source, name, expected) == cache,
{
}

/// Building preserves the cache store's invariant: every object it ever
/// writes has content hashing to the digest it is stored under.
pub proof fn lemma_build_one_preserves_wf(
    cache: Map<Seq<char>, Seq<u8>>,
    source: Map<Seq<char>, Seq<u8>>,
    name: Seq<char>,
    expected: Seq<char>,
)
    requires
        cache_wf(cache),
    ensures
        cache_wf(build_one(cache, source, name, expected)),
{
}

/// `build_all` preserves the cache store's invariant too.
pub proof fn lemma_build_all_preserves_wf(
    cache: Map<Seq<char>, Seq<u8>>,
    source: Map<Seq<char>, Seq<u8>>,
    deps: Seq<DepModel>,
)
    requires
        cache_wf(cache),
    ensures
        cache_wf(build_all(cache, source, deps)),
    decreases deps.len(),
{
    if deps.len() > 0 {
        lemma_build_one_preserves_wf(cache, source, deps[0].name, deps[0].expected_hash);
        lemma_build_all_preserves_wf(
            build_one(cache, source, deps[0].name, deps[0].expected_hash),
            source,
            deps.drop_first(),
        );
    }
}

/// Once a dependency is a no-op against some cache, it stays one against any
/// larger cache built over the same source tree.
proof fn lemma_noop_monotone(
    cache: Map<Seq<char>, Seq<u8>>,
    larger: Map<Seq<char>, Seq<u8>>,
    source: Map<Seq<char>, Seq<u8>>,
    name: Seq<char>,
    expected: Seq<char>,
)
    requires
        build_noop(cache, source, name, expected),
        cache.submap_of(larger),
    ensures
        build_noop(larger, source, name, expected),
{
}

/// After a whole build, every dependency of the manifest is a no-op against
/// the resulting cache.
proof fn lemma_build_all_settles(
    cache: Map<Seq<char>, Seq<u8>>,
    source: Map<Seq<char>, Seq<u8>>,
    deps: Seq<DepModel>,
)
    ensures
        forall|i: int|
            0 <= i < deps.len() ==> build_noop(
                build_all(cache, source, deps),
                source,
                (#[trigger] deps[i]).name,
                deps[i].expected_hash,
            ),
    decreases deps.len(),
{
    if deps.len() > 0 {
        let next = build_one(cache, source, deps[0].name, deps[0].expected_hash);
        let fin = build_all(cache, source, deps);
        lemma_build_all_settles(next, source, deps.drop_first());
        lemma_build_all_grows(next, source, deps.drop_first());
        assert(build_noop(next, source, deps[0].name, deps[0].expected_hash));
        lemma_noop_monotone(next, fin, source, deps[0].name, deps[0].expected_hash);
        assert forall|i: int| 1 <= i < deps.len() implies build_noop(
            fin,
            source,
            (#[trigger] deps[i]).name,
            deps[i].expected_hash,
        ) by {
            assert(deps.drop_first()[i - 1] == deps[i]);
        }
    }
}

/// Over a source tree where every dependency is already a no-op, a build
/// changes nothing at all.
proof fn lemma_build_all_noop(
    cache: Map<Seq<char>, Seq<u8>>,
    source: Map<Seq<char>, Seq<u8>>,
    deps: Seq<DepModel>,
)
    requires
        forall|i: int|
            0 <= i < deps.len() ==> build_noop(
                cache,
                source,
                (#[trigger] deps[i]).name,
                deps[i].expected_hash,
            ),
    ensures
        build_all(cache, source, deps) == cache,
    decreases deps.len(),
{
    if deps.len() > 0 {
        lemma_build_one_noop(cache, source, deps[0].name, deps[0].expected_hash);
        assert forall|i: int| 0 <= i < deps.drop_first().len() implies build_noop(
            cache,
            source,
            (#[trigger] deps.drop_first()[i]).name,
            deps.drop_first()[i].expected_hash,
        ) by {
            assert(deps.drop_first()[i] == deps[i + 1]);
        }
        lemma_build_all_noop(cache, source, deps.drop_first());
    }
}

/// A dependency that can provide the cache object for digest `h`: it expects
/// `h`, and its source file is present with content hashing to `h`.
pub open spec fn dep_provides(source: Map<Seq<char>, Seq<u8>>, d: DepModel, h: Seq<char>) -> bool {
    d.expected_hash == h && source.dom().contains(d.name) && hash_of(source[d.name]) == h
}

/// No two files of the source tree hash alike yet hold different content —
/// what the digest's collision resistance gives in practice. Under this
/// hypothesis the object stored for a digest does not depend on which
/// matching file it was taken from.
pub open spec fn source_hash_injective(source: Map<Seq<char>, Seq<u8>>) -> bool {
    forall|n1: Seq<char>, n2: Seq<char>|
        #![trigger hash_of(source[n1]), hash_of(source[n2])]
        source.dom().contains(n1) && source.dom().contains(n2) && hash_of(source[n1]) == hash_of(
            source[n2],
        ) ==> source[n1] == source[n2]
}

/// What a whole build produces, pinned down without reference to the order
/// the dependencies were processed in: the final cache holds exactly the old
/// objects plus one object per digest some dependency provides, old objects
/// keep their content, and a new object holds its providers' file content.
pub proof fn lemma_build_all_characterized(
    cache: Map<Seq<char>, Seq<u8>>,
    source: Map<Seq<char>, Seq<u8>>,
    deps: Seq<DepModel>,
)
    requires
        source_hash_injective(source),
    ensures
        forall|h: Seq<char>|
            #[trigger] build_all(cache, source, deps).dom().contains(h) <==> (cache.dom().contains(
                h,
            ) || exists|i: int| 0 <= i < deps.len() && dep_provides(source, #[trigger] deps[i], h)),
        forall|h: Seq<char>|
            #[trigger] cache.dom().contains(h) ==> build_all(cache, source, deps)[h] == cache[h],
        forall|h: Seq<char>, i: int|
            !cache.dom().contains(h) && 0 <= i < deps.len() && #[trigger] dep_provides(
                source,
                deps[i],
                h,
            ) ==> build_all(cache, source, deps)[h] == source[deps[i].name],
    decreases deps.len(),
{
    lemma_build_all_grows(cache, source, deps);
    if deps.len() > 0 {
        let d0 = deps[0];
        let next = build_one(cache, source, d0.name, d0.expected_hash);
        let rest = deps.drop_first();
        let fin = build_all(cache, source, deps);
        lemma_build_all_characterized(next, source, rest);
        assert forall|h: Seq<char>|
            next.dom().contains(h) <==> (cache.dom().contains(h) || (0 < deps.len()
                && dep_provides(source, d0, h))) by {}
        assert forall|h: Seq<char>| #[trigger] fin.dom().contains(h) implies (cache.dom().contains(
            h,
        ) || exists|i: int| 0 <= i < deps.len() && dep_provides(source, #[trigger] deps[i], h)) by {
            if !cache.dom().contains(h) {
                if dep_provides(source, d0, h) {
                    assert(dep_provides(source, deps[0], h));
                } else {
                    let j = choose|j: int|
                        0 <= j < rest.len() && dep_provides(source, #[trigger] rest[j], h);
                    assert(rest[j] == deps[j + 1]);
                    assert(dep_provides(source, deps[j + 1], h));
                }
            }
        }
        assert forall|h: Seq<char>|
            (cache.dom().contains(h) || exists|i: int|
                0 <= i < deps.len() && dep_provides(
                    source,
                    #[trigger] deps[i],
                    h,
                )) implies fin.dom().contains(h) by {
            if !cache.dom().contains(h) {
                let i = choose|i: int|
                    0 <= i < deps.len() && dep_provides(source, #[trigger] deps[i], h);
                if i == 0 {
                    assert(next.dom().contains(h));
                } else {
                    assert(rest[i - 1] == deps[i]);
                    assert(dep_provides(source, rest[i - 1], h));
                }
            }
        }
        assert forall|h: Seq<char>, i: int|
            !cache.dom().contains(h) && 0 <= i < deps.len() && #[trigger] dep_provides(
                source,
                deps[i],
                h,
            ) implies fin[h] == source[deps[i].name] by {
            if next.dom().contains(h) {
                // the first dependency provided `h`; its content and any
                // other provider's content agree by hash injectivity
                assert(next[h] == source[d0.name]);
                assert(fin[h] == next[h]);
                assert(hash_of(source[deps[i].name]) == hash_of(source[d0.name]));
            } else {
                assert(i != 0);
                assert(rest[i - 1] == deps[i]);
                assert(dep_provides(source, rest[i - 1], h));
            }
        }
    }
}

/// Concurrent safety: the cache a build produces depends only on which
/// dependencies were processed, not on the order they were processed in. A
/// worker pool's tasks each perform one `build_one` (the atomic
/// write-by-digest makes a task's effect on the store atomic), so a run with
/// N workers and a run with one worker on an identical source tree yield the
/// identical final cache — same digests, same content.
pub proof fn lemma_build_schedule_independent(
    cache: Map<Seq<char>, Seq<u8>>,
    source: Map<Seq<char>, Seq<u8>>,
    deps1: Seq<DepModel>,
    deps2: Seq<DepModel>,
)
    requires
        source_hash_injective(source),
        forall|d: DepModel| deps1.contains(d) <==> deps2.contains(d),
    ensures
        build_all(cache, source, deps1) == build_all(cache, source, deps2),
{
    let fin1 = build_all(cache, source, deps1);
    let fin2 = build_all(cache, source, deps2);
    lemma_build_all_characterized(cache, source, deps1);
    lemma_build_all_characterized(cache, source, deps2);
    assert forall|h: Seq<char>| #[trigger] fin1.dom().contains(h) implies fin2.dom().contains(h)
        && fin1[h] == fin2[h] by {
        if !cache.dom().contains(h) {
            let i = choose|i: int|
                0 <= i < deps1.len() && dep_provides(source, #[trigger] deps1[i], h);
            assert(deps1.contains(deps1[i]));
            let j = choose|j: int| 0 <= j < deps2.len() && deps2[j] == deps1[i];
            assert(dep_provides(source, deps2[j], h));
            assert(fin1[h] == source[deps1[i].name]);
            assert(fin2[h] == source[deps2[j].name]);
        }
    }
    assert forall|h: Seq<char>| #[trigger] fin2.dom().contains(h) implies fin1.dom().contains(
        h,
    ) by {
        if !cache.dom().contains(h) {
            let j = choose|j: int|
                0 <= j < deps2.len() && dep_provides(source, #[trigger] deps2[j], h);
            assert(deps2.contains(deps2[j]));
            let i = choose|i: int| 0 <= i < deps1.len() && deps1[i] == deps2[j];
            assert(dep_provides(source, deps1[i], h));
        }
    }
    assert(fin1 =~= fin2);
}

/// Effectiveness of build: after a whole build, every dependency whose
/// source file is present with content hashing to its expected digest has a
/// cache object under that digest.
pub proof fn lemma_build_effective(
    cache: Map<Seq<char>, Seq<u8>>,
    source: Map<Seq<char>, Seq<u8>>,
    deps: Seq<DepModel>,
)
    ensures
        forall|i: int|
            0 <= i < deps.len() && dep_provides(
                source,
                #[trigger] deps[i],
                deps[i].expected_hash,
            ) ==> build_all(cache, source, deps).dom().contains(deps[i].expected_hash),
{
    lemma_build_all_settles(cache, source, deps);
}

/// Idempotence of build: running a build twice over the same source tree
/// produces the same cache-object set as running it once, and no object's
/// content changes.
pub proof fn lemma_build_idempotent(
    cache: Map<Seq<char>, Seq<u8>>,
    source: Map<Seq<char>, Seq<u8>>,
    deps: Seq<DepModel>,
)
    ensures
        build_all(build_all(cache, source, deps), source, deps) == build_all(cache, source, deps),
{
    lemma_build_all_settles(cache, source, deps);
    lemma_build_all_noop(build_all(cache, source, deps), source, deps);
}

} // verus!
