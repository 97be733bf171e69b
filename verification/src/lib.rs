//! A content-addressed file cache for large binary dependency trees.
//!
//! A manifest lists dependencies: a tree-relative file path together with the
//! hex digest its content is expected to have. The library decides, for each
//! dependency, how to seed a flat digest-keyed cache (`build`) and how to bring
//! a source tree back in line with the manifest from that cache (`restore`).
//! All filesystem traffic stays with the caller: the caller reads files and
//! cache objects, hands the bytes in, and carries the returned actions out.

mod builder;
mod digest;
mod manifest;
mod model;
mod restore;

pub use builder::BuildAction;
pub use builder::apply_build;
pub use builder::build_step;
pub use builder::dep_provides;
pub use builder::lemma_build_all_characterized;
pub use builder::lemma_build_all_grows;
pub use builder::lemma_build_all_preserves_wf;
pub use builder::lemma_build_effective;
pub use builder::lemma_build_idempotent;
pub use builder::lemma_build_integrity;
pub use builder::lemma_build_one_grows;
pub use builder::lemma_build_one_noop;
pub use builder::lemma_build_one_preserves_wf;
pub use builder::lemma_build_schedule_independent;
pub use builder::source_hash_injective;
pub use digest::hash;
pub use digest::hash_of;
pub use digest::hex_of;
pub use digest::is_valid_digest;
pub use digest::sha1_of;
pub use digest::valid_digest;
pub use manifest::Dependency;
pub use manifest::ManifestError;
pub use manifest::has_duplicate_names;
pub use model::DepModel;
pub use model::build_all;
pub use model::build_noop;
pub use model::build_one;
pub use model::cache_wf;
pub use model::file_read;
pub use model::needs_restore_spec;
pub use model::restore_all;
pub use model::restore_one;
pub use model::stale;
pub use restore::RestoreAction;
pub use restore::apply_restore;
pub use restore::lemma_restore_all_untouched_name;
pub use restore::lemma_restore_effective;
pub use restore::lemma_restore_idempotent;
pub use restore::lemma_restore_miss_isolated;
pub use restore::lemma_restore_miss_untouched;
pub use restore::lemma_restore_one_idempotent;
pub use restore::lemma_round_trip;
pub use restore::missing_warning;
pub use restore::needs_restore;
pub use restore::restore_step;
