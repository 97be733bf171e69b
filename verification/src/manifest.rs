//! Manifest entries.
//!
//! Parsing the manifest file itself is the caller's job; it hands each
//! entry's attributes in as plain optional strings, and `Dependency::from_attrs`
//! decides whether they make a well-formed entry.

use crate::model::DepModel;
use vstd::prelude::*;

verus! {

/// One manifest entry: a source-tree-relative file path and the hex digest
/// its content is expected to have. Immutable once built.
pub struct Dependency {
    pub name: String,
    pub expected_hash: String,
}

impl View for Dependency {
    type V = DepModel;

    open spec fn view(&self) -> DepModel {
        DepModel { name: self.name@, expected_hash: self.expected_hash@ }
    }
}

/// Why a manifest entry could not be built from its attributes.
pub enum ManifestError {
    /// The entry has no name attribute.
    MissingName,
    /// The entry has no expected-hash attribute.
    MissingExpectedHash,
}

impl ManifestError {
    /// The human-readable description of the error.
    pub fn message(&self) -> (r: &'static str)
        ensures
            self is MissingName ==> r@ == "missing attribute 'Name'"@,
            self is MissingExpectedHash ==> r@ == "missing attribute 'ExpectedHash'"@,
    {
        match self {
            ManifestError::MissingName => "missing attribute 'Name'",
            ManifestError::MissingExpectedHash => "missing attribute 'ExpectedHash'",
        }
    }
}

/// Whether two entries of the list bear the same path. A manifest that lists
/// one path twice is an ambiguous input: entries are processed independently
/// in manifest order, so the later entry's outcome stands, and the laws about
/// whole restore runs are stated for lists this function clears.
pub fn has_duplicate_names(deps: &Vec<Dependency>) -> (r: bool)
    ensures
        r == exists|i: int, j: int|
            0 <= i < j < deps@.len() && (#[trigger] deps@[i]).name@ == (#[trigger] deps@[j]).name@,
{
    let n = deps.len();
    let mut i: usize = 0;
    while i < n
        invariant
            0 <= i <= n,
            n == deps@.len(),
            forall|p: int, q: int|
                0 <= p < q < deps@.len() && p < i ==> (#[trigger] deps@[p]).name@ != (
                #[trigger] deps@[q]).name@,
        decreases n - i,
    {
        let mut j: usize = i + 1;
        while j < n
            invariant
                0 <= i < j <= n,
                n == deps@.len(),
                forall|q: int|
                    i < q < j ==> (#[trigger] deps@[q]).name@ != deps@[i as int].name@,
            decreases n - j,
        {
            if deps[i].name == deps[j].name {
                return true;
            }
            j = j + 1;
        }
        i = i + 1;
    }
    false
}

impl Dependency {
    /// Build one manifest entry from its two attributes, as read out of the
    /// manifest file. A missing name is reported first, then a missing hash.
    pub fn from_attrs(name: Option<String>, expected_hash: Option<String>) -> (r: Result<
        Dependency,
        ManifestError,
    >)
        ensures
            match r {
                Ok(d) => name matches Some(n) && expected_hash matches Some(h) && d.name@ == n@
                    && d.expected_hash@ == h@,
                Err(e) => match e {
                    ManifestError::MissingName => name is None,
                    ManifestError::MissingExpectedHash => name is Some && expected_hash is None,
                },
            },
            r is Ok <==> name is Some && expected_hash is Some,
    {
        match name {
            None => Err(ManifestError::MissingName),
            Some(n) => match expected_hash {
                None => Err(ManifestError::MissingExpectedHash),
                Some(h) => Ok(Dependency { name: n, expected_hash: h }),
            },
        }
    }
}

} // verus!
