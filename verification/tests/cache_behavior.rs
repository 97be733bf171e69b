use depcache::BuildAction;
use depcache::Dependency;
use depcache::RestoreAction;
use depcache::build_step;
use depcache::hash;
use depcache::missing_warning;
use depcache::needs_restore;
use depcache::restore_step;
use std::collections::HashMap;

fn dep(name: &str, expected_hash: &str) -> Dependency {
    Dependency { name: String::from(name), expected_hash: String::from(expected_hash) }
}

// Drive the per-dependency build decisions over an in-memory cache store and
// source tree, the way the program drives them over directories.
fn run_build(
    cache: &mut HashMap<String, Vec<u8>>,
    tree: &HashMap<String, Vec<u8>>,
    deps: &[Dependency],
) -> Vec<String> {
    let mut warnings = Vec::new();
    for d in deps {
        let cached = cache.contains_key(&d.expected_hash);
        let source = tree.get(&d.name).cloned();
        match build_step(d, cached, source) {
            BuildAction::Store { bytes } => {
                cache.insert(d.expected_hash.clone(), bytes);
            }
            BuildAction::SourceUnreadable => {
                warnings.push(format!("error caching {}", d.name));
            }
            BuildAction::AlreadyCached | BuildAction::HashMismatch => {}
        }
    }
    warnings
}

fn run_restore(
    cache: &HashMap<String, Vec<u8>>,
    tree: &mut HashMap<String, Vec<u8>>,
    deps: &[Dependency],
) -> Vec<String> {
    let mut warnings = Vec::new();
    for d in deps {
        let source = tree.get(&d.name).cloned();
        if needs_restore(d, &source) {
            let cache_read = cache.get(&d.expected_hash).cloned();
            match restore_step(d, cache_read) {
                RestoreAction::Overwrite { bytes } => {
                    tree.insert(d.name.clone(), bytes);
                }
                RestoreAction::MissingInCache => {
                    warnings.push(missing_warning(d));
                }
            }
        }
    }
    warnings
}

#[test]
fn build_caches_matching_file() {
    let payload = b"a.pak payload".to_vec();
    let digest = hash(&payload);
    let mut tree = HashMap::new();
    tree.insert(String::from("a.pak"), payload.clone());
    let mut cache = HashMap::new();
    let warnings = run_build(&mut cache, &tree, &[dep("a.pak", &digest)]);
    assert!(warnings.is_empty());
    assert_eq!(cache.get(&digest), Some(&payload));
    assert_eq!(cache.len(), 1);
}

#[test]
fn build_integrity_gate_skips_mismatch() {
    let mut tree = HashMap::new();
    tree.insert(String::from("a.pak"), b"not the blessed bytes".to_vec());
    let mut cache = HashMap::new();
    let warnings = run_build(&mut cache, &tree, &[dep("a.pak", "abc123")]);
    // a silent skip: no object appears under the expected hash, no warning
    assert!(warnings.is_empty());
    assert!(cache.is_empty());
}

#[test]
fn build_skips_existing_object() {
    let payload = b"first writer".to_vec();
    let digest = hash(&payload);
    let mut cache = HashMap::new();
    cache.insert(digest.clone(), payload.clone());
    let mut tree = HashMap::new();
    tree.insert(String::from("a.pak"), b"second writer".to_vec());
    run_build(&mut cache, &tree, &[dep("a.pak", &digest)]);
    // the existing object is kept, its content untouched
    assert_eq!(cache.get(&digest), Some(&payload));
    assert_eq!(cache.len(), 1);
}

#[test]
fn build_warns_on_missing_source() {
    let tree = HashMap::new();
    let mut cache = HashMap::new();
    let warnings = run_build(&mut cache, &tree, &[dep("gone.pak", "abc123")]);
    assert_eq!(warnings.len(), 1);
    assert!(cache.is_empty());
}

#[test]
fn build_twice_is_build_once() {
    let one = b"one".to_vec();
    let two = b"two".to_vec();
    let mut tree = HashMap::new();
    tree.insert(String::from("a.pak"), one.clone());
    tree.insert(String::from("b/b.pak"), two.clone());
    let deps = [dep("a.pak", &hash(&one)), dep("b/b.pak", &hash(&two)), dep("c.pak", "abc123")];
    let mut cache = HashMap::new();
    run_build(&mut cache, &tree, &deps);
    let after_first = cache.clone();
    run_build(&mut cache, &tree, &deps);
    assert_eq!(cache, after_first);
}

#[test]
fn build_order_does_not_matter() {
    let one = b"one".to_vec();
    let two = b"two".to_vec();
    let mut tree = HashMap::new();
    tree.insert(String::from("a.pak"), one.clone());
    tree.insert(String::from("b.pak"), two.clone());
    let d1 = || dep("a.pak", &hash(&one));
    let d2 = || dep("b.pak", &hash(&two));
    let mut cache_fwd = HashMap::new();
    run_build(&mut cache_fwd, &tree, &[d1(), d2()]);
    let mut cache_rev = HashMap::new();
    run_build(&mut cache_rev, &tree, &[d2(), d1()]);
    assert_eq!(cache_fwd, cache_rev);
}

#[test]
fn restore_overwrites_stale_file() {
    let blessed = b"blessed content".to_vec();
    let mut cache = HashMap::new();
    cache.insert(String::from("abc123"), blessed.clone());
    let mut tree = HashMap::new();
    tree.insert(String::from("a.pak"), b"stale".to_vec());
    let warnings = run_restore(&cache, &mut tree, &[dep("a.pak", "abc123")]);
    assert!(warnings.is_empty());
    assert_eq!(tree.get("a.pak"), Some(&blessed));
}

#[test]
fn restore_creates_absent_file() {
    let blessed = b"blessed content".to_vec();
    let mut cache = HashMap::new();
    cache.insert(String::from("abc123"), blessed.clone());
    let mut tree = HashMap::new();
    let warnings = run_restore(&cache, &mut tree, &[dep("a.pak", "abc123")]);
    assert!(warnings.is_empty());
    assert_eq!(tree.get("a.pak"), Some(&blessed));
}

#[test]
fn restore_skips_correct_file() {
    let payload = b"already right".to_vec();
    let digest = hash(&payload);
    let cache = HashMap::new();  // even an empty cache: no read is needed
    let mut tree = HashMap::new();
    tree.insert(String::from("a.pak"), payload.clone());
    let warnings = run_restore(&cache, &mut tree, &[dep("a.pak", &digest)]);
    assert!(warnings.is_empty());
    assert_eq!(tree.get("a.pak"), Some(&payload));
}

#[test]
fn restore_miss_warns_and_leaves_file() {
    let cache = HashMap::new();
    let mut tree = HashMap::new();
    tree.insert(String::from("a.pak"), b"stale".to_vec());
    let warnings = run_restore(&cache, &mut tree, &[dep("a.pak", "abc123")]);
    assert_eq!(warnings, vec![String::from("missing in cache a.pak")]);
    assert_eq!(tree.get("a.pak"), Some(&b"stale".to_vec()));
}

#[test]
fn restore_miss_does_not_block_others() {
    let blessed = b"blessed".to_vec();
    let digest = hash(&blessed);
    let mut cache = HashMap::new();
    cache.insert(digest.clone(), blessed.clone());
    let mut tree = HashMap::new();
    tree.insert(String::from("a.pak"), b"stale".to_vec());
    let deps = [dep("a.pak", "abc123"), dep("b.pak", &digest)];
    let warnings = run_restore(&cache, &mut tree, &deps);
    assert_eq!(warnings, vec![String::from("missing in cache a.pak")]);
    // the miss left a.pak alone and b.pak restored all the same
    assert_eq!(tree.get("a.pak"), Some(&b"stale".to_vec()));
    assert_eq!(tree.get("b.pak"), Some(&blessed));
}

#[test]
fn restore_twice_is_restore_once() {
    let blessed = b"blessed".to_vec();
    let digest = hash(&blessed);
    let mut cache = HashMap::new();
    cache.insert(digest.clone(), blessed.clone());
    cache.insert(String::from("abc123"), b"object with odd key".to_vec());
    let mut tree = HashMap::new();
    tree.insert(String::from("a.pak"), b"stale".to_vec());
    tree.insert(String::from("c.pak"), b"stale too".to_vec());
    let deps = [dep("a.pak", &digest), dep("b.pak", "missing"), dep("c.pak", "abc123")];
    run_restore(&cache, &mut tree, &deps);
    let after_first = tree.clone();
    run_restore(&cache, &mut tree, &deps);
    assert_eq!(tree, after_first);
}

#[test]
fn round_trip_restores_original_content() {
    let payload = b"round trip payload".to_vec();
    let digest = hash(&payload);
    let mut tree = HashMap::new();
    tree.insert(String::from("Engine/a.pak"), payload.clone());
    let deps = [dep("Engine/a.pak", &digest)];
    let mut cache = HashMap::new();
    run_build(&mut cache, &tree, &deps);
    tree.remove("Engine/a.pak");
    let warnings = run_restore(&cache, &mut tree, &deps);
    assert!(warnings.is_empty());
    assert_eq!(tree.get("Engine/a.pak"), Some(&payload));
}
