use depcache::Dependency;
use depcache::ManifestError;
use depcache::has_duplicate_names;

fn dep(name: &str, expected_hash: &str) -> Dependency {
    Dependency { name: String::from(name), expected_hash: String::from(expected_hash) }
}

#[test]
fn entry_from_both_attributes() {
    let r = Dependency::from_attrs(
        Some(String::from("Engine/Binaries/a.pak")),
        Some(String::from("a9993e364706816aba3e25717850c26c9cd0d89d")),
    );
    match r {
        Ok(d) => {
            assert_eq!(d.name, "Engine/Binaries/a.pak");
            assert_eq!(d.expected_hash, "a9993e364706816aba3e25717850c26c9cd0d89d");
        }
        Err(_) => panic!("expected a well-formed entry"),
    }
}

#[test]
fn entry_missing_name() {
    let r = Dependency::from_attrs(None, Some(String::from("abc123")));
    match r {
        Ok(_) => panic!("expected an error"),
        Err(e) => {
            assert!(matches!(e, ManifestError::MissingName));
            assert_eq!(e.message(), "missing attribute 'Name'");
        }
    }
}

#[test]
fn entry_missing_expected_hash() {
    let r = Dependency::from_attrs(Some(String::from("a.pak")), None);
    match r {
        Ok(_) => panic!("expected an error"),
        Err(e) => {
            assert!(matches!(e, ManifestError::MissingExpectedHash));
            assert_eq!(e.message(), "missing attribute 'ExpectedHash'");
        }
    }
}

#[test]
fn duplicate_names_found() {
    let deps = vec![dep("a.pak", "h1"), dep("b.pak", "h2"), dep("a.pak", "h3")];
    assert!(has_duplicate_names(&deps));
}

#[test]
fn distinct_names_pass() {
    let deps = vec![dep("a.pak", "h1"), dep("b.pak", "h1"), dep("c.pak", "h2")];
    assert!(!has_duplicate_names(&deps));
    assert!(!has_duplicate_names(&Vec::new()));
}

#[test]
fn entry_missing_name_reported_first() {
    let r = Dependency::from_attrs(None, None);
    match r {
        Ok(_) => panic!("expected an error"),
        Err(e) => assert!(matches!(e, ManifestError::MissingName)),
    }
}
