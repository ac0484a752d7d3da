use toml::Value;
use zamm_yang::manifest::{release_lock, release_manifest, ManifestError};

#[test]
fn tagged_version_is_released_in_the_manifest() {
    let text = "[package]\nname = \"foo\"\nversion = \"0.1.0-beta\"\nedition = \"2018\"\n";
    let r = release_manifest(text).unwrap();
    assert_eq!(r.version, "0.1.0");
    let change = r.change.unwrap();
    assert_eq!(change.package, "foo");
    let written = change.manifest.parse::<Value>().unwrap();
    assert_eq!(written["package"]["version"].as_str(), Some("0.1.0"));
    assert_eq!(written["package"]["name"].as_str(), Some("foo"));
    assert_eq!(written["package"]["edition"].as_str(), Some("2018"));
}

#[test]
fn untagged_version_leaves_the_manifest_alone() {
    let r = release_manifest("[package]\nname = \"foo\"\nversion = \"0.2.0\"\n").unwrap();
    assert_eq!(r.version, "0.2.0");
    assert!(r.change.is_none());
}

#[test]
fn manifest_errors() {
    assert!(matches!(release_manifest("[package]\nname = \"foo\"\n"), Err(ManifestError::MissingVersion)));
    assert!(matches!(release_manifest("not = [toml"), Err(ManifestError::MissingVersion)));
    assert!(matches!(
        release_manifest("[package]\nversion = \"1.0.0-alpha\"\n"),
        Err(ManifestError::MissingName)
    ));
}

#[test]
fn lock_entries_of_the_package_get_the_release_version() {
    let lock = "[[package]]\nname = \"bar\"\nversion = \"1.0.0\"\n\n[[package]]\nname = \"foo\"\nversion = \"0.1.0-beta\"\ndependencies = [\"bar\"]\n";
    let written = release_lock(lock, "foo", "0.1.0").unwrap();
    let v = written.parse::<Value>().unwrap();
    let packages = v["package"].as_array().unwrap();
    assert_eq!(packages.len(), 2);
    assert_eq!(packages[0]["name"].as_str(), Some("bar"));
    assert_eq!(packages[0]["version"].as_str(), Some("1.0.0"));
    assert_eq!(packages[1]["name"].as_str(), Some("foo"));
    assert_eq!(packages[1]["version"].as_str(), Some("0.1.0"));
}

#[test]
fn lock_errors() {
    assert!(matches!(release_lock("version = 3\n", "foo", "1.0.0"), Err(ManifestError::LockUnreadable)));
    assert!(matches!(
        release_lock("[[package]]\nversion = \"1\"\n", "foo", "1.0.0"),
        Err(ManifestError::LockUnreadable)
    ));
}
