//! What a release writes into the project's manifest (`Cargo.toml`) and lock file
//! (`Cargo.lock`): the version without its pre-release tag.
use vstd::prelude::*;
use toml::Value;
use crate::release::{release_version, release_version_of};

verus! {

// ---------------------------------------------------------------------------------------------
// Names for what the `toml` crate reads and writes
// ---------------------------------------------------------------------------------------------

/// The text stored under `key` in the `[package]` table of a TOML text, as the `toml` crate
/// parses it; `None` when the text is no TOML, or the table or a text value under the key is
/// missing.
pub uninterp spec fn toml_package_field(text: Seq<char>, key: Seq<char>) -> Option<Seq<char>>;

/// The TOML text that the `toml` crate writes for a TOML text whose `[package]` table has its
/// `version` replaced by the text `version`; `None` when the text is no TOML, it has no such
/// entry, or the result cannot be written.
pub uninterp spec fn toml_with_package_version(text: Seq<char>, version: Seq<char>) -> Option<
    Seq<char>,
>;

/// The names of the entries of the `[[package]]` array of a TOML text, in order, as the `toml`
/// crate parses it; `None` when the text is no TOML, has no such array, or an entry has no
/// text name.
pub uninterp spec fn toml_lock_package_names(lock: Seq<char>) -> Option<Seq<Seq<char>>>;

/// The TOML text that the `toml` crate writes for a TOML text whose `[[package]]` entries at
/// `places` get the text `version` as their `version`; `None` when the text is no TOML, a place
/// holds no table, or the result cannot be written.
pub uninterp spec fn toml_lock_with_versions(lock: Seq<char>, places: Seq<usize>, version: Seq<char>) -> Option<
    Seq<char>,
>;

/// Parses a TOML text with the `toml` crate (`str::parse::<toml::Value>`) and reads the text
/// under `key` in its `package` table (`Value::get`, `Value::as_str`). The result is named, not
/// stated: the TOML parser decides it.
#[verifier::external_body]
fn package_field(text: &str, key: &str) -> (res: Option<String>)
    ensures
        match res {
            Some(v) => toml_package_field(text@, key@) == Some(v@),
            None => toml_package_field(text@, key@) is None,
        },
{
    let doc = text.parse::<Value>().ok()?;
    doc.get("package")?.get(key)?.as_str().map(|s| s.to_owned())
}

/// Parses a TOML text with the `toml` crate, replaces the `version` of its `package` table
/// (`Value::get_mut`) by the given text, and writes the document back (`toml::to_string`, what
/// `Value`'s `Display` writes). The result is named, not stated: the TOML parser and writer
/// decide it.
#[verifier::external_body]
fn with_package_version(text: &str, version: &str) -> (res: Option<String>)
    ensures
        match res {
            Some(v) => toml_with_package_version(text@, version@) == Some(v@),
            None => toml_with_package_version(text@, version@) is None,
        },
{
    let mut doc = text.parse::<Value>().ok()?;
    *doc.get_mut("package")?.get_mut("version")? = Value::String(version.to_owned());
    toml::to_string(&doc).ok()
}

/// Parses a TOML text with the `toml` crate and hands out the `name` text of each entry of its
/// `package` array, in order. The result is named, not stated: the TOML parser decides it.
#[verifier::external_body]
fn lock_package_names(lock: &str) -> (res: Option<Vec<String>>)
    ensures
        match res {
            Some(v) => toml_lock_package_names(lock@) == Some(v@.map_values(|s: String| s@)),
            None => toml_lock_package_names(lock@) is None,
        },
{
    let doc = lock.parse::<Value>().ok()?;
    doc.get("package")?.as_array()?.iter().map(|p| p.get("name")?.as_str().map(|s| s.to_owned())).collect()
}

/// Parses a TOML text with the `toml` crate, inserts the given text as the `version` of the
/// tables at the given places of its `package` array (`Map::insert`), and writes the document
/// back (`toml::to_string`). The result is named, not stated: the TOML parser and writer decide
/// it.
#[verifier::external_body]
fn lock_with_versions(lock: &str, places: &Vec<usize>, version: &str) -> (res: Option<String>)
    ensures
        match res {
            Some(v) => toml_lock_with_versions(lock@, places@, version@) == Some(v@),
            None => toml_lock_with_versions(lock@, places@, version@) is None,
        },
{
    let mut doc = lock.parse::<Value>().ok()?;
    let packages = doc.get_mut("package")?.as_array_mut()?;
    for i in places {
        packages.get_mut(*i)?.as_table_mut()?.insert("version".to_owned(), Value::String(version.to_owned()));
    }
    toml::to_string(&doc).ok()
}

// ---------------------------------------------------------------------------------------------
// The release
// ---------------------------------------------------------------------------------------------

/// Why a manifest or lock file cannot be prepared for a release.
#[derive(Debug, Clone, Copy, PartialEq, Eq, Structural)]
pub enum ManifestError {
    /// The manifest has no text `version` in its `[package]` table.
    MissingVersion,
    /// The manifest has no text `name` in its `[package]` table.
    MissingName,
    /// The manifest with the release version cannot be written.
    ManifestUnwritable,
    /// The lock file has no `[[package]]` entries with text names.
    LockUnreadable,
    /// The lock file with the release version cannot be written.
    LockUnwritable,
}

/// What a release changes in the manifest: the package, by name, and the new manifest text.
pub struct ManifestChange {
    pub package: String,
    pub manifest: String,
}

/// View of a [`ManifestChange`].
pub struct ManifestChangeV {
    pub package: Seq<char>,
    pub manifest: Seq<char>,
}

/// The version a release gets, and what it changes in the manifest: nothing when the version
/// has no pre-release tag.
pub struct ManifestRelease {
    pub version: String,
    pub change: Option<ManifestChange>,
}

/// View of a [`ManifestRelease`].
pub struct ManifestReleaseV {
    pub version: Seq<char>,
    pub change: Option<ManifestChangeV>,
}

impl View for ManifestRelease {
    type V = ManifestReleaseV;

    open spec fn view(&self) -> ManifestReleaseV {
        ManifestReleaseV {
            version: self.version@,
            change: match self.change {
                Some(c) => Some(ManifestChangeV { package: c.package@, manifest: c.manifest@ }),
                None => None,
            },
        }
    }
}

/// What a release does to a manifest text: its version, without any pre-release tag, and, where
/// there was a tag, the package's name and the manifest with the new version.
pub open spec fn manifest_release(text: Seq<char>) -> Result<ManifestReleaseV, ManifestError> {
    match toml_package_field(text, "version"@) {
        None => Err(ManifestError::MissingVersion),
        Some(v) => match release_version_of(v) {
            None => Ok(ManifestReleaseV { version: v, change: None }),
            Some(r) => match toml_package_field(text, "name"@) {
                None => Err(ManifestError::MissingName),
                Some(n) => match toml_with_package_version(text, r) {
                    None => Err(ManifestError::ManifestUnwritable),
                    Some(m) => Ok(
                        ManifestReleaseV {
                            version: r,
                            change: Some(ManifestChangeV { package: n, manifest: m }),
                        },
                    ),
                },
            },
        },
    }
}

/// The view of a release of a manifest, or its error.
pub open spec fn manifest_result_view(r: Result<ManifestRelease, ManifestError>) -> Result<
    ManifestReleaseV,
    ManifestError,
> {
    match r {
        Ok(m) => Ok(m@),
        Err(e) => Err(e),
    }
}

/// Prepares a manifest text for a release: reads the package's version, and, where it has a
/// pre-release tag, writes the manifest with the version that has none.
pub fn release_manifest(cargo_toml: &str) -> (res: Result<ManifestRelease, ManifestError>)
    ensures
        manifest_result_view(res) == manifest_release(cargo_toml@),
{
    let version = match package_field(cargo_toml, "version") {
        None => return Err(ManifestError::MissingVersion),
        Some(v) => v,
    };
    let release = match release_version(version.as_str()) {
        None => return Ok(ManifestRelease { version, change: None }),
        Some(r) => r,
    };
    let package = match package_field(cargo_toml, "name") {
        None => return Err(ManifestError::MissingName),
        Some(n) => n,
    };
    let manifest = match with_package_version(cargo_toml, release.as_str()) {
        None => return Err(ManifestError::ManifestUnwritable),
        Some(m) => m,
    };
    Ok(ManifestRelease { version: release, change: Some(ManifestChange { package, manifest }) })
}

/// The places, in increasing order, at which `names` holds `package`.
pub open spec fn matching_places(names: Seq<Seq<char>>, package: Seq<char>) -> Seq<usize>
    decreases names.len(),
{
    if names.len() == 0 {
        Seq::empty()
    } else if names.last() == package {
        matching_places(names.drop_last(), package).push((names.len() - 1) as usize)
    } else {
        matching_places(names.drop_last(), package)
    }
}

/// What a release does to a lock file: every `[[package]]` entry named `package` gets `version`.
pub open spec fn lock_release(lock: Seq<char>, package: Seq<char>, version: Seq<char>) -> Result<
    Seq<char>,
    ManifestError,
> {
    match toml_lock_package_names(lock) {
        None => Err(ManifestError::LockUnreadable),
        Some(names) => match toml_lock_with_versions(lock, matching_places(names, package), version) {
            None => Err(ManifestError::LockUnwritable),
            Some(t) => Ok(t),
        },
    }
}

/// The view of a lock text, or its error.
pub open spec fn lock_result_view(r: Result<String, ManifestError>) -> Result<Seq<char>, ManifestError> {
    match r {
        Ok(t) => Ok(t@),
        Err(e) => Err(e),
    }
}

/// Prepares a lock file's text for a release: every package entry with the given name gets the
/// given version.
pub fn release_lock(lock: &str, package: &str, version: &str) -> (res: Result<String, ManifestError>)
    ensures
        lock_result_view(res) == lock_release(lock@, package@, version@),
{
    let names = match lock_package_names(lock) {
        None => return Err(ManifestError::LockUnreadable),
        Some(n) => n,
    };
    let ghost nv = names@.map_values(|s: String| s@);
    let wanted = package.to_owned();
    let mut places: Vec<usize> = Vec::new();
    let mut i: usize = 0;
    while i < names.len()
        invariant
            i <= names.len(),
            nv == names@.map_values(|s: String| s@),
            wanted@ == package@,
            places@ == matching_places(nv.take(i as int), package@),
        decreases names.len() - i,
    {
        proof {
            assert(nv.take(i + 1).drop_last() =~= nv.take(i as int));
            assert(nv.take(i + 1).last() == names@[i as int]@);
        }
        if names[i].eq(&wanted) {
            places.push(i);
        }
        i = i + 1;
    }
    proof {
        assert(nv.take(names.len() as int) =~= nv);
    }
    match lock_with_versions(lock, &places, version) {
        None => Err(ManifestError::LockUnwritable),
        Some(t) => Ok(t),
    }
}

} // verus!
