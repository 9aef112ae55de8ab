//! The settings that the embedded server is started with.

use vstd::prelude::*;

use crate::layout::{data_dir, data_dir_of, installation_dir, installation_dir_of, password_file, password_file_of, PG_VERSION};

verus! {

#[verifier::external_type_specification]
#[verifier::external_body]
pub struct ExVersionReq(semver::VersionReq);

#[verifier::external_type_specification]
#[verifier::external_body]
pub struct ExSemverError(semver::Error);

/// Whether semver accepts `text` as a version requirement.
pub uninterp spec fn version_req_parses(text: Seq<char>) -> bool;

/// Relies on `semver::VersionReq::parse`: it succeeds exactly on the texts
/// that semver's grammar of requirements accepts, whatever the call.
#[verifier::external_body]
fn parse_version_req(text: &str) -> (r: Result<semver::VersionReq, semver::Error>)
    ensures
        r is Ok == version_req_parses(text@),
{
    semver::VersionReq::parse(text)
}

/// Why the server's settings could not be made.
#[derive(Debug, PartialEq, Eq, Structural)]
pub enum SettingsError {
    /// The version requirement is not valid semver.
    InvalidVersion,
}

/// The requirement that pins exactly the server version `version`: `=<version>`.
pub open spec fn exact_requirement(version: Seq<char>) -> Seq<char> {
    seq!['='] + version
}

/// Settings of the embedded server: where it is installed, where its data
/// and password live, and which version it runs. They are fixed before the
/// server starts.
#[derive(Debug)]
pub struct ServerSettings {
    pub installation_dir: String,
    pub data_dir: String,
    pub password_file: String,
    /// The password kept from an earlier run; `None` lets the server make one.
    pub password: Option<String>,
    /// Whether the data directory is removed when the server stops.
    pub temporary: bool,
    pub version: semver::VersionReq,
}

/// The text `=<version>`.
pub fn exact_version_requirement(version: &str) -> (r: String)
    ensures
        r@ == exact_requirement(version@),
{
    let mut r = "=".to_owned();
    proof {
        reveal_strlit("=");
    }
    r.append(version);
    r
}

/// Settings for a server kept under `storage`, whose data outlives the run,
/// pinned to `PG_VERSION`. `stored_password` is the content of the password
/// file where one was found.
pub fn server_settings(storage: &str, stored_password: Option<String>) -> (r: Result<ServerSettings, SettingsError>)
    ensures
        r is Ok == version_req_parses(exact_requirement(PG_VERSION@)),
        r is Err ==> r == Err::<ServerSettings, SettingsError>(SettingsError::InvalidVersion),
        r matches Ok(s) ==> {
            &&& s.installation_dir@ == installation_dir_of(storage@)
            &&& s.data_dir@ == data_dir_of(storage@)
            &&& s.password_file@ == password_file_of(storage@)
            &&& s.password == stored_password
            &&& !s.temporary
        },
{
    let requirement = exact_version_requirement(PG_VERSION);
    match parse_version_req(requirement.as_str()) {
        Ok(version) => Ok(
            ServerSettings {
                installation_dir: installation_dir(storage),
                data_dir: data_dir(storage),
                password_file: password_file(storage),
                password: stored_password,
                temporary: false,
                version,
            },
        ),
        Err(_) => Err(SettingsError::InvalidVersion),
    }
}

} // verus!
