//! Where the default budget repository is remembered, and the folders the
//! setup flow suggests.
use vstd::prelude::*;

use crate::setup::answers::{expand_home_path, expanded_path};
use crate::text::{owned, push_str};

verus! {

/// The version of the locator file this library reads and writes.
pub const LOCATOR_SCHEMA_VERSION: u32 = 1;

/// Stores and loads the default budget repository path outside the repo itself.
#[derive(Clone, Debug)]
pub struct RepoLocator {
    config_path: String,
}

impl View for RepoLocator {
    type V = Seq<char>;

    /// The path of the locator file.
    closed spec fn view(&self) -> Seq<char> {
        self.config_path@
    }
}

/// A path joined with one more component, as `Path::join` builds it.
pub uninterp spec fn joined_path(base: Seq<char>, part: Seq<char>) -> Seq<char>;

/// Joins a path component (wraps `std::path::Path::join`, read back as text).
///
/// Its result is named [`joined_path`]: the standard library appends the
/// component after a separator, or replaces the path with an absolute
/// component; that is not restated here.
#[verifier::external_body]
fn join_path(base: &str, part: &str) -> (r: String)
    ensures
        r@ == joined_path(base@, part@),
{
    std::path::Path::new(base).join(part).to_string_lossy().into_owned()
}

/// The user's home folder (wraps `dirs::home_dir`, as text).
///
/// It depends on the environment, so nothing is promised of it.
#[verifier::external_body]
fn home_dir() -> (r: Option<String>) {
    dirs::home_dir().and_then(|path| path.to_str().map(|text| text.to_owned()))
}

/// The user's configuration folder (wraps `dirs::config_dir`, as text).
///
/// It depends on the environment, so nothing is promised of it.
#[verifier::external_body]
fn config_dir() -> (r: Option<String>) {
    dirs::config_dir().and_then(|path| path.to_str().map(|text| text.to_owned()))
}

impl RepoLocator {
    /// Builds a locator that persists to the provided config path.
    pub fn new(config_path: String) -> (r: Self)
        ensures
            r@ == config_path@,
    {
        RepoLocator { config_path }
    }

    /// The file the locator is kept in.
    pub fn config_path(&self) -> (r: &String)
        ensures
            r@ == self@,
    {
        &self.config_path
    }

    /// The locator kept at `jt-budget/config.toml` in the user's
    /// configuration folder, when that folder is known.
    pub fn for_current_user() -> (r: Result<Self, String>)
        ensures
            match r {
                Ok(l) => exists|dir: Seq<char>|
                    l@ == joined_path(joined_path(dir, "jt-budget"@), "config.toml"@),
                Err(m) => m@ == "could not determine config directory"@,
            },
    {
        match config_dir() {
            Some(dir) => {
                let app_dir = join_path(dir.as_str(), "jt-budget");
                let path = join_path(app_dir.as_str(), "config.toml");
                Ok(RepoLocator { config_path: path })
            },
            None => Err(owned("could not determine config directory")),
        }
    }
}

/// Checks the contents of a locator file: its schema version must be the
/// one this library writes, and it must name a repository.
pub fn check_locator_file(display: &str, version: u32, repo: String) -> (r: Result<String, String>)
    ensures
        match r {
            Ok(p) => version == LOCATOR_SCHEMA_VERSION && repo@.len() > 0 && p == repo,
            Err(m) => if version != LOCATOR_SCHEMA_VERSION {
                m@ == "locator `"@ + display@ + "` uses unsupported schema version "@
                    + crate::text::int_text(version as int)
            } else {
                repo@.len() == 0 && m@ == "locator `"@ + display@ + "` is missing a repository path"@
            },
        },
{
    if version != LOCATOR_SCHEMA_VERSION {
        let mut m = owned("locator `");
        push_str(&mut m, display);
        push_str(&mut m, "` uses unsupported schema version ");
        crate::digits::push_padded(&mut m, version as i64, 0);
        return Err(m);
    }
    if repo.as_str().unicode_len() == 0 {
        let mut m = owned("locator `");
        push_str(&mut m, display);
        push_str(&mut m, "` is missing a repository path");
        return Err(m);
    }
    Ok(repo)
}

/// The repository path a setup answer names, with a leading `~` taken from
/// the home folder.
pub fn expand_home(input: &str) -> (r: Result<String, String>)
    ensures
        !(input@ == seq!['~'] || (input@.len() >= 2 && input@[0] == '~' && input@[1] == '/')) ==> (r
            matches Ok(p) && p@ == input@),
        r matches Ok(p) ==> exists|home: Option<Seq<char>>|
            expanded_path(input@, home) == Ok::<Seq<char>, Seq<char>>(p@),
        r matches Err(m) ==> expanded_path(input@, None) == Err::<Seq<char>, Seq<char>>(m@),
{
    let v = crate::text::chars_of(input);
    let needs_home = (v.len() == 1 && v[0] == '~') || (v.len() >= 2 && v[0] == '~' && v[1] == '/');
    proof {
        if v@ == seq!['~'] {
            assert(v@.len() == 1 && v@[0] == '~');
        }
    }
    if needs_home {
        expand_home_path(input, home_dir())
    } else {
        expand_home_path(input, None)
    }
}

/// The repository folder setup suggests: `budget` in the home folder, or in
/// the working folder when the home folder is unknown.
pub fn default_repo_path() -> (r: String)
    ensures
        exists|base: Seq<char>| r@ == joined_path(base, "budget"@),
{
    let base = match home_dir() {
        Some(home) => home,
        None => owned("."),
    };
    join_path(base.as_str(), "budget")
}

} // verus!
