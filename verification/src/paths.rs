//! Where the editor keeps its files, by operating system.
//!
//! The places are worked out from an `Environment` that is handed in, so that
//! the same question has the same answer on every machine. The one thing
//! that is read here is the home directory, in `Environment::with_home`.

use crate::error::AuthError;
use vstd::prelude::*;
use vstd::string::*;

verus! {

/// The operating systems that are told apart.
#[derive(Debug, Clone, Copy, PartialEq, Eq)]
pub enum Platform {
    Windows,
    MacOs,
    Linux,
    /// Any other system; it is treated as Unix-like.
    Other,
}

/// What the environment says of the places that paths start from.
#[derive(Debug, Clone, PartialEq, Eq)]
pub struct Environment {
    /// The value of `APPDATA`, if it is set.
    pub appdata: Option<String>,
    /// The value of `LOCALAPPDATA`, if it is set.
    pub local_appdata: Option<String>,
    /// The user's home directory, if it can be determined.
    pub home: Option<String>,
}

/// The user's home directory, from `dirs::home_dir`, as text. It depends on
/// the machine and the user, so nothing is claimed of it.
#[verifier::external_body]
fn home_directory() -> Option<String> {
    match dirs::home_dir() {
        Some(dir) => Some(dir.to_string_lossy().into_owned()),
        None => None,
    }
}

impl Environment {
    /// The environment of this process: the two variables as they are
    /// handed in, and the home directory as the system tells it.
    pub fn with_home(appdata: Option<String>, local_appdata: Option<String>) -> (r: Environment)
        ensures
            r.appdata == appdata,
            r.local_appdata == local_appdata,
    {
        Environment { appdata, local_appdata, home: home_directory() }
    }
}

/// The files that the operations work on.
#[derive(Debug, Clone, Copy, PartialEq, Eq)]
pub enum PathRole {
    /// The key-value store that holds the credentials.
    KeyValueStore,
    /// The JSON document that holds the device identity.
    IdentityFile,
    /// The script of the editor that gets patched.
    ScriptFile,
}

/// A location, tagged with the file it is the location of.
#[derive(Debug, Clone, PartialEq, Eq)]
pub struct ConfigPath {
    pub role: PathRole,
    pub location: String,
}

/// The character that the platform puts between the parts of a path.
pub open spec fn separator(platform: Platform) -> char {
    if platform is Windows {
        '\\'
    } else {
        '/'
    }
}

/// Whether the platform reads `c` as the end of a part of a path.
pub open spec fn is_separator(platform: Platform, c: char) -> bool {
    c == '/' || (platform is Windows && c == '\\')
}

/// `base` with the relative `part` below it: a separator goes between them
/// unless `base` is empty or ends in one already.
pub open spec fn joined(platform: Platform, base: Seq<char>, part: Seq<char>) -> Seq<char> {
    if base.len() == 0 || is_separator(platform, base.last()) {
        base + part
    } else {
        base.push(separator(platform)) + part
    }
}

/// `base` with each of `parts` below the one before.
pub open spec fn joined_all(platform: Platform, base: Seq<char>, parts: Seq<Seq<char>>) -> Seq<char>
    decreases parts.len(),
{
    if parts.len() == 0 {
        base
    } else {
        joined(platform, joined_all(platform, base, parts.drop_last()), parts.last())
    }
}

/// Puts the relative `part` below `base`.
pub fn join(platform: Platform, base: &str, part: &str) -> (r: String)
    ensures
        r@ == joined(platform, base@, part@),
{
    let n = base.unicode_len();
    let mut out = base.to_owned();
    if n > 0 {
        let last = base.get_char(n - 1);
        let ends_in_separator = last == '/' || (matches!(platform, Platform::Windows) && last == '\\');
        if !ends_in_separator {
            proof {
                reveal_strlit("\\");
                reveal_strlit("/");
            }
            if matches!(platform, Platform::Windows) {
                out.append("\\");
                assert(out@ =~= base@.push('\\'));
            } else {
                out.append("/");
                assert(out@ =~= base@.push('/'));
            }
        }
    }
    out.append(part);
    out
}

/// The parts that lead from the platform's base directory to the directory
/// in which the editor keeps its global state.
pub open spec fn storage_parts(platform: Platform) -> Seq<Seq<char>> {
    match platform {
        Platform::Windows => seq!["Cursor"@, "User"@, "globalStorage"@],
        Platform::MacOs => seq!["Library"@, "Application Support"@, "Cursor"@, "User"@, "globalStorage"@],
        _ => seq![".config"@, "Cursor"@, "User"@, "globalStorage"@],
    }
}

/// The name of the file that has `role` within the global state.
pub open spec fn storage_file(role: PathRole) -> Seq<char> {
    if role is KeyValueStore {
        "state.vscdb"@
    } else {
        "storage.json"@
    }
}

/// The parts that lead from `LOCALAPPDATA` to the editor's script on Windows.
pub open spec fn script_parts() -> Seq<Seq<char>> {
    seq!["Programs"@, "cursor"@, "resources"@, "app"@, "out"@, "main.js"@]
}

/// The place of the editor's script on macOS.
pub open spec fn macos_script() -> Seq<char> {
    "/Applications/Cursor.app/Contents/Resources/app/out/main.js"@
}

/// The directory that the platform's storage paths start from, if the
/// environment tells it: `APPDATA` on Windows, the home directory elsewhere.
pub open spec fn storage_base(platform: Platform, env: Environment) -> Option<Seq<char>> {
    match platform {
        Platform::Windows => match env.appdata {
            Some(dir) => Some(dir@),
            None => None,
        },
        _ => match env.home {
            Some(dir) => Some(dir@),
            None => None,
        },
    }
}

/// What resolving a role comes to, as mathematics.
pub ghost enum Resolution {
    /// The file is at this place.
    At(Seq<char>),
    /// The platform has no such file.
    Nowhere,
    /// The environment does not tell what the place depends on.
    Unknown,
}

/// The place of the file that has `role`.
///
/// The store and the identity document lie in the editor's global state,
/// below the platform's base directory. The script lies at a fixed place on
/// macOS, below `LOCALAPPDATA` on Windows, and nowhere on other systems.
pub open spec fn resolution(platform: Platform, role: PathRole, env: Environment) -> Resolution {
    match role {
        PathRole::ScriptFile => match platform {
            Platform::MacOs => Resolution::At(macos_script()),
            Platform::Windows => match env.local_appdata {
                Some(dir) => Resolution::At(joined_all(platform, dir@, script_parts())),
                None => Resolution::Unknown,
            },
            _ => Resolution::Nowhere,
        },
        _ => match storage_base(platform, env) {
            Some(base) => Resolution::At(
                joined(platform, joined_all(platform, base, storage_parts(platform)), storage_file(role)),
            ),
            None => Resolution::Unknown,
        },
    }
}

/// What the error says that is returned where the environment does not tell
/// the place of the file.
pub open spec fn unresolved_text(platform: Platform, role: PathRole) -> Seq<char> {
    if !(platform is Windows) {
        "无法获取用户主目录"@
    } else if role is ScriptFile {
        "LOCALAPPDATA 环境变量未设置"@
    } else {
        "APPDATA 环境变量未设置"@
    }
}

/// The texts of a list of parts.
pub open spec fn texts(parts: Seq<&'static str>) -> Seq<Seq<char>> {
    parts.map_values(|part: &'static str| part@)
}

/// Puts each of `parts` below the one before, starting below `base`.
fn join_all(platform: Platform, base: &str, parts: &Vec<&'static str>) -> (r: String)
    ensures
        r@ == joined_all(platform, base@, texts(parts@)),
{
    let mut out = base.to_owned();
    let mut i: usize = 0;
    while i < parts.len()
        invariant
            i <= parts.len(),
            out@ == joined_all(platform, base@, texts(parts@.take(i as int))),
        decreases parts.len() - i,
    {
        proof {
            let upto = texts(parts@.take(i + 1));
            assert(upto.drop_last() =~= texts(parts@.take(i as int)));
            assert(upto.last() == parts@[i as int]@);
        }
        out = join(platform, out.as_str(), parts[i]);
        i += 1;
    }
    assert(parts@.take(parts.len() as int) =~= parts@);
    out
}

fn storage_directory(platform: Platform, base: &str) -> (r: String)
    ensures
        r@ == joined_all(platform, base@, storage_parts(platform)),
{
    let parts = match platform {
        Platform::Windows => vec!["Cursor", "User", "globalStorage"],
        Platform::MacOs => vec!["Library", "Application Support", "Cursor", "User", "globalStorage"],
        _ => vec![".config", "Cursor", "User", "globalStorage"],
    };
    assert(texts(parts@) =~= storage_parts(platform));
    join_all(platform, base, &parts)
}

/// The error for a file whose place the environment does not tell.
fn unresolved(platform: Platform, role: PathRole) -> (r: AuthError)
    ensures
        r matches AuthError::Environment(text) && text@ == unresolved_text(platform, role),
{
    if !matches!(platform, Platform::Windows) {
        AuthError::Environment("无法获取用户主目录".to_owned())
    } else if matches!(role, PathRole::ScriptFile) {
        AuthError::Environment("LOCALAPPDATA 环境变量未设置".to_owned())
    } else {
        AuthError::Environment("APPDATA 环境变量未设置".to_owned())
    }
}

/// What a result of `resolve` stands for.
pub open spec fn resolution_of(r: Result<Option<ConfigPath>, AuthError>) -> Resolution {
    match r {
        Ok(Some(path)) => Resolution::At(path.location@),
        Ok(None) => Resolution::Nowhere,
        Err(_) => Resolution::Unknown,
    }
}

/// The place of the store or of the identity document.
pub(crate) fn storage_path(platform: Platform, role: PathRole, env: &Environment) -> (r: Result<String, AuthError>)
    requires
        !(role is ScriptFile),
    ensures
        match r {
            Ok(place) => resolution(platform, role, *env) == Resolution::At(place@),
            Err(e) => {
                &&& resolution(platform, role, *env) is Unknown
                &&& e matches AuthError::Environment(text)
                &&& text@ == unresolved_text(platform, role)
            },
        },
{
    let base = match platform {
        Platform::Windows => &env.appdata,
        _ => &env.home,
    };
    match base {
        Some(dir) => {
            let directory = storage_directory(platform, dir.as_str());
            let file = if matches!(role, PathRole::KeyValueStore) {
                "state.vscdb"
            } else {
                "storage.json"
            };
            Ok(join(platform, directory.as_str(), file))
        },
        None => Err(unresolved(platform, role)),
    }
}

/// The place of the script, where the platform has one.
fn script_path(platform: Platform, env: &Environment) -> (r: Result<Option<String>, AuthError>)
    ensures
        match r {
            Ok(Some(place)) => resolution(platform, PathRole::ScriptFile, *env) == Resolution::At(place@),
            Ok(None) => resolution(platform, PathRole::ScriptFile, *env) is Nowhere,
            Err(e) => {
                &&& resolution(platform, PathRole::ScriptFile, *env) is Unknown
                &&& e matches AuthError::Environment(text)
                &&& text@ == unresolved_text(platform, PathRole::ScriptFile)
            },
        },
{
    match platform {
        Platform::MacOs => Ok(Some("/Applications/Cursor.app/Contents/Resources/app/out/main.js".to_owned())),
        Platform::Windows => match &env.local_appdata {
            Some(dir) => {
                let parts = vec!["Programs", "cursor", "resources", "app", "out", "main.js"];
                assert(texts(parts@) =~= script_parts());
                Ok(Some(join_all(platform, dir.as_str(), &parts)))
            },
            None => Err(unresolved(platform, PathRole::ScriptFile)),
        },
        _ => Ok(None),
    }
}

/// Finds the file that has `role`.
///
/// The answer is the place of the file, tagged with `role`; `None` where the
/// platform has no such file; and an `Environment` error, naming what is
/// missing, where the environment does not tell the place.
pub fn resolve(platform: Platform, role: PathRole, env: &Environment) -> (r: Result<Option<ConfigPath>, AuthError>)
    ensures
        resolution_of(r) == resolution(platform, role, *env),
        r matches Ok(Some(path)) ==> path.role == role,
        r matches Err(e) ==> e matches AuthError::Environment(text) && text@ == unresolved_text(platform, role),
{
    match role {
        PathRole::ScriptFile => match script_path(platform, env) {
            Ok(Some(location)) => Ok(Some(ConfigPath { role, location })),
            Ok(None) => Ok(None),
            Err(e) => Err(e),
        },
        _ => match storage_path(platform, role, env) {
            Ok(location) => Ok(Some(ConfigPath { role, location })),
            Err(e) => Err(e),
        },
    }
}

/// The parts that lead from a base directory to the editor's executable on
/// Windows.
pub open spec fn executable_parts() -> Seq<Seq<char>> {
    seq!["Programs"@, "Cursor"@, "Cursor.exe"@]
}

/// The text of an optional directory; the empty text where there is none.
pub open spec fn or_empty(dir: Option<String>) -> Seq<char> {
    match dir {
        Some(dir) => dir@,
        None => Seq::empty(),
    }
}

/// The places where the editor's executable is conventionally installed, in
/// the order in which they are to be tried.
///
/// On Windows a variable that is not set counts as the empty text, so that
/// its candidate is a relative path.
pub open spec fn candidate_places(platform: Platform, env: Environment) -> Seq<Seq<char>> {
    match platform {
        Platform::Windows => seq![
            joined_all(platform, or_empty(env.local_appdata), executable_parts()),
            joined_all(platform, or_empty(env.appdata), executable_parts()),
        ],
        Platform::MacOs => seq!["/Applications/Cursor.app/Contents/MacOS/Cursor"@],
        Platform::Linux => seq!["/usr/bin/cursor"@, "/usr/local/bin/cursor"@],
        Platform::Other => Seq::empty(),
    }
}

/// The texts of a list of strings.
pub open spec fn places(list: Seq<String>) -> Seq<Seq<char>> {
    list.map_values(|place: String| place@)
}

fn windows_candidate(dir: &Option<String>) -> (r: String)
    ensures
        r@ == joined_all(Platform::Windows, or_empty(*dir), executable_parts()),
{
    let parts = vec!["Programs", "Cursor", "Cursor.exe"];
    assert(texts(parts@) =~= executable_parts());
    match dir {
        Some(dir) => join_all(Platform::Windows, dir.as_str(), &parts),
        None => {
            proof {
                reveal_strlit("");
            }
            assert(""@ =~= Seq::<char>::empty());
            join_all(Platform::Windows, "", &parts)
        },
    }
}

/// Lists the places to try for the editor's executable.
pub fn executable_candidates(platform: Platform, env: &Environment) -> (r: Vec<String>)
    ensures
        places(r@) == candidate_places(platform, *env),
{
    let mut list: Vec<String> = Vec::new();
    match platform {
        Platform::Windows => {
            list.push(windows_candidate(&env.local_appdata));
            list.push(windows_candidate(&env.appdata));
        },
        Platform::MacOs => {
            list.push("/Applications/Cursor.app/Contents/MacOS/Cursor".to_owned());
        },
        Platform::Linux => {
            list.push("/usr/bin/cursor".to_owned());
            list.push("/usr/local/bin/cursor".to_owned());
        },
        Platform::Other => {},
    }
    assert(places(list@) =~= candidate_places(platform, *env));
    list
}

/// The files that an identity reset works on.
#[derive(Debug, Clone, PartialEq, Eq)]
pub struct ResetTargets {
    /// The identity document.
    pub storage: String,
    /// The script to patch, where there is one to look for.
    pub script: Option<String>,
}

/// The place of the script, where resolving it gives one.
pub open spec fn script_target(platform: Platform, env: Environment) -> Option<Seq<char>> {
    match resolution(platform, PathRole::ScriptFile, env) {
        Resolution::At(place) => Some(place),
        _ => None,
    }
}

/// Names the files of an identity reset.
///
/// The reset needs the identity document, so it fails where the place of
/// that document is unknown. The script is patched where there is one: a
/// script whose place is not known is left alone, and that is no failure.
pub fn reset_machine_id(platform: Platform, env: &Environment) -> (r: Result<ResetTargets, AuthError>)
    ensures
        match r {
            Ok(targets) => {
                &&& resolution(platform, PathRole::IdentityFile, *env) == Resolution::At(targets.storage@)
                &&& match targets.script {
                    Some(place) => script_target(platform, *env) == Some(place@),
                    None => script_target(platform, *env) is None,
                }
            },
            Err(e) => {
                &&& resolution(platform, PathRole::IdentityFile, *env) is Unknown
                &&& e matches AuthError::Environment(text)
                &&& text@ == unresolved_text(platform, PathRole::IdentityFile)
            },
        },
{
    let storage = match storage_path(platform, PathRole::IdentityFile, env) {
        Ok(place) => place,
        Err(e) => {
            return Err(e);
        },
    };
    let script = match script_path(platform, env) {
        Ok(place) => place,
        Err(_) => None,
    };
    Ok(ResetTargets { storage, script })
}

} // verus!
