use cursor_helper::error::AuthError;
use cursor_helper::paths::{
    executable_candidates, join, reset_machine_id, resolve, ConfigPath, Environment, PathRole, Platform,
    ResetTargets,
};

fn text(s: &str) -> Option<String> {
    Some(String::from(s))
}

fn unix(home: &str) -> Environment {
    Environment { appdata: None, local_appdata: None, home: text(home) }
}

fn windows() -> Environment {
    Environment {
        appdata: text("C:\\Users\\u\\AppData\\Roaming"),
        local_appdata: text("C:\\Users\\u\\AppData\\Local"),
        home: text("C:\\Users\\u"),
    }
}

fn nothing() -> Environment {
    Environment { appdata: None, local_appdata: None, home: None }
}

fn at(role: PathRole, location: &str) -> Result<Option<ConfigPath>, AuthError> {
    Ok(Some(ConfigPath { role, location: String::from(location) }))
}

#[test]
fn join_puts_one_separator_between() {
    assert_eq!(join(Platform::Linux, "/home/u", "x"), "/home/u/x");
    assert_eq!(join(Platform::Linux, "/home/u/", "x"), "/home/u/x");
    assert_eq!(join(Platform::Linux, "", "x"), "x");
    assert_eq!(join(Platform::Linux, "/", "x"), "/x");
    assert_eq!(join(Platform::Linux, "a\\", "x"), "a\\/x");
    assert_eq!(join(Platform::Windows, "C:\\a", "x"), "C:\\a\\x");
    assert_eq!(join(Platform::Windows, "C:\\a\\", "x"), "C:\\a\\x");
    assert_eq!(join(Platform::Windows, "C:/a/", "x"), "C:/a/x");
    assert_eq!(join(Platform::Windows, "", "x"), "x");
    assert_eq!(join(Platform::MacOs, "/Users/ü", "Application Support"), "/Users/ü/Application Support");
}

#[test]
fn identity_file_on_each_platform() {
    assert_eq!(
        resolve(Platform::Linux, PathRole::IdentityFile, &unix("/home/u")),
        at(PathRole::IdentityFile, "/home/u/.config/Cursor/User/globalStorage/storage.json")
    );
    assert_eq!(
        resolve(Platform::Other, PathRole::IdentityFile, &unix("/home/u")),
        at(PathRole::IdentityFile, "/home/u/.config/Cursor/User/globalStorage/storage.json")
    );
    assert_eq!(
        resolve(Platform::MacOs, PathRole::IdentityFile, &unix("/Users/u")),
        at(PathRole::IdentityFile, "/Users/u/Library/Application Support/Cursor/User/globalStorage/storage.json")
    );
    assert_eq!(
        resolve(Platform::Windows, PathRole::IdentityFile, &windows()),
        at(PathRole::IdentityFile, "C:\\Users\\u\\AppData\\Roaming\\Cursor\\User\\globalStorage\\storage.json")
    );
}

#[test]
fn store_lies_beside_the_identity_file() {
    assert_eq!(
        resolve(Platform::Linux, PathRole::KeyValueStore, &unix("/home/u/")),
        at(PathRole::KeyValueStore, "/home/u/.config/Cursor/User/globalStorage/state.vscdb")
    );
    assert_eq!(
        resolve(Platform::Windows, PathRole::KeyValueStore, &windows()),
        at(PathRole::KeyValueStore, "C:\\Users\\u\\AppData\\Roaming\\Cursor\\User\\globalStorage\\state.vscdb")
    );
}

#[test]
fn script_on_each_platform() {
    assert_eq!(
        resolve(Platform::MacOs, PathRole::ScriptFile, &nothing()),
        at(PathRole::ScriptFile, "/Applications/Cursor.app/Contents/Resources/app/out/main.js")
    );
    assert_eq!(
        resolve(Platform::Windows, PathRole::ScriptFile, &windows()),
        at(PathRole::ScriptFile, "C:\\Users\\u\\AppData\\Local\\Programs\\cursor\\resources\\app\\out\\main.js")
    );
    assert_eq!(resolve(Platform::Linux, PathRole::ScriptFile, &unix("/home/u")), Ok(None));
    assert_eq!(resolve(Platform::Other, PathRole::ScriptFile, &nothing()), Ok(None));
}

#[test]
fn missing_environment_is_an_error() {
    assert_eq!(
        resolve(Platform::Windows, PathRole::IdentityFile, &unix("C:\\Users\\u")),
        Err(AuthError::Environment(String::from("APPDATA 环境变量未设置")))
    );
    assert_eq!(
        resolve(Platform::Windows, PathRole::ScriptFile, &nothing()),
        Err(AuthError::Environment(String::from("LOCALAPPDATA 环境变量未设置")))
    );
    assert_eq!(
        resolve(Platform::MacOs, PathRole::KeyValueStore, &nothing()),
        Err(AuthError::Environment(String::from("无法获取用户主目录")))
    );
    assert_eq!(
        resolve(Platform::Linux, PathRole::IdentityFile, &nothing()),
        Err(AuthError::Environment(String::from("无法获取用户主目录")))
    );
}

#[test]
fn reset_targets_name_the_document_and_the_script() {
    assert_eq!(
        reset_machine_id(Platform::MacOs, &unix("/Users/u")),
        Ok(ResetTargets {
            storage: String::from("/Users/u/Library/Application Support/Cursor/User/globalStorage/storage.json"),
            script: text("/Applications/Cursor.app/Contents/Resources/app/out/main.js"),
        })
    );
    assert_eq!(
        reset_machine_id(Platform::Linux, &unix("/home/u")),
        Ok(ResetTargets {
            storage: String::from("/home/u/.config/Cursor/User/globalStorage/storage.json"),
            script: None,
        })
    );
}

#[test]
fn reset_goes_on_without_a_script_whose_place_is_unknown() {
    let env = Environment { appdata: text("D:\\Roaming"), local_appdata: None, home: None };
    assert_eq!(
        reset_machine_id(Platform::Windows, &env),
        Ok(ResetTargets {
            storage: String::from("D:\\Roaming\\Cursor\\User\\globalStorage\\storage.json"),
            script: None,
        })
    );
    assert_eq!(
        reset_machine_id(Platform::Windows, &nothing()),
        Err(AuthError::Environment(String::from("APPDATA 环境变量未设置")))
    );
}

#[test]
fn executable_candidates_in_their_order() {
    assert_eq!(
        executable_candidates(Platform::Windows, &windows()),
        vec![
            String::from("C:\\Users\\u\\AppData\\Local\\Programs\\Cursor\\Cursor.exe"),
            String::from("C:\\Users\\u\\AppData\\Roaming\\Programs\\Cursor\\Cursor.exe"),
        ]
    );
    assert_eq!(
        executable_candidates(Platform::Windows, &nothing()),
        vec![String::from("Programs\\Cursor\\Cursor.exe"), String::from("Programs\\Cursor\\Cursor.exe")]
    );
    assert_eq!(
        executable_candidates(Platform::MacOs, &nothing()),
        vec![String::from("/Applications/Cursor.app/Contents/MacOS/Cursor")]
    );
    assert_eq!(
        executable_candidates(Platform::Linux, &nothing()),
        vec![String::from("/usr/bin/cursor"), String::from("/usr/local/bin/cursor")]
    );
    assert_eq!(executable_candidates(Platform::Other, &windows()), Vec::<String>::new());
}

#[test]
fn environment_with_home_keeps_the_variables() {
    let env = Environment::with_home(text("A"), None);
    assert_eq!(env.appdata, text("A"));
    assert_eq!(env.local_appdata, None);
    assert_eq!(env.home, dirs::home_dir().map(|dir| dir.to_string_lossy().into_owned()));
}

#[test]
fn unix_places_agree_with_the_standard_library() {
    let by_std = |base: &str, parts: &[&str]| {
        let mut path = std::path::PathBuf::from(base);
        for part in parts {
            path = path.join(part);
        }
        path.to_string_lossy().into_owned()
    };
    for home in ["/home/u", "/home/u/", "/", "", "relative/dir"] {
        assert_eq!(
            resolve(Platform::Linux, PathRole::IdentityFile, &unix(home)),
            at(PathRole::IdentityFile, &by_std(home, &[".config", "Cursor", "User", "globalStorage", "storage.json"]))
        );
        assert_eq!(
            resolve(Platform::MacOs, PathRole::KeyValueStore, &unix(home)),
            at(
                PathRole::KeyValueStore,
                &by_std(home, &["Library", "Application Support", "Cursor", "User", "globalStorage", "state.vscdb"])
            )
        );
    }
}
