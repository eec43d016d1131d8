use invoke::orbs::OrbType;
use invoke::settings::{Key, Settings, SettingsError, UserSettings};

fn user(quas: &str, wex: &str, exort: &str, invoke: &str) -> UserSettings {
    UserSettings {
        window_width: 800,
        window_height: 600,
        quas_key: quas.to_string(),
        wex_key: wex.to_string(),
        exort_key: exort.to_string(),
        invoke_key: invoke.to_string(),
    }
}

#[test]
fn default_settings() {
    let user = UserSettings::default();
    assert_eq!(user.window_width, 1024);
    assert_eq!(user.window_height, 1024);
    assert_eq!(user.quas_key, "Q");
    assert_eq!(user.wex_key, "W");
    assert_eq!(user.exort_key, "E");
    assert_eq!(user.invoke_key, "R");
    let settings = Settings::new(&user).unwrap();
    assert_eq!(
        settings,
        Settings {
            window_width: 1024,
            window_height: 1024,
            quas_key: Key::Letter('Q'),
            wex_key: Key::Letter('W'),
            exort_key: Key::Letter('E'),
            invoke_key: Key::Letter('R'),
        }
    );
    assert!(settings.has_spawn_room());
}

#[test]
fn key_names_are_single_upper_case_letters() {
    assert_eq!(Settings::string_to_keycode("A"), Some(Key::Letter('A')));
    assert_eq!(Settings::string_to_keycode("M"), Some(Key::Letter('M')));
    assert_eq!(Settings::string_to_keycode("Z"), Some(Key::Letter('Z')));
    assert_eq!(Settings::string_to_keycode("a"), None);
    assert_eq!(Settings::string_to_keycode(""), None);
    assert_eq!(Settings::string_to_keycode("AB"), None);
    assert_eq!(Settings::string_to_keycode("1"), None);
    assert_eq!(Settings::string_to_keycode("@"), None);
    assert_eq!(Settings::string_to_keycode("["), None);
    assert_eq!(Settings::string_to_keycode("É"), None);
    assert_eq!(Settings::string_to_keycode("Escape"), None);
}

#[test]
fn settings_keep_sizes_and_bindings() {
    let settings = Settings::new(&user("A", "S", "D", "F")).unwrap();
    assert_eq!(settings.window_width, 800);
    assert_eq!(settings.window_height, 600);
    assert_eq!(settings.quas_key, Key::Letter('A'));
    assert_eq!(settings.wex_key, Key::Letter('S'));
    assert_eq!(settings.exort_key, Key::Letter('D'));
    assert_eq!(settings.invoke_key, Key::Letter('F'));
}

#[test]
fn first_bad_binding_is_named() {
    assert_eq!(Settings::new(&user("q", "W", "E", "R")), Err(SettingsError::QuasKey));
    assert_eq!(Settings::new(&user("Q", "", "E", "R")), Err(SettingsError::WexKey));
    assert_eq!(Settings::new(&user("Q", "W", "EE", "R")), Err(SettingsError::ExortKey));
    assert_eq!(Settings::new(&user("Q", "W", "E", "Return")), Err(SettingsError::InvokeKey));
    assert_eq!(Settings::new(&user("Q", "5", "E", "?")), Err(SettingsError::WexKey));
    assert_eq!(Settings::new(&user("", "", "", "")), Err(SettingsError::QuasKey));
}

#[test]
fn bound_keys_give_their_orbs() {
    let settings = Settings::new(&user("A", "S", "D", "F")).unwrap();
    assert_eq!(settings.orb_for(Key::Letter('A')), Some(OrbType::Quas));
    assert_eq!(settings.orb_for(Key::Letter('S')), Some(OrbType::Wex));
    assert_eq!(settings.orb_for(Key::Letter('D')), Some(OrbType::Exort));
    assert_eq!(settings.orb_for(Key::Letter('F')), Some(OrbType::Invoke));
    assert_eq!(settings.orb_for(Key::Letter('Q')), None);
    assert_eq!(settings.orb_for(Key::Return), None);
    assert_eq!(settings.orb_for(Key::Escape), None);
    assert_eq!(settings.orb_for(Key::Other), None);
}

#[test]
fn a_key_bound_twice_keeps_its_last_binding() {
    let settings = Settings::new(&user("A", "A", "D", "F")).unwrap();
    assert_eq!(settings.orb_for(Key::Letter('A')), Some(OrbType::Wex));
    let settings = Settings::new(&user("A", "A", "A", "F")).unwrap();
    assert_eq!(settings.orb_for(Key::Letter('A')), Some(OrbType::Exort));
    let settings = Settings::new(&user("A", "S", "D", "A")).unwrap();
    assert_eq!(settings.orb_for(Key::Letter('A')), Some(OrbType::Invoke));
}

#[test]
fn spawn_room_needs_more_than_both_margins() {
    let mut settings = Settings::new(&UserSettings::default()).unwrap();
    settings.window_width = 144;
    assert!(!settings.has_spawn_room());
    settings.window_width = 145;
    assert!(settings.has_spawn_room());
    settings.window_width = 0;
    assert!(!settings.has_spawn_room());
}
