use pake_shell::settings::{AppSettings, SettingsSource};
use pake_shell::state::AppState;

fn pretty(value: bool) -> String {
    let mut map = serde_json::Map::new();
    map.insert("run_in_background".to_string(), serde_json::Value::Bool(value));
    serde_json::to_string_pretty(&serde_json::Value::Object(map)).unwrap()
}

#[test]
fn missing_file_gives_default() {
    assert_eq!(AppSettings::load(None, true), AppSettings { run_in_background: true });
    assert_eq!(AppSettings::load(None, false), AppSettings { run_in_background: false });
}

#[test]
fn invalid_json_gives_default() {
    for text in ["", "not json", "{", "{\"run_in_background\": tru}", "[1, 2"] {
        assert_eq!(AppSettings::load(Some(text.to_string()), true).run_in_background, true);
        assert_eq!(AppSettings::load(Some(text.to_string()), false).run_in_background, false);
    }
}

#[test]
fn save_then_load_round_trips() {
    for value in [true, false] {
        let saved = AppSettings { run_in_background: value };
        for default in [true, false] {
            assert_eq!(AppSettings::load(Some(saved.save()), default), saved);
        }
    }
}

#[test]
fn saved_text_is_pretty_json() {
    assert_eq!(AppSettings { run_in_background: true }.save(), "{\n  \"run_in_background\": true\n}");
    assert_eq!(AppSettings { run_in_background: false }.save(), pretty(false));
    assert_eq!(AppSettings { run_in_background: true }.save(), pretty(true));
}

#[test]
fn stored_value_wins_over_default() {
    let text = "{ \"run_in_background\": false, \"theme\": \"dark\" }".to_string();
    assert_eq!(AppSettings::load(Some(text), true).run_in_background, false);
}

#[test]
fn missing_or_mistyped_member_gives_default() {
    let text = "{\"run_in_background\": \"yes\"}".to_string();
    assert_eq!(AppSettings::load(Some(text), true).run_in_background, true);
    let text = "{\"other\": false}".to_string();
    assert_eq!(AppSettings::load(Some(text), true).run_in_background, true);
    assert_eq!(AppSettings::load(Some("false".to_string()), true).run_in_background, true);
}

#[test]
fn member_decides() {
    assert_eq!(AppSettings::from_member(Some(false), true).run_in_background, false);
    assert_eq!(AppSettings::from_member(Some(true), false).run_in_background, true);
    assert_eq!(AppSettings::from_member(None, true).run_in_background, true);
}

#[test]
fn state_holds_settings() {
    let state = AppState::new(AppSettings { run_in_background: true });
    assert!(state.settings.run_in_background);
}

#[test]
fn load_reports_its_source() {
    let saved = AppSettings { run_in_background: false };
    assert_eq!(AppSettings::load_with_source(Some(saved.save()), true), (saved, SettingsSource::Stored));
    assert_eq!(
        AppSettings::load_with_source(None, true),
        (AppSettings { run_in_background: true }, SettingsSource::Absent)
    );
    assert_eq!(
        AppSettings::load_with_source(Some("{oops".to_string()), false),
        (AppSettings { run_in_background: false }, SettingsSource::Malformed)
    );
    assert_eq!(
        AppSettings::load_with_source(Some("{\"theme\": 1}".to_string()), true),
        (AppSettings { run_in_background: true }, SettingsSource::Unset)
    );
    assert_eq!(
        AppSettings::load_with_source(Some("[true]".to_string()), false),
        (AppSettings { run_in_background: false }, SettingsSource::Unset)
    );
}
