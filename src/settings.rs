use vstd::prelude::*;

verus! {

/// Whether serde_json accepts `text` as one JSON document.
pub uninterp spec fn is_json(text: Seq<char>) -> bool;

/// The boolean that serde_json finds under `key` in the top-level object of
/// the JSON document `text`, if there is one.
pub uninterp spec fn json_bool_member(text: Seq<char>, key: Seq<char>) -> Option<bool>;

/// Relies on serde_json::from_str::<serde_json::Value>, then
/// serde_json::Value::get and serde_json::Value::as_bool: whether `text` is
/// JSON, and the boolean member `key` of the document. A text that is not
/// JSON has no member, and the stored form of the settings holds its
/// preference under its key.
#[verifier::external_body]
fn bool_member(text: &str, key: &str) -> (r: (bool, Option<bool>))
    ensures
        r.0 == is_json(text@),
        r.1 == json_bool_member(text@, key@),
        !r.0 ==> r.1 is None,
        forall|b: bool|
            text@ == settings_json(b) && key@ == "run_in_background"@ ==> r.1 == Some(b),
{
    match serde_json::from_str::<serde_json::Value>(text) {
        Ok(v) => (true, v.get(key).and_then(serde_json::Value::as_bool)),
        Err(_) => (false, None),
    }
}

/// Relies on serde_json::Map::insert, serde_json::Value::Bool and
/// serde_json::to_string_pretty: the pretty-printed JSON object whose one
/// member is `key` with `value`. Serialising a `Value` cannot fail.
#[verifier::external_body]
fn pretty_bool_object(key: &str, value: bool) -> (r: String)
    ensures
        key@ == "run_in_background"@ ==> r@ == settings_json(value),
{
    let mut map = serde_json::Map::new();
    map.insert(key.to_string(), serde_json::Value::Bool(value));
    serde_json::to_string_pretty(&serde_json::Value::Object(map)).unwrap_or_default()
}

/// The key under which the preference is stored.
pub const RUN_IN_BACKGROUND_KEY: &'static str = "run_in_background";

/// The stored form of settings whose preference is `run_in_background`:
/// pretty-printed JSON, `{"run_in_background": <bool>}` with two-space
/// indentation.
pub open spec fn settings_json(run_in_background: bool) -> Seq<char> {
    "{\n  \"run_in_background\": "@ + (if run_in_background {
        "true"@
    } else {
        "false"@
    }) + "\n}"@
}

/// The preference read from the settings file's text (`None`: no file):
/// the document's boolean `run_in_background` member, else the default.
pub open spec fn loaded(stored: Option<Seq<char>>, default_run_in_background: bool) -> bool {
    match stored {
        Some(text) => match json_bool_member(text, "run_in_background"@) {
            Some(b) => b,
            None => default_run_in_background,
        },
        None => default_run_in_background,
    }
}

/// Where loaded settings came from.
#[derive(Clone, Copy, Debug, PartialEq, Eq, Structural)]
pub enum SettingsSource {
    /// The file's boolean `run_in_background` member.
    Stored,
    /// The default: there is no settings file.
    Absent,
    /// The default: the file is not JSON.
    Malformed,
    /// The default: the file is JSON without a boolean `run_in_background`.
    Unset,
}

/// Where the preference comes from, given the settings file's text.
pub open spec fn load_source(stored: Option<Seq<char>>) -> SettingsSource {
    match stored {
        None => SettingsSource::Absent,
        Some(text) => if !is_json(text) {
            SettingsSource::Malformed
        } else if json_bool_member(text, "run_in_background"@) is Some {
            SettingsSource::Stored
        } else {
            SettingsSource::Unset
        },
    }
}

/// The view of what the settings file holds.
pub open spec fn stored_view(stored: Option<String>) -> Option<Seq<char>> {
    match stored {
        Some(text) => Some(text@),
        None => None,
    }
}

/// The user's preferences, persisted between runs.
#[derive(Clone, Copy, Debug, PartialEq, Eq, Structural)]
pub struct AppSettings {
    pub run_in_background: bool,
}

impl AppSettings {
    /// Settings from the preference found in a stored document: the stored
    /// value when there is one, the default otherwise.
    pub fn from_member(member: Option<bool>, default_run_in_background: bool) -> (r: AppSettings)
        ensures
            r.run_in_background == (match member {
                Some(b) => b,
                None => default_run_in_background,
            }),
    {
        match member {
            Some(b) => AppSettings { run_in_background: b },
            None => AppSettings { run_in_background: default_run_in_background },
        }
    }

    /// Settings from what the settings file holds (`None`: no file, or one
    /// that could not be read), and where they came from. A missing file, or
    /// one that is not JSON, gives the default, never an error; a JSON
    /// document gives its `run_in_background` member when that is a
    /// boolean, the default otherwise. What `save` wrote reads back unchanged.
    pub fn load_with_source(stored: Option<String>, default_run_in_background: bool) -> (r: (
        AppSettings,
        SettingsSource,
    ))
        ensures
            r.0.run_in_background == loaded(stored_view(stored), default_run_in_background),
            r.1 == load_source(stored_view(stored)),
            r.1 != SettingsSource::Stored ==> r.0.run_in_background == default_run_in_background,
            forall|saved: AppSettings|
                stored matches Some(text) && text@ == settings_json(#[trigger] saved.run_in_background)
                    ==> r.0 == saved && r.1 == SettingsSource::Stored,
    {
        proof {
            reveal_strlit("run_in_background");
        }
        match &stored {
            None => (
                AppSettings::from_member(None, default_run_in_background),
                SettingsSource::Absent,
            ),
            Some(text) => {
                let (is_json_text, member) = bool_member(text.as_str(), RUN_IN_BACKGROUND_KEY);
                let source = if !is_json_text {
                    SettingsSource::Malformed
                } else if member.is_some() {
                    SettingsSource::Stored
                } else {
                    SettingsSource::Unset
                };
                (AppSettings::from_member(member, default_run_in_background), source)
            },
        }
    }

    /// Settings from what the settings file holds, as `load_with_source`
    /// gives them.
    pub fn load(stored: Option<String>, default_run_in_background: bool) -> (r: AppSettings)
        ensures
            r.run_in_background == loaded(stored_view(stored), default_run_in_background),
            stored is None ==> r.run_in_background == default_run_in_background,
            stored matches Some(text) && !is_json(text@) ==> r.run_in_background
                == default_run_in_background,
            forall|saved: AppSettings|
                stored matches Some(text) && text@ == settings_json(#[trigger] saved.run_in_background)
                    ==> r == saved,
    {
        AppSettings::load_with_source(stored, default_run_in_background).0
    }

    /// The text to store in the settings file: `settings_json` of the
    /// preference.
    pub fn save(&self) -> (r: String)
        ensures
            r@ == settings_json(self.run_in_background),
    {
        proof {
            reveal_strlit("run_in_background");
        }
        pretty_bool_object(RUN_IN_BACKGROUND_KEY, self.run_in_background)
    }
}

} // verus!
