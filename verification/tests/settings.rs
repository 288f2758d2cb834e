use dictation_core::settings::{
    default_always_on_microphone, default_model, default_shortcut, default_transcribe_binding,
    default_translate_to_english, get_bindings, get_default_settings, get_settings,
    get_stored_binding, load_or_create_app_settings, AppSettings, Platform, ShortcutBinding,
    StoredSettings,
};
use dictation_core::utils::{tray_icon_path, TrayIconState};

fn binding(id: &str, shortcut: &str) -> ShortcutBinding {
    ShortcutBinding {
        id: id.to_string(),
        name: id.to_uppercase(),
        description: format!("about {}", id),
        default_binding: shortcut.to_string(),
        current_binding: shortcut.to_string(),
    }
}

#[test]
fn field_defaults() {
    assert_eq!(default_model(), "");
    assert!(!default_always_on_microphone());
    assert!(!default_translate_to_english());
}

#[test]
fn default_shortcut_by_platform() {
    assert_eq!(default_shortcut(Platform::Windows), "ctrl+space");
    assert_eq!(default_shortcut(Platform::Linux), "ctrl+space");
    assert_eq!(default_shortcut(Platform::MacOs), "alt+space");
    assert_eq!(default_shortcut(Platform::Other), "alt+space");
}

#[test]
fn default_binding_is_transcribe() {
    let binding = default_transcribe_binding(Platform::MacOs);
    assert_eq!(binding.id, "transcribe");
    assert_eq!(binding.name, "Transcribe");
    assert_eq!(binding.description, "Converts your speech into text.");
    assert_eq!(binding.default_binding, "alt+space");
    assert_eq!(binding.current_binding, "alt+space");
}

#[test]
fn default_settings() {
    let settings = get_default_settings(Platform::Linux, 0.1f32);
    assert_eq!(settings.bindings.len(), 1);
    assert_eq!(settings.bindings[0].id, "transcribe");
    assert_eq!(settings.bindings[0].default_binding, "ctrl+space");
    assert_eq!(settings.bindings[0].current_binding, "ctrl+space");
    assert!(settings.push_to_talk);
    assert!(!settings.audio_feedback);
    assert_eq!(settings.audio_feedback_volume, 0.1);
    assert_eq!(settings.selected_model, "");
    assert!(!settings.always_on_microphone);
    assert!(!settings.translate_to_english);
}

#[test]
fn stored_binding_is_found_by_id() {
    let mut settings: AppSettings<u8> = get_default_settings(Platform::Windows, 10);
    settings.bindings.push(binding("test", "ctrl+d"));
    settings.bindings.push(binding("test", "ctrl+e"));

    let found = get_stored_binding(&settings, "test").unwrap();
    assert_eq!(found.id, "test");
    assert_eq!(found.name, "TEST");
    assert_eq!(found.description, "about test");
    assert_eq!(found.current_binding, "ctrl+d");

    let found = get_stored_binding(&settings, "transcribe").unwrap();
    assert_eq!(found.current_binding, "ctrl+space");

    assert!(get_stored_binding(&settings, "missing").is_none());
    assert!(get_stored_binding(&settings, "").is_none());
    assert!(get_stored_binding(&settings, "tes").is_none());

    let bindings = get_bindings(settings);
    assert_eq!(bindings.len(), 3);
    assert_eq!(bindings[2].current_binding, "ctrl+e");
}

#[test]
fn a_binding_is_cloned_field_by_field() {
    let first = binding("test", "ctrl+d");
    let copy = first.clone();
    assert_eq!(copy.id, first.id);
    assert_eq!(copy.name, first.name);
    assert_eq!(copy.description, first.description);
    assert_eq!(copy.default_binding, first.default_binding);
    assert_eq!(copy.current_binding, first.current_binding);
}

#[test]
fn stored_settings_are_used_and_not_rewritten() {
    let loaded = load_or_create_app_settings(StoredSettings::Found(5), 1);
    assert_eq!(loaded.settings, 5);
    assert!(!loaded.write_back);
    assert_eq!(get_settings(StoredSettings::Found(5), 1), 5);
}

#[test]
fn missing_settings_become_the_defaults_and_are_written() {
    let loaded = load_or_create_app_settings(StoredSettings::Missing, 1);
    assert_eq!(loaded.settings, 1);
    assert!(loaded.write_back);
    assert_eq!(get_settings(StoredSettings::Missing, 1), 1);
}

#[test]
fn unreadable_settings_become_the_defaults_and_are_written() {
    let loaded = load_or_create_app_settings(StoredSettings::Unreadable, 1);
    assert_eq!(loaded.settings, 1);
    assert!(loaded.write_back);
    assert_eq!(get_settings(StoredSettings::Unreadable, 1), 1);
}

#[test]
fn tray_icons() {
    assert_eq!(tray_icon_path(TrayIconState::Idle), "resources/tray_idle.png");
    assert_eq!(tray_icon_path(TrayIconState::Recording), "resources/tray_recording.png");
}
