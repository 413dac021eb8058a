use m3u8_queue::models::{AppSettings, CloseButtonBehavior};
use m3u8_queue::settings_store::{normalize_download_dir, SettingsStore};
use std::cell::RefCell;

#[test]
fn new_store_without_saved_settings_uses_defaults() {
    let store = SettingsStore::new("settings.json".to_string(), None);
    assert_eq!(store.get().close_button_behavior, CloseButtonBehavior::CloseToTray);
    assert!(!store.get().auto_action_on_complete);
    assert_eq!(store.get().download_dir, None);
    assert_eq!(store.path(), "settings.json");
}

#[test]
fn saved_settings_are_what_a_new_store_holds() {
    let saved: RefCell<Option<AppSettings>> = RefCell::new(None);
    let mut store = SettingsStore::new("settings.json".to_string(), None);
    store
        .update(
            AppSettings {
                close_button_behavior: CloseButtonBehavior::Exit,
                auto_action_on_complete: true,
                download_dir: Some("D:/Videos".to_string()),
            },
            |s| {
                *saved.borrow_mut() = Some(s.clone());
                Ok(())
            },
        )
        .expect("save settings");

    let reloaded = SettingsStore::new("settings.json".to_string(), saved.borrow().clone());
    assert_eq!(reloaded.get().close_button_behavior, CloseButtonBehavior::Exit);
    assert!(reloaded.get().auto_action_on_complete);
    assert_eq!(reloaded.get().download_dir.as_deref(), Some("D:/Videos"));
}

#[test]
fn failed_save_does_not_mutate_in_memory_state() {
    let mut store = SettingsStore::new("settings-dir".to_string(), None);
    let original = store.get();

    let result = store.update(
        AppSettings {
            close_button_behavior: CloseButtonBehavior::Exit,
            auto_action_on_complete: true,
            download_dir: Some("D:/Blocked".to_string()),
        },
        |_| Err("is a directory".to_string()),
    );

    assert!(result.is_err());
    assert_eq!(store.get(), original);
}

#[test]
fn update_normalizes_empty_download_dir_to_none() {
    let mut store = SettingsStore::new("settings.json".to_string(), None);

    let updated = store
        .update(
            AppSettings {
                close_button_behavior: CloseButtonBehavior::CloseToTray,
                auto_action_on_complete: false,
                download_dir: Some("   ".to_string()),
            },
            |_| Ok(()),
        )
        .expect("save settings");

    assert_eq!(updated.download_dir, None);
    assert_eq!(store.get().download_dir, None);
}

#[test]
fn download_dir_is_trimmed() {
    assert_eq!(normalize_download_dir(Some("  D:/Videos \t".to_string())), Some("D:/Videos".to_string()));
    assert_eq!(normalize_download_dir(Some(String::new())), None);
    assert_eq!(normalize_download_dir(None), None);
}

#[test]
fn saved_value_is_the_normalized_one() {
    let saved: RefCell<Option<AppSettings>> = RefCell::new(None);
    let mut store = SettingsStore::new("settings.json".to_string(), None);
    store
        .update(
            AppSettings {
                close_button_behavior: CloseButtonBehavior::CloseToTray,
                auto_action_on_complete: false,
                download_dir: Some(" E:/x ".to_string()),
            },
            |s| {
                *saved.borrow_mut() = Some(s.clone());
                Ok(())
            },
        )
        .unwrap();
    assert_eq!(saved.borrow().as_ref().unwrap().download_dir.as_deref(), Some("E:/x"));
}
