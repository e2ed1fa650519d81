use ezicode::app_icon::logo_path;
use ezicode::linux_desktop::{
    data_home, desktop_entry_contents, fingerprint, icon_path, install_needed, installed_files, net_wm_icon_pixels,
    stamp_text,
};
use ezicode::panic_log::chrono_like_timestamp;
use ezicode::settings::{
    config_dir, config_dir_candidates, default_auto_save, default_tab_size, default_theme, settings_file_path,
    AutoSaveMode, ConfigEnv, ConfigPlatform,
};
use ezicode::tab_bar::{kind_color, ChangeColor, ChangeKind};
use ezicode::workspace::Activity;

#[test]
fn auto_save_names_round_trip() {
    for mode in [AutoSaveMode::Off, AutoSaveMode::AfterDelay, AutoSaveMode::OnFocusChange] {
        assert_eq!(AutoSaveMode::from_name(mode.name()), Some(mode));
    }
    assert_eq!(AutoSaveMode::from_name("focus"), Some(AutoSaveMode::OnFocusChange));
    assert_eq!(AutoSaveMode::from_name("true"), Some(AutoSaveMode::AfterDelay));
    assert_eq!(AutoSaveMode::from_name("Off"), None);
    assert_eq!(AutoSaveMode::default(), AutoSaveMode::Off);
    assert!(AutoSaveMode::AfterDelay.description().contains("delay"));
    assert_eq!(default_auto_save(), AutoSaveMode::Off);
    assert_eq!(default_tab_size(), 4);
    assert_eq!(default_theme(), "One Dark Pro");
}

#[test]
fn config_dir_prefers_existing_legacy_folder() {
    let env = ConfigEnv {
        platform: ConfigPlatform::Unix,
        appdata: None,
        userprofile: None,
        xdg_config_home: None,
        home: Some("/home/u".into()),
    };
    let c = config_dir_candidates(&env);
    assert_eq!(c, Some(("/home/u/.config/ezicode".to_string(), "/home/u/.config/html2gpui".to_string())));
    assert_eq!(config_dir(c.clone(), false, true), "/home/u/.config/html2gpui");
    assert_eq!(config_dir(c.clone(), true, true), "/home/u/.config/ezicode");
    assert_eq!(config_dir(c, false, false), "/home/u/.config/ezicode");
    assert_eq!(config_dir(None, false, false), "./config");
    assert_eq!(settings_file_path("/c"), "/c/settings.json");
    let mac = ConfigEnv { platform: ConfigPlatform::MacOs, ..env };
    assert_eq!(
        config_dir_candidates(&mac).unwrap().0,
        "/home/u/Library/Application Support/ezicode"
    );
}

#[test]
fn fnv_fingerprint_matches_reference_values() {
    assert_eq!(fingerprint(b""), 0xcbf2_9ce4_8422_2325);
    assert_eq!(fingerprint(b"a"), 0xaf63_dc4c_8601_ec8c);
    assert_eq!(stamp_text(0xab), "ezicode 00000000000000ab\n");
}

#[test]
fn desktop_install_paths() {
    assert_eq!(icon_path("/d/icons", 48), "/d/icons/hicolor/48x48/apps/ezicode.png");
    assert_eq!(data_home(Some("relative".into()), Some("/home/u".into())), "/home/u/.local/share");
    assert_eq!(data_home(Some("/xdg".into()), None), "/xdg");
    assert_eq!(data_home(None, None), ".local/share");
    let files = installed_files("/d");
    assert_eq!(files.len(), 9);
    assert_eq!(files[0], "/d/applications/ezicode.desktop");
    assert_eq!(files[1], "/d/icons/hicolor/512x512/apps/ezicode.png");
    assert!(install_needed(None, "s", true));
    assert!(!install_needed(Some("s"), "s", true));
    assert!(install_needed(Some("s"), "s", false));
}

#[test]
fn desktop_entry_escapes_percent_in_exec() {
    let entry = desktop_entry_contents(Some("/opt/a%b/ezicode"));
    assert!(entry.starts_with("[Desktop Entry]\nType=Application\n"));
    assert!(entry.contains("Exec=/opt/a%%b/ezicode %F\n"));
    assert!(entry.contains("TryExec=/opt/a%b/ezicode\n"));
    assert!(entry.ends_with("StartupWMClass=ezicode\n"));
    assert!(desktop_entry_contents(None).contains("Exec=ezicode %F\n"));
}

#[test]
fn window_icon_property_layout() {
    let ladder = vec![(1u32, vec![[0x11u8, 0x22, 0x33, 0x44]])];
    assert_eq!(net_wm_icon_pixels(&ladder), vec![1, 1, 0x4411_2233]);
}

#[test]
fn small_labels() {
    assert_eq!(Activity::Git.status_label(), "SOURCE CONTROL");
    assert_eq!(kind_color(ChangeKind::Untracked), ChangeColor::Added);
    assert_eq!(kind_color(ChangeKind::Conflicted), ChangeColor::Deleted);
    assert_eq!(chrono_like_timestamp(42), "unix:42");
    assert_eq!(logo_path(&[false, false, true]), Some("ezicode.png".to_string()));
    assert_eq!(logo_path(&[]), None);
}
