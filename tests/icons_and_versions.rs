use ini::configparser::ini::Ini;
use std::cmp::Ordering;
use zaemon::icons::{backup_dirs, is_direct_icon, file_matches_icon, icon_order, icon_theme_dirs, theme_or_default, usable_cached, IconsObject};
use zaemon::semver::{OpenTabletDriver, Semver};

#[test]
fn icon_file_test() {
    assert!(file_matches_icon("/i/firefox.png", "firefox", true));
    assert!(!file_matches_icon("/i/firefox.png", "firefox", false));
    assert!(!file_matches_icon("/i/firefox-esr.png", "firefox", true));
}

#[test]
fn svg_first_then_name() {
    assert_eq!(icon_order(&"/a/z.svg".to_string(), &"/a/a.png".to_string()), Ordering::Less);
    assert_eq!(icon_order(&"/a/a.png".to_string(), &"/a/z.svg".to_string()), Ordering::Greater);
    assert_eq!(icon_order(&"/a/b.png".to_string(), &"/a/a.xpm".to_string()), Ordering::Greater);
    assert_eq!(icon_order(&"/x/a.png".to_string(), &"/y/b.png".to_string()), Ordering::Less);
}

#[test]
fn stale_cache_entry_is_not_used() {
    assert_eq!(usable_cached(Some("/gone.svg".to_string()), false), None);
    assert_eq!(usable_cached(Some("/here.svg".to_string()), true), Some("/here.svg".to_string()));
    assert_eq!(usable_cached(None, true), None);
}

#[test]
fn search_result_is_cached_under_theme() {
    let mut icons = IconsObject::new(Ini::new(), "papirus".to_string());
    assert_eq!(icons.cache_get("firefox"), None);
    assert_eq!(icons.record_search("firefox", None), "");
    assert_eq!(icons.cache_get("firefox"), None);
    let p = icons.record_search("firefox", Some("/i/firefox.svg".to_string()));
    assert_eq!(p, "/i/firefox.svg");
    assert_eq!(icons.cache_get("firefox"), Some("/i/firefox.svg".to_string()));
}

#[test]
fn theme_directories() {
    assert_eq!(theme_or_default(None), "hicolor");
    assert_eq!(
        icon_theme_dirs("/home/u", "papirus"),
        vec!["/home/u/.local/share/icons/papirus".to_string(), "/usr/share/icons/papirus".to_string()]
    );
    assert_eq!(backup_dirs("/h")[3], "/usr/share/pixmaps");
    assert_eq!(backup_dirs("/h")[0], "/h/.local/share/icons/hicolor");
}

#[test]
fn version_parsing() {
    let v = Semver::new("0.6.4");
    assert_eq!((v.major, v.minor, v.patch), (0, 6, 4));
    let v = Semver::new("+1.300.70000");
    assert_eq!((v.major, v.minor, v.patch), (1, 0, 0));
    let v = Semver::new("2.x");
    assert_eq!((v.major, v.minor, v.patch), (2, 0, 0));
    assert!(Semver::new("1.2.3") < Semver::new("1.10.0"));
    assert_eq!(Semver::default(), Semver::new(""));
}

#[test]
fn apply_command_spelling() {
    let old = OpenTabletDriver::new("0.6.4");
    assert_eq!(old.apply_preset_args("drawing"), vec!["applypreset".to_string(), "drawing".to_string()]);
    let new = OpenTabletDriver::new("0.7.0");
    assert_eq!(new.apply_preset_args("drawing"), vec!["apply-preset".to_string(), "drawing".to_string()]);
}

#[test]
fn direct_paths_except_ico() {
    assert!(is_direct_icon("/opt/app/logo.png", true));
    assert!(!is_direct_icon("/opt/app/logo.ico", true));
    assert!(!is_direct_icon("/opt/app/logo.png", false));
    assert!(is_direct_icon("a", true));
}

#[test]
fn theme_match_wins_over_fallback() {
    let mut icons = IconsObject::new(Ini::new(), "papirus".to_string());
    let p = icons.finish_lookup("gimp", Some("/t/gimp.svg".to_string()), Some("/f/gimp.png".to_string()));
    assert_eq!(p, "/t/gimp.svg");
    let p = icons.finish_lookup("vlc", None, Some("/f/vlc.png".to_string()));
    assert_eq!(p, "/f/vlc.png");
    assert_eq!(icons.cache_get("vlc"), Some("/f/vlc.png".to_string()));
    assert_eq!(icons.finish_lookup("none", None, None), "");
    assert_eq!(icons.cache_get("none"), None);
}
