use zaemon::desktop::{app_lookup_dirs, is_descriptor_path, compare_names, entry_from_fields, make_entry, wm_class, AppCache, DescriptorFields};
use std::cmp::Ordering;

fn s(x: &str) -> Option<String> {
    Some(x.to_string())
}

#[test]
fn exec_gives_wm_class() {
    let text = b"[Desktop Entry]\nName=Foo\nExec=foo --flag\n";
    let e = make_entry("/usr/share/applications/foo.desktop", text).unwrap();
    assert_eq!(e.wm_class, "foo");
    assert_eq!(e.name, "Foo");
    assert_eq!(e.exec_line, "foo --flag");
    assert_eq!(e.entry_path, "/usr/share/applications/foo.desktop");
    assert!(!e.no_display);
    assert!(!e.terminal);
}

#[test]
fn startup_class_is_lowercased() {
    let text = b"[Desktop Entry]\nName=Krita\nExec=krita %F\nStartupWMClass=KritA\nNoDisplay=True\nTerminal=yes\nComment=Paint\nIcon=\"krita\"\n";
    let e = make_entry("k.desktop", text).unwrap();
    assert_eq!(e.wm_class, "krita");
    assert!(e.no_display);
    assert!(!e.terminal);
    assert_eq!(e.description, "Paint");
    assert_eq!(e.icon_name, "krita");
    assert_eq!(e.icon_path, "");
}

#[test]
fn not_applicable_descriptors() {
    assert!(make_entry("x", b"[Desktop Entry]\nExec=foo\n").is_none());
    assert!(make_entry("x", b"[Desktop Entry]\nName=Foo\n").is_none());
    assert!(make_entry("x", b"[Other]\nName=Foo\nExec=foo\n").is_none());
    assert!(make_entry("x", b"").is_none());
}

#[test]
fn wm_class_from_exec_path() {
    assert_eq!(wm_class(&None, &s("/usr/bin/Foo.sh %U")), "foo");
    assert_eq!(wm_class(&None, &s("")), "");
    assert_eq!(wm_class(&None, &None), "");
    assert_eq!(wm_class(&s("Mixed.Case"), &s("x")), "mixed.case");
    let once = wm_class(&None, &s("/opt/App/BIN"));
    assert_eq!(wm_class(&Some(once.clone()), &None), once);
}

#[test]
fn fields_without_name_are_skipped() {
    let f = DescriptorFields {
        exec_line: s("foo"),
        name: None,
        comment: None,
        icon: None,
        startup_wm_class: None,
        no_display: None,
        terminal: s("true"),
    };
    assert!(entry_from_fields("p", &f).is_none());
}

#[test]
fn names_compare_bytewise() {
    assert_eq!(compare_names(&"B".to_string(), &"a".to_string()), Ordering::Less);
    assert_eq!(compare_names(&"ab".to_string(), &"a".to_string()), Ordering::Greater);
    assert_eq!(compare_names(&"same".to_string(), &"same".to_string()), Ordering::Equal);
}

#[test]
fn publish_sorts_whole_list() {
    let mut cache = AppCache::new();
    let a = make_entry("a", b"[Desktop Entry]\nName=Zed\nExec=zed\n").unwrap();
    let b = make_entry("b", b"[Desktop Entry]\nName=Alpha\nExec=alpha\n").unwrap();
    cache.publish(vec![a, b]);
    let names: Vec<String> = cache.all_apps().iter().map(|e| e.name.clone()).collect();
    assert_eq!(names, vec!["Alpha".to_string(), "Zed".to_string()]);
    let c = make_entry("c", b"[Desktop Entry]\nName=Mid\nExec=mid\n").unwrap();
    cache.publish(vec![c]);
    assert_eq!(cache.all_apps().len(), 1);
}

#[test]
fn resolve_icon_marks_missing() {
    let mut e = make_entry("a", b"[Desktop Entry]\nName=A\nExec=a\nIcon=a\n").unwrap();
    e.resolve_icon(None, "/i/default.svg");
    assert!(e.no_icon);
    assert_eq!(e.icon_path, "/i/default.svg");
    e.resolve_icon(s("/i/a.svg"), "/i/default.svg");
    assert!(!e.no_icon);
    assert_eq!(e.icon_path, "/i/a.svg");
}

#[test]
fn lookup_dirs_deduplicated() {
    let dirs = app_lookup_dirs(&s("/usr/share/:/opt/share"), "/home/u");
    assert_eq!(
        dirs,
        vec![
            "/usr/share/applications".to_string(),
            "/opt/share/applications".to_string(),
            "/home/u/.local/share/applications".to_string(),
        ]
    );
    let dirs = app_lookup_dirs(&None, "/home/u/");
    assert_eq!(
        dirs,
        vec!["/usr/share/applications".to_string(), "/home/u/.local/share/applications".to_string()]
    );
}

#[test]
fn descriptor_paths() {
    assert!(is_descriptor_path("/usr/share/applications/foo.desktop"));
    assert!(!is_descriptor_path("/usr/share/applications/foo.desktop.bak"));
    assert!(!is_descriptor_path("/usr/share/applications/.desktop"));
}

#[test]
fn startup_class_lowercases_beyond_ascii() {
    let e = make_entry("e.desktop", "[Desktop Entry]\nName=E\nExec=e\nStartupWMClass=É\n".as_bytes()).unwrap();
    assert_eq!(e.wm_class, "é");
    assert_eq!(wm_class(&None, &s("/usr/bin/ÄPP")), "äpp");
}

#[test]
fn minimal_descriptor_fields() {
    let e = make_entry("/a/foo.desktop", b"[Desktop Entry]\nName=Foo\nExec=foo --flag\n").unwrap();
    assert_eq!(e.icon_name, "");
    assert_eq!(e.icon_path, "");
    assert_eq!(e.description, "");
    assert!(!e.no_icon);
}
