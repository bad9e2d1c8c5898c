use zaemon::tablet::{parse_bindings, FocusTracker, PresetChange, TabletError, TabletInterface};

fn sorted(mut v: Vec<(String, String)>) -> Vec<(String, String)> {
    v.sort();
    v
}

fn pair(a: &str, b: &str) -> (String, String) {
    (a.to_string(), b.to_string())
}

fn names(v: &[&str]) -> Vec<String> {
    v.iter().map(|s| s.to_string()).collect()
}

#[test]
fn parses_bracketed_bindings() {
    let b = parse_bindings("{krita: drawing, gimp: paint}").unwrap();
    assert_eq!(sorted(b), vec![pair("gimp", "paint"), pair("krita", "drawing")]);
}

#[test]
fn parses_quoted_store_value() {
    let b = parse_bindings("'{\"krita\": \"drawing\"}'\n").unwrap();
    assert_eq!(b, vec![pair("krita", "drawing")]);
    let b = parse_bindings("bindings: '{\"krita\": \"drawing\"}'").unwrap();
    assert_eq!(b, vec![pair("krita", "drawing")]);
}

#[test]
fn malformed_bindings_are_rejected() {
    assert!(parse_bindings("krita: drawing").is_none());
    assert!(parse_bindings("@as []").is_none());
    assert!(parse_bindings("").is_none());
    assert_eq!(parse_bindings("{}").unwrap(), vec![]);
}

#[test]
fn later_piece_overrides() {
    let b = parse_bindings("{a: x, a: y}").unwrap();
    assert_eq!(b, vec![pair("a", "y")]);
}

#[test]
fn new_reads_preset_stems() {
    let t = TabletInterface::new(
        &names(&["/p/Drawing.json", "/p/Paint.json", "/q/Drawing.json"]),
        "{krita: Drawing}",
    );
    let mut p = t.presets();
    p.sort();
    assert_eq!(p, names(&["Drawing", "Paint"]));
    assert_eq!(t.bindings(), vec![pair("krita", "Drawing")]);
}

#[test]
fn add_binding_serialises_new_map() {
    let mut t = TabletInterface::new(&vec![], "{}");
    let json = t.add_binding(&"krita".to_string(), &"drawing".to_string()).unwrap();
    assert_eq!(json, "{\"krita\":\"drawing\"}");
    assert!(t.bindings().is_empty());
    t.commit_binding("krita".to_string(), "drawing".to_string());
    assert_eq!(t.bindings(), vec![pair("krita", "drawing")]);
}

#[test]
fn committed_removal_drops_binding() {
    let mut t = TabletInterface::new(&vec![], "{krita: drawing, gimp: paint}");
    let json = t.remove_binding(&"krita".to_string()).unwrap();
    assert_eq!(json, "{\"gimp\":\"paint\"}");
    t.commit_removal(&"krita".to_string());
    assert_eq!(t.bindings(), vec![pair("gimp", "paint")]);
    t.commit_binding("gimp".to_string(), "draw".to_string());
    assert_eq!(t.bindings(), vec![pair("gimp", "draw")]);
}

#[test]
fn modify_binding_needs_existing_binding() {
    let t = TabletInterface::new(&vec![], "{krita: drawing}");
    assert_eq!(
        t.modify_binding(&"gimp".to_string(), &"paint".to_string()),
        Err(TabletError::BindingNotFound)
    );
    let json = t.modify_binding(&"krita".to_string(), &"paint".to_string()).unwrap();
    assert_eq!(json, "{\"krita\":\"paint\"}");
}

#[test]
fn remove_binding_serialises_rest() {
    let t = TabletInterface::new(&vec![], "{krita: drawing, gimp: paint}");
    let json = t.remove_binding(&"krita".to_string()).unwrap();
    assert_eq!(json, "{\"gimp\":\"paint\"}");
}

#[test]
fn setting_update_replaces_only_on_change() {
    let mut t = TabletInterface::new(&vec![], "{krita: drawing}");
    assert!(!t.update_from_setting("'{\"krita\": \"drawing\"}'"));
    assert!(!t.update_from_setting("garbage"));
    assert!(t.update_from_setting("{krita: paint}"));
    assert_eq!(t.bindings(), vec![pair("krita", "paint")]);
}

#[test]
fn rename_substitutes_preset_and_bindings() {
    let mut t = TabletInterface::new(&names(&["/p/Old.json", "/p/Other.json"]), "{krita: Old, gimp: Other}");
    let (presets, bindings) = t.apply_preset_change(&PresetChange::Renamed(names(&["/p/Old.json", "/p/New.json"])));
    assert!(presets);
    assert!(bindings);
    let mut p = t.presets();
    p.sort();
    assert_eq!(p, names(&["New", "Other"]));
    assert_eq!(sorted(t.bindings()), vec![pair("gimp", "Other"), pair("krita", "New")]);
}

#[test]
fn odd_rename_batch_changes_nothing() {
    let mut t = TabletInterface::new(&names(&["/p/Old.json"]), "{krita: Old}");
    let r = t.apply_preset_change(&PresetChange::Renamed(names(&["/p/Old.json", "/p/New.json", "/p/X.json"])));
    assert_eq!(r, (false, false));
    assert_eq!(t.presets(), names(&["Old"]));
    assert_eq!(t.bindings(), vec![pair("krita", "Old")]);
}

#[test]
fn created_and_removed_presets() {
    let mut t = TabletInterface::new(&names(&["/p/A.json"]), "{krita: A, gimp: B}");
    let r = t.apply_preset_change(&PresetChange::Created(names(&["/p/B.json"])));
    assert_eq!(r, (true, false));
    let mut p = t.presets();
    p.sort();
    assert_eq!(p, names(&["A", "B"]));
    let r = t.apply_preset_change(&PresetChange::Removed(names(&["/p/A.json"])));
    assert_eq!(r, (true, true));
    assert_eq!(t.presets(), names(&["B"]));
    assert_eq!(t.bindings(), vec![pair("gimp", "B")]);
}

#[test]
fn focus_applies_lowercased_binding_once() {
    let t = TabletInterface::new(&vec![], "{krita: drawing}");
    let mut f = FocusTracker::new();
    let p = f.preset_for(&t, &"kritA".to_string());
    assert_eq!(p, Some("drawing".to_string()));
    f.applied(p.unwrap());
    assert_eq!(f.preset_for(&t, &"kritA".to_string()), None);
    assert_eq!(f.preset_for(&t, &"gimp".to_string()), None);
}

#[test]
fn failed_apply_retries() {
    let t = TabletInterface::new(&vec![], "{krita: drawing}");
    let f = FocusTracker::new();
    assert_eq!(f.preset_for(&t, &"Krita".to_string()), Some("drawing".to_string()));
    assert_eq!(f.preset_for(&t, &"Krita".to_string()), Some("drawing".to_string()));
}

#[test]
fn removed_and_created_in_one_window_is_a_rename() {
    let mut t = TabletInterface::new(&names(&["/p/Old.json"]), "{krita: Old}");
    let (presets, bindings) = t.apply_batch(&names(&["/p/Old.json"]), &names(&["/p/New.json"]));
    assert!(presets);
    assert!(bindings);
    assert_eq!(t.presets(), names(&["New"]));
    assert_eq!(t.bindings(), vec![pair("krita", "New")]);
}

#[test]
fn unpaired_window_removes_then_creates() {
    let mut t = TabletInterface::new(&names(&["/p/A.json", "/p/B.json"]), "{krita: A, gimp: B}");
    let r = t.apply_batch(&names(&["/p/A.json", "/p/B.json"]), &names(&["/p/C.json"]));
    assert_eq!(r, (true, true));
    assert_eq!(t.presets(), names(&["C"]));
    assert!(t.bindings().is_empty());
    let r = t.apply_batch(&vec![], &names(&["/p/C.json"]));
    assert_eq!(r, (false, false));
}

#[test]
fn rename_chain_keeps_bindings_bound() {
    let mut t = TabletInterface::new(&names(&["/p/a.json", "/p/b.json"]), "{x: a}");
    let r = t.apply_batch(&names(&["/p/a.json", "/p/b.json"]), &names(&["/p/b.json", "/p/c.json"]));
    assert_eq!(r, (true, true));
    assert_eq!(t.presets(), names(&["c"]));
    assert_eq!(t.bindings(), vec![pair("x", "c")]);
}

#[test]
fn rename_to_itself_reports_no_change() {
    let mut t = TabletInterface::new(&names(&["/p/a.json"]), "{x: a}");
    let r = t.apply_preset_change(&PresetChange::Renamed(names(&["/p/a.json", "/q/a.json"])));
    assert_eq!(r, (false, false));
}

#[test]
fn focus_lowercases_beyond_ascii() {
    let t = TabletInterface::new(&vec![], "{é: q}");
    let f = FocusTracker::new();
    assert_eq!(f.preset_for(&t, &"É".to_string()), Some("q".to_string()));
}
