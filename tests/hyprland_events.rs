use zaemon::frames::{map_events_string, parse_events_string};
use zaemon::hyprland::{events_of_read, parse_hypr_events, HyprlandEvent, ScreencastOwner};

#[test]
fn workspace_takes_id_from_v2_frame() {
    let evs = events_of_read("workspace>>dev\nworkspacev2>>7,dev\n");
    let found: Vec<&HyprlandEvent> = evs
        .iter()
        .filter(|e| matches!(e, HyprlandEvent::WorkspaceChanged(_)))
        .collect();
    assert_eq!(found.len(), 1);
    match found[0] {
        HyprlandEvent::WorkspaceChanged(w) => {
            assert_eq!(w.workspace_name, "dev");
            assert_eq!(w.workspace_id, "7");
        }
        _ => unreachable!(),
    }
}

#[test]
fn workspace_without_v2_has_empty_id() {
    let evs = events_of_read("workspace>>dev\n");
    assert_eq!(evs.len(), 1);
    match &evs[0] {
        HyprlandEvent::WorkspaceChanged(w) => {
            assert_eq!(w.workspace_name, "dev");
            assert_eq!(w.workspace_id, "");
        }
        _ => panic!("wrong event"),
    }
}

#[test]
fn unknown_frame_gives_no_event() {
    assert!(events_of_read("bogusevent>>a,b\n").is_empty());
    assert!(events_of_read("").is_empty());
    assert!(events_of_read("\0\0\0   ").is_empty());
}

#[test]
fn active_window_with_address() {
    let evs = events_of_read("activewindow>>kritA,Canvas\nactivewindowv2>>55aa\n\0\0");
    let win: Vec<&HyprlandEvent> = evs
        .iter()
        .filter(|e| matches!(e, HyprlandEvent::ActiveWindow(_)))
        .collect();
    assert_eq!(win.len(), 1);
    match win[0] {
        HyprlandEvent::ActiveWindow(a) => {
            assert_eq!(a.window_class, "kritA");
            assert_eq!(a.window_title, "Canvas");
            assert_eq!(a.window_address, "55aa");
        }
        _ => unreachable!(),
    }
}

#[test]
fn flags_and_owner() {
    let evs = events_of_read("fullscreen>>1\n");
    assert!(matches!(&evs[0], HyprlandEvent::Fullscreen(f) if f.is_fullscreen));
    let evs = events_of_read("fullscreen>>0\n");
    assert!(matches!(&evs[0], HyprlandEvent::Fullscreen(f) if !f.is_fullscreen));
    let evs = events_of_read("screencast>>1,0\n");
    assert!(matches!(&evs[0], HyprlandEvent::Screencast(s) if s.active && s.owner == ScreencastOwner::Monitor));
    let evs = events_of_read("screencast>>0,1\n");
    assert!(matches!(&evs[0], HyprlandEvent::Screencast(s) if !s.active && s.owner == ScreencastOwner::Window));
}

#[test]
fn toggle_group_and_reload() {
    let evs = events_of_read("togglegroup>>0,abc\n");
    match &evs[0] {
        HyprlandEvent::ToggleGroup(t) => {
            assert!(t.destroyed);
            assert_eq!(t.window_addresses, vec!["abc".to_string()]);
        }
        _ => panic!("wrong event"),
    }
    let evs = events_of_read("configreloaded\n");
    assert!(matches!(&evs[0], HyprlandEvent::ConfigReloaded));
}

#[test]
fn open_window_fields() {
    let evs = events_of_read("openwindow>>80e62df0,2,kitty,Kitty");
    match &evs[0] {
        HyprlandEvent::OpenWindow(o) => {
            assert_eq!(o.window_address, "80e62df0");
            assert_eq!(o.workspace_name, "2");
            assert_eq!(o.window_class, "kitty");
            assert_eq!(o.window_title, "Kitty");
        }
        _ => panic!("wrong event"),
    }
}

#[test]
fn missing_arguments_read_empty() {
    let evs = events_of_read("movewindowv2>>abc\n");
    match &evs[0] {
        HyprlandEvent::MoveWindow(m) => {
            assert_eq!(m.window_address, "abc");
            assert_eq!(m.workspace_id, "");
            assert_eq!(m.workspace_name, "");
        }
        _ => panic!("wrong event"),
    }
}

#[test]
fn frames_split_name_and_arguments() {
    let frames = parse_events_string("a>>b,c\nd\ne>>f>>g\n\0 ");
    assert_eq!(frames.len(), 3);
    assert_eq!(frames[0].name, "a");
    assert_eq!(frames[0].args, Some(vec!["b".to_string(), "c".to_string()]));
    assert_eq!(frames[1].name, "d");
    assert_eq!(frames[1].args, None);
    assert_eq!(frames[2].name, "e");
    assert_eq!(frames[2].args, Some(vec!["f".to_string()]));
}

#[test]
fn batch_keeps_last_frame_of_a_name() {
    let batch = map_events_string("submap>>one\nurgent>>x\nsubmap>>two\n");
    assert_eq!(batch.len(), 2);
    let evs = parse_hypr_events(&batch);
    assert_eq!(evs.len(), 2);
    let names: Vec<String> = evs
        .iter()
        .filter_map(|e| match e {
            HyprlandEvent::Submap(s) => Some(s.submap_name.clone()),
            _ => None,
        })
        .collect();
    assert_eq!(names, vec!["two".to_string()]);
}
