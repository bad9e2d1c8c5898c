//! Typed compositor events and their decoding from a batch of frames.
use vstd::prelude::*;
use crate::frames::{HEvent, FrameView, strs, frame_views, batch_position};
use crate::keyed::{to_map, unique_names};
use crate::text::{str_is, chars_of, split_chars, split_on, string_of};

verus! {

/// Who shares the screen in a screencast event.
#[derive(Clone, Copy, Debug, PartialEq, Eq, Structural)]
pub enum ScreencastOwner {
    Monitor,
    Window,
}

/// The active workspace changed.
pub struct WorkspaceChanged {
    pub workspace_name: String,
    pub workspace_id: String,
}

/// Focus moved to another monitor.
pub struct FocusedMonitor {
    pub monitor_name: String,
    pub workspace_name: String,
    pub workspace_id: String,
}

/// The focused window changed.
pub struct ActiveWindow {
    pub window_class: String,
    pub window_title: String,
    pub window_address: String,
}

/// Fullscreen was entered or left.
pub struct Fullscreen {
    pub is_fullscreen: bool,
}

/// A monitor was disconnected.
pub struct MonitorRemoved {
    pub monitor_name: String,
}

/// A monitor was connected.
pub struct MonitorAdded {
    pub monitor_id: String,
    pub monitor_name: String,
    pub monitor_description: String,
}

/// A workspace was created.
pub struct CreateWorkspace {
    pub workspace_id: String,
    pub workspace_name: String,
}

/// A workspace was destroyed.
pub struct DestroyWorkspace {
    pub workspace_id: String,
    pub workspace_name: String,
}

/// A workspace moved to another monitor.
pub struct MoveWorkspace {
    pub workspace_id: String,
    pub workspace_name: String,
    pub monitor_name: String,
}

/// A workspace was renamed.
pub struct RenameWorkspace {
    pub workspace_id: String,
    pub new_name: String,
}

/// The special workspace of a monitor changed.
pub struct ActiveSpecial {
    pub workspace_name: String,
    pub monitor_name: String,
}

/// A keyboard switched layout.
pub struct ActiveLayout {
    pub keyboard_name: String,
    pub layout_name: String,
}

/// A window was opened.
pub struct OpenWindow {
    pub window_address: String,
    pub workspace_name: String,
    pub window_class: String,
    pub window_title: String,
}

/// A window was closed.
pub struct CloseWindow {
    pub window_address: String,
}

/// A window moved to another workspace.
pub struct MoveWindow {
    pub window_address: String,
    pub workspace_id: String,
    pub workspace_name: String,
}

/// A layer surface was mapped.
pub struct OpenLayer {
    pub namespace: String,
}

/// A layer surface was unmapped.
pub struct CloseLayer {
    pub namespace: String,
}

/// A key-binding submap was entered.
pub struct Submap {
    pub submap_name: String,
}

/// A window became floating or tiled.
pub struct ChangeFloatingMode {
    pub window_address: String,
    pub floating: bool,
}

/// A window asked for attention.
pub struct Urgent {
    pub window_address: String,
}

/// Screen sharing started or stopped.
pub struct Screencast {
    pub active: bool,
    pub owner: ScreencastOwner,
}

/// A window changed its title.
pub struct WindowTitle {
    pub window_address: String,
    pub window_title: String,
}

/// A window group was created or destroyed.
pub struct ToggleGroup {
    pub destroyed: bool,
    pub window_addresses: Vec<String>,
}

/// A window joined a group.
pub struct MoveIntoGroup {
    pub window_address: String,
}

/// A window left a group.
pub struct MoveOutOfGroup {
    pub window_address: String,
}

/// The group lock started or stopped being ignored.
pub struct IgnoreGroupLock {
    pub state: bool,
}

/// Groups were locked or unlocked.
pub struct LockGroups {
    pub state: bool,
}

/// A window was pinned or unpinned.
pub struct Pin {
    pub window_address: String,
    pub pinned: bool,
}

/// One event of the compositor, as decoded from its socket.
pub enum HyprlandEvent {
    WorkspaceChanged(WorkspaceChanged),
    FocusedMonitor(FocusedMonitor),
    ActiveWindow(ActiveWindow),
    Fullscreen(Fullscreen),
    MonitorRemoved(MonitorRemoved),
    MonitorAdded(MonitorAdded),
    CreateWorkspace(CreateWorkspace),
    DestroyWorkspace(DestroyWorkspace),
    MoveWorkspace(MoveWorkspace),
    RenameWorkspace(RenameWorkspace),
    ActiveSpecial(ActiveSpecial),
    ActiveLayout(ActiveLayout),
    OpenWindow(OpenWindow),
    CloseWindow(CloseWindow),
    MoveWindow(MoveWindow),
    OpenLayer(OpenLayer),
    CloseLayer(CloseLayer),
    Submap(Submap),
    ChangeFloatingMode(ChangeFloatingMode),
    Urgent(Urgent),
    Screencast(Screencast),
    WindowTitle(WindowTitle),
    ToggleGroup(ToggleGroup),
    MoveIntoGroup(MoveIntoGroup),
    MoveOutOfGroup(MoveOutOfGroup),
    IgnoreGroupLock(IgnoreGroupLock),
    LockGroups(LockGroups),
    ConfigReloaded,
    Pin(Pin),
}

/// The argument at `i`, or the empty string where there is none.
pub open spec fn arg(a: Seq<Seq<char>>, i: int) -> Seq<char> {
    if 0 <= i < a.len() {
        a[i]
    } else {
        Seq::<char>::empty()
    }
}

/// The arguments of a frame; a frame without `>>` has none.
pub open spec fn args_of(f: Option<Seq<Seq<char>>>) -> Seq<Seq<char>> {
    match f {
        Some(a) => a,
        None => Seq::<Seq<char>>::empty(),
    }
}

/// The batch of one read, by event name.
pub type Batch = Map<Seq<char>, Option<Seq<Seq<char>>>>;

/// The first argument of the companion frame `name` in the batch, or the
/// empty string where the batch has no such frame or it has no arguments.
pub open spec fn companion(m: Batch, name: Seq<char>) -> Seq<char> {
    if m.contains_key(name) && m[name] is Some {
        arg(m[name]->0, 0)
    } else {
        Seq::<char>::empty()
    }
}

/// Whether the argument at `i` is the literal `lit`.
pub open spec fn arg_is(a: Seq<Seq<char>>, i: int, lit: Seq<char>) -> bool {
    arg(a, i) == lit
}

/// Whether frames named `name` denote an event.
pub open spec fn known_event(name: Seq<char>) -> bool {
    known_first(name) || known_second(name)
}

/// Names of the workspace, monitor and window events.
pub open spec fn known_first(name: Seq<char>) -> bool {
    name == "workspace"@
    || name == "focusedmon"@
    || name == "activewindow"@
    || name == "fullscreen"@
    || name == "monitorremoved"@
    || name == "monitoraddedv2"@
    || name == "createworkspacev2"@
    || name == "destroyworkspacev2"@
    || name == "moveworkspacev2"@
    || name == "renameworkspace"@
    || name == "activespecial"@
    || name == "activelayout"@
    || name == "openwindow"@
    || name == "closewindow"@
    || name == "movewindowv2"@
}

/// Names of the layer, group and remaining events.
pub open spec fn known_second(name: Seq<char>) -> bool {
    name == "openlayer"@
    || name == "closelayer"@
    || name == "submap"@
    || name == "changefloatingmode"@
    || name == "urgent"@
    || name == "screencast"@
    || name == "windowtitlev2"@
    || name == "togglegroup"@
    || name == "moveintogroup"@
    || name == "moveoutofgroup"@
    || name == "ignoregrouplock"@
    || name == "lockgroups"@
    || name == "configreloaded"@
    || name == "pin"@
}

/// Whether `ev` is the event that a frame named `name` with arguments `a`
/// denotes within batch `m`. Missing arguments read as empty strings; a
/// flag is set when its argument is `1` (for `togglegroup`, when it is
/// `0`); the ids that only the `v2` companion frames carry come from the
/// companion frame in the same batch.
pub open spec fn event_for(name: Seq<char>, a: Seq<Seq<char>>, m: Batch, ev: HyprlandEvent) -> bool {
    if known_first(name) {
        event_for_first(name, a, m, ev)
    } else {
        event_for_second(name, a, m, ev)
    }
}

pub open spec fn event_for_first(name: Seq<char>, a: Seq<Seq<char>>, m: Batch, ev: HyprlandEvent) -> bool {
    if name == "workspace"@ {
        match ev {
            HyprlandEvent::WorkspaceChanged(e) => e.workspace_name@ == arg(a, 0) && e.workspace_id@ == companion(m, "workspacev2"@),
            _ => false,
        }
    } else if name == "focusedmon"@ {
        match ev {
            HyprlandEvent::FocusedMonitor(e) => e.monitor_name@ == arg(a, 0) && e.workspace_name@ == arg(a, 1) && e.workspace_id@ == companion(m, "focusedmonv2"@),
            _ => false,
        }
    } else if name == "activewindow"@ {
        match ev {
            HyprlandEvent::ActiveWindow(e) => e.window_class@ == arg(a, 0) && e.window_title@ == arg(a, 1) && e.window_address@ == companion(m, "activewindowv2"@),
            _ => false,
        }
    } else if name == "fullscreen"@ {
        match ev {
            HyprlandEvent::Fullscreen(e) => e.is_fullscreen == arg_is(a, 0, "1"@),
            _ => false,
        }
    } else if name == "monitorremoved"@ {
        match ev {
            HyprlandEvent::MonitorRemoved(e) => e.monitor_name@ == arg(a, 0),
            _ => false,
        }
    } else if name == "monitoraddedv2"@ {
        match ev {
            HyprlandEvent::MonitorAdded(e) => e.monitor_id@ == arg(a, 0) && e.monitor_name@ == arg(a, 1) && e.monitor_description@ == arg(a, 2),
            _ => false,
        }
    } else if name == "createworkspacev2"@ {
        match ev {
            HyprlandEvent::CreateWorkspace(e) => e.workspace_id@ == arg(a, 0) && e.workspace_name@ == arg(a, 1),
            _ => false,
        }
    } else if name == "destroyworkspacev2"@ {
        match ev {
            HyprlandEvent::DestroyWorkspace(e) => e.workspace_id@ == arg(a, 0) && e.workspace_name@ == arg(a, 1),
            _ => false,
        }
    } else if name == "moveworkspacev2"@ {
        match ev {
            HyprlandEvent::MoveWorkspace(e) => e.workspace_id@ == arg(a, 0) && e.workspace_name@ == arg(a, 1) && e.monitor_name@ == arg(a, 2),
            _ => false,
        }
    } else if name == "renameworkspace"@ {
        match ev {
            HyprlandEvent::RenameWorkspace(e) => e.workspace_id@ == arg(a, 0) && e.new_name@ == arg(a, 1),
            _ => false,
        }
    } else if name == "activespecial"@ {
        match ev {
            HyprlandEvent::ActiveSpecial(e) => e.workspace_name@ == arg(a, 0) && e.monitor_name@ == arg(a, 1),
            _ => false,
        }
    } else if name == "activelayout"@ {
        match ev {
            HyprlandEvent::ActiveLayout(e) => e.keyboard_name@ == arg(a, 0) && e.layout_name@ == arg(a, 1),
            _ => false,
        }
    } else if name == "openwindow"@ {
        match ev {
            HyprlandEvent::OpenWindow(e) => e.window_address@ == arg(a, 0) && e.workspace_name@ == arg(a, 1) && e.window_class@ == arg(a, 2) && e.window_title@ == arg(a, 3),
            _ => false,
        }
    } else if name == "closewindow"@ {
        match ev {
            HyprlandEvent::CloseWindow(e) => e.window_address@ == arg(a, 0),
            _ => false,
        }
    } else if name == "movewindowv2"@ {
        match ev {
            HyprlandEvent::MoveWindow(e) => e.window_address@ == arg(a, 0) && e.workspace_id@ == arg(a, 1) && e.workspace_name@ == arg(a, 2),
            _ => false,
        }
    } else {
        false
    }
}

pub open spec fn event_for_second(name: Seq<char>, a: Seq<Seq<char>>, m: Batch, ev: HyprlandEvent) -> bool {
    if name == "openlayer"@ {
        match ev {
            HyprlandEvent::OpenLayer(e) => e.namespace@ == arg(a, 0),
            _ => false,
        }
    } else if name == "closelayer"@ {
        match ev {
            HyprlandEvent::CloseLayer(e) => e.namespace@ == arg(a, 0),
            _ => false,
        }
    } else if name == "submap"@ {
        match ev {
            HyprlandEvent::Submap(e) => e.submap_name@ == arg(a, 0),
            _ => false,
        }
    } else if name == "changefloatingmode"@ {
        match ev {
            HyprlandEvent::ChangeFloatingMode(e) => e.window_address@ == arg(a, 0) && e.floating == arg_is(a, 1, "1"@),
            _ => false,
        }
    } else if name == "urgent"@ {
        match ev {
            HyprlandEvent::Urgent(e) => e.window_address@ == arg(a, 0),
            _ => false,
        }
    } else if name == "screencast"@ {
        match ev {
            HyprlandEvent::Screencast(e) => e.active == arg_is(a, 0, "1"@) && e.owner == (if arg_is(a, 1, "0"@) { ScreencastOwner::Monitor } else { ScreencastOwner::Window }),
            _ => false,
        }
    } else if name == "windowtitlev2"@ {
        match ev {
            HyprlandEvent::WindowTitle(e) => e.window_address@ == arg(a, 0) && e.window_title@ == arg(a, 1),
            _ => false,
        }
    } else if name == "togglegroup"@ {
        match ev {
            HyprlandEvent::ToggleGroup(e) => e.destroyed == arg_is(a, 0, "0"@) && strs(e.window_addresses@) == split_on(arg(a, 1), ','),
            _ => false,
        }
    } else if name == "moveintogroup"@ {
        match ev {
            HyprlandEvent::MoveIntoGroup(e) => e.window_address@ == arg(a, 0),
            _ => false,
        }
    } else if name == "moveoutofgroup"@ {
        match ev {
            HyprlandEvent::MoveOutOfGroup(e) => e.window_address@ == arg(a, 0),
            _ => false,
        }
    } else if name == "ignoregrouplock"@ {
        match ev {
            HyprlandEvent::IgnoreGroupLock(e) => e.state == arg_is(a, 0, "1"@),
            _ => false,
        }
    } else if name == "lockgroups"@ {
        match ev {
            HyprlandEvent::LockGroups(e) => e.state == arg_is(a, 0, "1"@),
            _ => false,
        }
    } else if name == "configreloaded"@ {
        ev is ConfigReloaded
    } else if name == "pin"@ {
        match ev {
            HyprlandEvent::Pin(e) => e.window_address@ == arg(a, 0) && e.pinned == arg_is(a, 1, "1"@),
            _ => false,
        }
    } else {
        false
    }
}

/// The argument at `i`, or an empty string.
pub fn gets(v: &Vec<String>, i: usize) -> (r: String)
    ensures
        r@ == arg(strs(v@), i as int),
{
    if i < v.len() {
        v[i].clone()
    } else {
        String::new()
    }
}

/// Whether the argument at `i` is `lit`.
pub fn getstr_is(v: &Vec<String>, i: usize, lit: &str) -> (r: bool)
    ensures
        r == arg_is(strs(v@), i as int, lit@),
{
    if i < v.len() {
        str_is(&v[i], lit)
    } else {
        proof {
            if lit@.len() == 0 {
                assert(lit@ =~= Seq::<char>::empty());
            }
        }
        lit.unicode_len() == 0
    }
}

fn companion_of(batch: &Vec<HEvent>, name: &str) -> (r: String)
    requires
        unique_names(frame_views(batch@)),
    ensures
        r@ == companion(to_map(frame_views(batch@)), name@),
{
    let key = String::from_str(name);
    match batch_position(batch, &key) {
        Some(p) => match &batch[p].args {
            Some(a) => gets(a, 0),
            None => String::new(),
        },
        None => String::new(),
    }
}

fn group_of(v: &Vec<String>, i: usize) -> (r: Vec<String>)
    ensures
        strs(r@) == split_on(arg(strs(v@), i as int), ','),
{
    let s = gets(v, i);
    let cs = chars_of(s.as_str());
    let pieces = split_chars(&cs, ',');
    let mut r: Vec<String> = Vec::new();
    let mut j: usize = 0;
    while j < pieces.len()
        invariant
            j <= pieces@.len(),
            pieces@.len() == split_on(cs@, ',').len(),
            forall|k: int| 0 <= k < pieces@.len() ==> #[trigger] pieces@[k]@ == split_on(cs@, ',')[k],
            strs(r@) == split_on(cs@, ',').subrange(0, j as int),
        decreases pieces@.len() - j,
    {
        let p = string_of(&pieces[j]);
        let ghost old_r = strs(r@);
        r.push(p);
        assert(strs(r@) =~= old_r.push(p@));
        j = j + 1;
    }
    assert(split_on(cs@, ',').subrange(0, j as int) =~= split_on(cs@, ','));
    r
}

fn events_first(name: &String, a: &Vec<String>, batch: &Vec<HEvent>) -> (r: Option<HyprlandEvent>)
    requires
        unique_names(frame_views(batch@)),
    ensures
        r is Some <==> known_first(name@),
        r is Some ==> event_for(name@, strs(a@), to_map(frame_views(batch@)), r->0),
{
    if str_is(name, "workspace") {
        Some(HyprlandEvent::WorkspaceChanged(WorkspaceChanged { workspace_name: gets(a, 0), workspace_id: companion_of(batch, "workspacev2") }))
    } else if str_is(name, "focusedmon") {
        Some(HyprlandEvent::FocusedMonitor(FocusedMonitor { monitor_name: gets(a, 0), workspace_name: gets(a, 1), workspace_id: companion_of(batch, "focusedmonv2") }))
    } else if str_is(name, "activewindow") {
        Some(HyprlandEvent::ActiveWindow(ActiveWindow { window_class: gets(a, 0), window_title: gets(a, 1), window_address: companion_of(batch, "activewindowv2") }))
    } else if str_is(name, "fullscreen") {
        Some(HyprlandEvent::Fullscreen(Fullscreen { is_fullscreen: getstr_is(a, 0, "1") }))
    } else if str_is(name, "monitorremoved") {
        Some(HyprlandEvent::MonitorRemoved(MonitorRemoved { monitor_name: gets(a, 0) }))
    } else if str_is(name, "monitoraddedv2") {
        Some(HyprlandEvent::MonitorAdded(MonitorAdded { monitor_id: gets(a, 0), monitor_name: gets(a, 1), monitor_description: gets(a, 2) }))
    } else if str_is(name, "createworkspacev2") {
        Some(HyprlandEvent::CreateWorkspace(CreateWorkspace { workspace_id: gets(a, 0), workspace_name: gets(a, 1) }))
    } else if str_is(name, "destroyworkspacev2") {
        Some(HyprlandEvent::DestroyWorkspace(DestroyWorkspace { workspace_id: gets(a, 0), workspace_name: gets(a, 1) }))
    } else if str_is(name, "moveworkspacev2") {
        Some(HyprlandEvent::MoveWorkspace(MoveWorkspace { workspace_id: gets(a, 0), workspace_name: gets(a, 1), monitor_name: gets(a, 2) }))
    } else if str_is(name, "renameworkspace") {
        Some(HyprlandEvent::RenameWorkspace(RenameWorkspace { workspace_id: gets(a, 0), new_name: gets(a, 1) }))
    } else if str_is(name, "activespecial") {
        Some(HyprlandEvent::ActiveSpecial(ActiveSpecial { workspace_name: gets(a, 0), monitor_name: gets(a, 1) }))
    } else if str_is(name, "activelayout") {
        Some(HyprlandEvent::ActiveLayout(ActiveLayout { keyboard_name: gets(a, 0), layout_name: gets(a, 1) }))
    } else if str_is(name, "openwindow") {
        Some(HyprlandEvent::OpenWindow(OpenWindow { window_address: gets(a, 0), workspace_name: gets(a, 1), window_class: gets(a, 2), window_title: gets(a, 3) }))
    } else if str_is(name, "closewindow") {
        Some(HyprlandEvent::CloseWindow(CloseWindow { window_address: gets(a, 0) }))
    } else if str_is(name, "movewindowv2") {
        Some(HyprlandEvent::MoveWindow(MoveWindow { window_address: gets(a, 0), workspace_id: gets(a, 1), workspace_name: gets(a, 2) }))
    } else {
        None
    }
}

fn events_second(name: &String, a: &Vec<String>, batch: &Vec<HEvent>) -> (r: Option<HyprlandEvent>)
    requires
        unique_names(frame_views(batch@)),
        !known_first(name@),
    ensures
        r is Some <==> known_second(name@),
        r is Some ==> event_for(name@, strs(a@), to_map(frame_views(batch@)), r->0),
{
    if str_is(name, "openlayer") {
        Some(HyprlandEvent::OpenLayer(OpenLayer { namespace: gets(a, 0) }))
    } else if str_is(name, "closelayer") {
        Some(HyprlandEvent::CloseLayer(CloseLayer { namespace: gets(a, 0) }))
    } else if str_is(name, "submap") {
        Some(HyprlandEvent::Submap(Submap { submap_name: gets(a, 0) }))
    } else if str_is(name, "changefloatingmode") {
        Some(HyprlandEvent::ChangeFloatingMode(ChangeFloatingMode { window_address: gets(a, 0), floating: getstr_is(a, 1, "1") }))
    } else if str_is(name, "urgent") {
        Some(HyprlandEvent::Urgent(Urgent { window_address: gets(a, 0) }))
    } else if str_is(name, "screencast") {
        Some(HyprlandEvent::Screencast(Screencast { active: getstr_is(a, 0, "1"), owner: if getstr_is(a, 1, "0") { ScreencastOwner::Monitor } else { ScreencastOwner::Window } }))
    } else if str_is(name, "windowtitlev2") {
        Some(HyprlandEvent::WindowTitle(WindowTitle { window_address: gets(a, 0), window_title: gets(a, 1) }))
    } else if str_is(name, "togglegroup") {
        Some(HyprlandEvent::ToggleGroup(ToggleGroup { destroyed: getstr_is(a, 0, "0"), window_addresses: group_of(a, 1) }))
    } else if str_is(name, "moveintogroup") {
        Some(HyprlandEvent::MoveIntoGroup(MoveIntoGroup { window_address: gets(a, 0) }))
    } else if str_is(name, "moveoutofgroup") {
        Some(HyprlandEvent::MoveOutOfGroup(MoveOutOfGroup { window_address: gets(a, 0) }))
    } else if str_is(name, "ignoregrouplock") {
        Some(HyprlandEvent::IgnoreGroupLock(IgnoreGroupLock { state: getstr_is(a, 0, "1") }))
    } else if str_is(name, "lockgroups") {
        Some(HyprlandEvent::LockGroups(LockGroups { state: getstr_is(a, 0, "1") }))
    } else if str_is(name, "configreloaded") {
        Some(HyprlandEvent::ConfigReloaded)
    } else if str_is(name, "pin") {
        Some(HyprlandEvent::Pin(Pin { window_address: gets(a, 0), pinned: getstr_is(a, 1, "1") }))
    } else {
        None
    }
}

/// The event that a frame named `name` with arguments `a` denotes within
/// `batch`, if its name is one the compositor defines.
pub fn event_from(name: &String, a: &Vec<String>, batch: &Vec<HEvent>) -> (r: Option<HyprlandEvent>)
    requires
        unique_names(frame_views(batch@)),
    ensures
        r is Some <==> known_event(name@),
        r is Some ==> event_for(name@, strs(a@), to_map(frame_views(batch@)), r->0),
{
    match events_first(name, a, batch) {
        Some(e) => Some(e),
        None => events_second(name, a, batch),
    }
}

/// Whether `evs` are the events of the entries `b` of batch `m`, in order:
/// one for each entry with a known name, none for the others.
pub open spec fn events_of(evs: Seq<HyprlandEvent>, b: Seq<FrameView>, m: Batch) -> bool
    decreases b.len(),
{
    if b.len() == 0 {
        evs.len() == 0
    } else if known_event(b.last().0) {
        evs.len() > 0 && event_for(b.last().0, args_of(b.last().1), m, evs.last())
            && events_of(evs.drop_last(), b.drop_last(), m)
    } else {
        events_of(evs, b.drop_last(), m)
    }
}

/// Decodes every entry of a batch into its event, in the batch's order;
/// entries with an unknown name give none.
pub fn parse_hypr_events(batch: &Vec<HEvent>) -> (r: Vec<HyprlandEvent>)
    requires
        unique_names(frame_views(batch@)),
    ensures
        events_of(r@, frame_views(batch@), to_map(frame_views(batch@))),
{
    let ghost b = frame_views(batch@);
    let ghost m = to_map(b);
    let mut r: Vec<HyprlandEvent> = Vec::new();
    let mut i: usize = 0;
    let empty: Vec<String> = Vec::new();
    assert(b.subrange(0, 0) =~= Seq::<FrameView>::empty());
    while i < batch.len()
        invariant
            i <= batch@.len(),
            b == frame_views(batch@),
            m == to_map(b),
            unique_names(b),
            empty@.len() == 0,
            events_of(r@, b.subrange(0, i as int), m),
        decreases batch@.len() - i,
    {
        let entry = &batch[i];
        let a = match &entry.args {
            Some(a) => a,
            None => &empty,
        };
        assert(strs(a@) == args_of(b[i as int].1)) by {
            assert(strs(empty@) =~= Seq::<Seq<char>>::empty());
        }
        let ghost before = r@;
        match event_from(&entry.name, a, batch) {
            Some(e) => {
                r.push(e);
                assert(r@.drop_last() =~= before);
            },
            None => {},
        }
        i = i + 1;
        assert(b.subrange(0, i as int).drop_last() =~= b.subrange(0, i - 1));
    }
    assert(b.subrange(0, batch@.len() as int) =~= b);
    r
}

/// Decodes one socket read into events: frames are folded into a batch by
/// name first, so that a companion frame can supply the ids its legacy
/// frame lacks.
pub fn events_of_read(input: &str) -> (r: Vec<HyprlandEvent>)
    ensures
        exists|b: Seq<FrameView>|
            unique_names(b) && to_map(b) == crate::frames::batch_of(crate::frames::frames_of(input@))
                && #[trigger] events_of(r@, b, to_map(b)),
{
    let batch = crate::frames::map_events_string(input);
    let r = parse_hypr_events(&batch);
    assert(events_of(r@, frame_views(batch@), to_map(frame_views(batch@))));
    r
}

/// Every entry of a batch with a known name has its event among the
/// decoded events.
pub proof fn lemma_event_present(evs: Seq<HyprlandEvent>, b: Seq<FrameView>, m: Batch, i: int)
    requires
        events_of(evs, b, m),
        0 <= i < b.len(),
        known_event(b[i].0),
    ensures
        exists|j: int| 0 <= j < evs.len() && event_for(b[i].0, args_of(b[i].1), m, #[trigger] evs[j]),
    decreases b.len(),
{
    let last = b.len() - 1;
    if i == last {
        assert(event_for(b[i].0, args_of(b[i].1), m, evs[evs.len() - 1]));
    } else if known_event(b.last().0) {
        lemma_event_present(evs.drop_last(), b.drop_last(), m, i);
        let j = choose|j: int| 0 <= j < evs.drop_last().len() && event_for(b[i].0, args_of(b[i].1), m, #[trigger] evs.drop_last()[j]);
        assert(evs[j] == evs.drop_last()[j]);
    } else {
        lemma_event_present(evs, b.drop_last(), m, i);
    }
}

/// A batch whose names are all unknown decodes to no event.
pub proof fn lemma_unknown_names_silent(evs: Seq<HyprlandEvent>, b: Seq<FrameView>, m: Batch)
    requires
        events_of(evs, b, m),
        forall|i: int| 0 <= i < b.len() ==> !known_event(#[trigger] b[i].0),
    ensures
        evs.len() == 0,
    decreases b.len(),
{
    if b.len() > 0 {
        assert(!known_event(b[b.len() - 1].0));
        assert forall|i: int| 0 <= i < b.drop_last().len() implies !known_event(#[trigger] b.drop_last()[i].0) by {
            assert(b.drop_last()[i] == b[i]);
        }
        lemma_unknown_names_silent(evs, b.drop_last(), m);
    }
}

/// When a batch holds a `workspace` frame and a `workspacev2` frame with
/// arguments, the decoded workspace event carries the name from the first
/// and the id from the second.
pub proof fn lemma_workspace_id_from_v2(
    evs: Seq<HyprlandEvent>,
    b: Seq<FrameView>,
    i: int,
    a2: Seq<Seq<char>>,
)
    requires
        unique_names(b),
        events_of(evs, b, to_map(b)),
        0 <= i < b.len(),
        b[i].0 == "workspace"@,
        to_map(b).contains_key("workspacev2"@),
        to_map(b)["workspacev2"@] == Some(a2),
    ensures
        exists|j: int|
            0 <= j < evs.len() && match #[trigger] evs[j] {
                HyprlandEvent::WorkspaceChanged(e) => e.workspace_id@ == arg(a2, 0)
                    && e.workspace_name@ == arg(args_of(b[i].1), 0),
                _ => false,
            },
{
    assert(known_first(b[i].0));
    lemma_event_present(evs, b, to_map(b), i);
    let j = choose|j: int| 0 <= j < evs.len() && event_for(b[i].0, args_of(b[i].1), to_map(b), #[trigger] evs[j]);
    assert(event_for_first(b[i].0, args_of(b[i].1), to_map(b), evs[j]));
}

/// A `workspace` frame decodes to an event whose id is the first argument
/// of the batch's `workspacev2` frame, or empty where the batch has none.
pub proof fn lemma_workspace_id_companion(evs: Seq<HyprlandEvent>, b: Seq<FrameView>, i: int)
    requires
        events_of(evs, b, to_map(b)),
        0 <= i < b.len(),
        b[i].0 == "workspace"@,
    ensures
        exists|j: int|
            0 <= j < evs.len() && match #[trigger] evs[j] {
                HyprlandEvent::WorkspaceChanged(e) => e.workspace_id@ == companion(
                    to_map(b),
                    "workspacev2"@,
                ),
                _ => false,
            },
{
    assert(known_first(b[i].0));
    lemma_event_present(evs, b, to_map(b), i);
    let j = choose|j: int| 0 <= j < evs.len() && event_for(b[i].0, args_of(b[i].1), to_map(b), #[trigger] evs[j]);
    assert(event_for_first(b[i].0, args_of(b[i].1), to_map(b), evs[j]));
}

/// A `focusedmon` frame decodes to an event whose workspace id is the first
/// argument of the batch's `focusedmonv2` frame, or empty where it has none.
pub proof fn lemma_focusedmon_id_companion(evs: Seq<HyprlandEvent>, b: Seq<FrameView>, i: int)
    requires
        events_of(evs, b, to_map(b)),
        0 <= i < b.len(),
        b[i].0 == "focusedmon"@,
    ensures
        exists|j: int|
            0 <= j < evs.len() && match #[trigger] evs[j] {
                HyprlandEvent::FocusedMonitor(e) => e.workspace_id@ == companion(
                    to_map(b),
                    "focusedmonv2"@,
                ),
                _ => false,
            },
{
    reveal_strlit("focusedmon");
    reveal_strlit("workspace");
    assert("focusedmon"@.len() != "workspace"@.len());
    assert(known_first(b[i].0));
    lemma_event_present(evs, b, to_map(b), i);
    let j = choose|j: int| 0 <= j < evs.len() && event_for(b[i].0, args_of(b[i].1), to_map(b), #[trigger] evs[j]);
    assert(event_for_first(b[i].0, args_of(b[i].1), to_map(b), evs[j]));
}

/// An `activewindow` frame decodes to an event whose window address is the
/// first argument of the batch's `activewindowv2` frame, or empty where it
/// has none.
pub proof fn lemma_activewindow_address_companion(evs: Seq<HyprlandEvent>, b: Seq<FrameView>, i: int)
    requires
        events_of(evs, b, to_map(b)),
        0 <= i < b.len(),
        b[i].0 == "activewindow"@,
    ensures
        exists|j: int|
            0 <= j < evs.len() && match #[trigger] evs[j] {
                HyprlandEvent::ActiveWindow(e) => e.window_address@ == companion(
                    to_map(b),
                    "activewindowv2"@,
                ) && e.window_class@ == arg(args_of(b[i].1), 0),
                _ => false,
            },
{
    reveal_strlit("activewindow");
    reveal_strlit("focusedmon");
    reveal_strlit("workspace");
    assert("focusedmon"@.len() != "workspace"@.len());
    assert(known_first(b[i].0));
    lemma_event_present(evs, b, to_map(b), i);
    let j = choose|j: int| 0 <= j < evs.len() && event_for(b[i].0, args_of(b[i].1), to_map(b), #[trigger] evs[j]);
    assert(event_for_first(b[i].0, args_of(b[i].1), to_map(b), evs[j]));
}

} // verus!
