//! Application descriptors: from the parsed key-value file to a
//! `DesktopEntry`, and the sorted list of all entries.
use vstd::prelude::*;
use freedesktop_entry_parser::Entry;
use crate::frames::strs;
use crate::paths::{file_stem, stem_of};
use vstd::string::StringExecFns;
use crate::text::{
    split_on, lower_of, unquoted, unquote, chars_of, split_chars,
    string_of, to_lower, str_is, lemma_split_on_nonempty,
};

verus! {

#[verifier::external_type_specification]
#[verifier::external_body]
pub struct ExEntry(Entry);

/// What a parsed descriptor file holds: for each section title, the values
/// of each attribute without a locale parameter, in file order.
pub uninterp spec fn entry_sections(e: Entry) -> Map<Seq<char>, Map<Seq<char>, Seq<Seq<char>>>>;

/// The values of `key` in a section; none where it is absent.
pub open spec fn attr_values(sec: Map<Seq<char>, Seq<Seq<char>>>, key: Seq<char>) -> Seq<Seq<char>> {
    if sec.contains_key(key) {
        sec[key]
    } else {
        Seq::<Seq<char>>::empty()
    }
}

/// What `Entry::parse` makes of the bytes of a descriptor file: its
/// sections as `entry_sections` reads them, or `None` where the bytes do
/// not parse.
pub uninterp spec fn parsed_sections(b: Seq<u8>) -> Option<Map<Seq<char>, Map<Seq<char>, Seq<Seq<char>>>>>;

/// Relies on `freedesktop_entry_parser::Entry::parse`: decodes the bytes of
/// a descriptor file, or fails on malformed input; the result depends on
/// the bytes alone.
#[verifier::external_body]
fn parse_entry_bytes(b: &[u8]) -> (r: Option<Entry>)
    ensures
        r is Some <==> parsed_sections(b@) is Some,
        match r {
            Some(e) => entry_sections(e) == parsed_sections(b@)->0,
            None => true,
        },
{
    Entry::parse(b).ok()
}

/// Relies on `freedesktop_entry_parser::Entry::get`: `None` where the
/// section is missing, else the values of the attribute (empty where it is
/// absent).
#[verifier::external_body]
fn entry_get(e: &Entry, section: &str, key: &str) -> (r: Option<Vec<String>>)
    ensures
        r is Some <==> entry_sections(*e).contains_key(section@),
        match r {
            Some(v) => strs(v@) == attr_values(entry_sections(*e)[section@], key@),
            None => true,
        },
{
    e.get(section, key).map(|v| v.to_vec())
}

/// The attributes of the `Desktop Entry` section that the scanner reads,
/// each the first value given for it.
pub struct DescriptorFields {
    pub exec_line: Option<String>,
    pub name: Option<String>,
    pub comment: Option<String>,
    pub icon: Option<String>,
    pub startup_wm_class: Option<String>,
    pub no_display: Option<String>,
    pub terminal: Option<String>,
}

/// The view of an optional string.
pub open spec fn opt(o: Option<String>) -> Option<Seq<char>> {
    match o {
        Some(s) => Some(s@),
        None => None,
    }
}

/// The text of an optional attribute, empty where it is absent.
pub open spec fn or_empty(o: Option<Seq<char>>) -> Seq<char> {
    match o {
        Some(s) => s,
        None => Seq::<char>::empty(),
    }
}

/// A boolean attribute: set only by `true` or `True`.
pub open spec fn flag_of(o: Option<Seq<char>>) -> bool {
    o == Some("true"@) || o == Some("True"@)
}

/// The window class of a descriptor: `StartupWMClass` where present,
/// otherwise the stem of the first space-separated token of `Exec`, then
/// lower-cased.
pub open spec fn wm_class_of(startup: Option<Seq<char>>, command: Option<Seq<char>>) -> Seq<char> {
    match startup {
        Some(c) => lower_of(c),
        None => match command {
            Some(e) => lower_of(file_stem(split_on(e, ' ')[0])),
            None => Seq::<char>::empty(),
        },
    }
}

/// The first value of a list, if any.
pub open spec fn first_of(v: Seq<Seq<char>>) -> Option<Seq<char>> {
    if v.len() > 0 {
        Some(v[0])
    } else {
        None
    }
}

/// One application as the cache lists it.
pub struct DesktopEntry {
    pub entry_path: String,
    pub exec_line: String,
    pub name: String,
    pub icon_name: String,
    pub icon_path: String,
    pub no_icon: bool,
    pub wm_class: String,
    pub description: String,
    pub no_display: bool,
    pub terminal: bool,
}

/// Whether `e` is the entry that `fields` of the file at `path` describe,
/// with its icon not yet resolved.
pub open spec fn describes(e: DesktopEntry, path: Seq<char>, f: DescriptorFields) -> bool {
    &&& e.entry_path@ == path
    &&& e.exec_line@ == or_empty(opt(f.exec_line))
    &&& e.name@ == or_empty(opt(f.name))
    &&& e.icon_name@ == unquoted(or_empty(opt(f.icon)))
    &&& e.icon_path@ == Seq::<char>::empty()
    &&& !e.no_icon
    &&& e.wm_class@ == wm_class_of(opt(f.startup_wm_class), opt(f.exec_line))
    &&& e.description@ == or_empty(opt(f.comment))
    &&& e.no_display == flag_of(opt(f.no_display))
    &&& e.terminal == flag_of(opt(f.terminal))
}

/// Whether `e` is the entry that the `Desktop Entry` section `sec` of the
/// file at `path` describes, each attribute read as its first value.
pub open spec fn describes_section(
    e: DesktopEntry,
    path: Seq<char>,
    sec: Map<Seq<char>, Seq<Seq<char>>>,
) -> bool {
    &&& e.entry_path@ == path
    &&& e.exec_line@ == or_empty(first_of(attr_values(sec, "Exec"@)))
    &&& e.name@ == or_empty(first_of(attr_values(sec, "Name"@)))
    &&& e.icon_name@ == unquoted(or_empty(first_of(attr_values(sec, "Icon"@))))
    &&& e.icon_path@ == Seq::<char>::empty()
    &&& !e.no_icon
    &&& e.wm_class@ == wm_class_of(
        first_of(attr_values(sec, "StartupWMClass"@)),
        first_of(attr_values(sec, "Exec"@)),
    )
    &&& e.description@ == or_empty(first_of(attr_values(sec, "Comment"@)))
    &&& e.no_display == flag_of(first_of(attr_values(sec, "NoDisplay"@)))
    &&& e.terminal == flag_of(first_of(attr_values(sec, "Terminal"@)))
}

/// Whether the parsed sections `m` hold an application: a `Desktop Entry`
/// section with both `Exec` and `Name`.
pub open spec fn is_application(m: Map<Seq<char>, Map<Seq<char>, Seq<Seq<char>>>>) -> bool {
    &&& m.contains_key("Desktop Entry"@)
    &&& first_of(attr_values(m["Desktop Entry"@], "Exec"@)) is Some
    &&& first_of(attr_values(m["Desktop Entry"@], "Name"@)) is Some
}

fn first_value(e: &Entry, key: &str) -> (r: Option<String>)
    requires
        entry_sections(*e).contains_key("Desktop Entry"@),
    ensures
        opt(r) == first_of(attr_values(entry_sections(*e)["Desktop Entry"@], key@)),
{
    match entry_get(e, "Desktop Entry", key) {
        Some(v) => {
            if v.len() > 0 {
                assert(strs(v@)[0] == v@[0]@);
                Some(v[0].clone())
            } else {
                None
            }
        },
        None => None,
    }
}

/// The attributes of the `Desktop Entry` section of a parsed file, or
/// `None` where it has no such section.
pub fn read_fields(e: &Entry) -> (r: Option<DescriptorFields>)
    ensures
        r is Some <==> entry_sections(*e).contains_key("Desktop Entry"@),
        match r {
            Some(f) => {
                let sec = entry_sections(*e)["Desktop Entry"@];
                &&& opt(f.exec_line) == first_of(attr_values(sec, "Exec"@))
                &&& opt(f.name) == first_of(attr_values(sec, "Name"@))
                &&& opt(f.comment) == first_of(attr_values(sec, "Comment"@))
                &&& opt(f.icon) == first_of(attr_values(sec, "Icon"@))
                &&& opt(f.startup_wm_class) == first_of(attr_values(sec, "StartupWMClass"@))
                &&& opt(f.no_display) == first_of(attr_values(sec, "NoDisplay"@))
                &&& opt(f.terminal) == first_of(attr_values(sec, "Terminal"@))
            },
            None => true,
        },
{
    match entry_get(e, "Desktop Entry", "Name") {
        None => None,
        Some(_) => Some(
            DescriptorFields {
                exec_line: first_value(e, "Exec"),
                name: first_value(e, "Name"),
                comment: first_value(e, "Comment"),
                icon: first_value(e, "Icon"),
                startup_wm_class: first_value(e, "StartupWMClass"),
                no_display: first_value(e, "NoDisplay"),
                terminal: first_value(e, "Terminal"),
            },
        ),
    }
}

fn text_or_empty(o: &Option<String>) -> (r: String)
    ensures
        r@ == or_empty(opt(*o)),
{
    match o {
        Some(s) => s.clone(),
        None => String::new(),
    }
}

fn flag(o: &Option<String>) -> (r: bool)
    ensures
        r == flag_of(opt(*o)),
{
    match o {
        Some(s) => str_is(s, "true") || str_is(s, "True"),
        None => false,
    }
}

/// The window class of a descriptor (see `wm_class_of`).
pub fn wm_class(startup: &Option<String>, command: &Option<String>) -> (r: String)
    ensures
        r@ == wm_class_of(opt(*startup), opt(*command)),
{
    match startup {
        Some(c) => to_lower(c.as_str()),
        None => match command {
            Some(e) => {
                let cs = chars_of(e.as_str());
                let tokens = split_chars(&cs, ' ');
                proof { lemma_split_on_nonempty(cs@, ' '); }
                let first = string_of(&tokens[0]);
                let stem = stem_of(first.as_str());
                to_lower(stem.as_str())
            },
            None => String::new(),
        },
    }
}

/// The entry that `fields` of the file at `path` describe, or `None` where
/// `Exec` or `Name` is missing.
pub fn entry_from_fields(path: &str, f: &DescriptorFields) -> (r: Option<DesktopEntry>)
    ensures
        r is Some <==> (f.exec_line is Some && f.name is Some),
        match r {
            Some(e) => describes(e, path@, *f),
            None => true,
        },
{
    if f.exec_line.is_none() || f.name.is_none() {
        return None;
    }
    let icon = text_or_empty(&f.icon);
    let icon_chars = chars_of(icon.as_str());
    let icon_name = string_of(&unquote(&icon_chars));
    Some(
        DesktopEntry {
            entry_path: String::from_str(path),
            exec_line: text_or_empty(&f.exec_line),
            name: text_or_empty(&f.name),
            icon_name,
            icon_path: String::new(),
            no_icon: false,
            wm_class: wm_class(&f.startup_wm_class, &f.exec_line),
            description: text_or_empty(&f.comment),
            no_display: flag(&f.no_display),
            terminal: flag(&f.terminal),
        },
    )
}

/// Scans one descriptor file: `None` where it does not parse, has no
/// `Desktop Entry` section, or lacks `Exec` or `Name`.
pub fn make_entry(path: &str, contents: &[u8]) -> (r: Option<DesktopEntry>)
    ensures
        r is Some <==> (parsed_sections(contents@) is Some && is_application(
            parsed_sections(contents@)->0,
        )),
        match r {
            Some(e) => describes_section(e, path@, parsed_sections(contents@)->0["Desktop Entry"@]),
            None => true,
        },
{
    match parse_entry_bytes(contents) {
        None => None,
        Some(e) => match read_fields(&e) {
            None => None,
            Some(f) => entry_from_fields(path, &f),
        },
    }
}

/// Lexicographic order of names by character (the byte order of their
/// UTF-8 text).
pub open spec fn name_le(a: Seq<char>, b: Seq<char>) -> bool
    decreases a.len(),
{
    if a.len() == 0 {
        true
    } else if b.len() == 0 {
        false
    } else if a[0] != b[0] {
        (a[0] as u32) < (b[0] as u32)
    } else {
        name_le(a.drop_first(), b.drop_first())
    }
}

/// Compares two names by `name_le`.
pub fn compare_names(a: &String, b: &String) -> (r: core::cmp::Ordering)
    ensures
        (r == core::cmp::Ordering::Less) <==> (name_le(a@, b@) && a@ != b@),
        (r == core::cmp::Ordering::Equal) <==> a@ == b@,
        (r == core::cmp::Ordering::Greater) <==> !name_le(a@, b@),
{
    let x = chars_of(a.as_str());
    let y = chars_of(b.as_str());
    let mut i: usize = 0;
    assert(a@.subrange(0, a@.len() as int) =~= a@);
    assert(b@.subrange(0, b@.len() as int) =~= b@);
    while i < x.len() && i < y.len() && x[i] == y[i]
        invariant
            i <= x@.len(),
            i <= y@.len(),
            x@ == a@,
            y@ == b@,
            x@.subrange(0, i as int) == y@.subrange(0, i as int),
            name_le(a@, b@) == name_le(a@.subrange(i as int, a@.len() as int), b@.subrange(i as int, b@.len() as int)),
            (a@ == b@) == (a@.subrange(i as int, a@.len() as int) == b@.subrange(i as int, b@.len() as int)),
        decreases x@.len() - i,
    {
        let ghost sa = a@.subrange(i as int, a@.len() as int);
        let ghost sb = b@.subrange(i as int, b@.len() as int);
        assert(sa.drop_first() =~= a@.subrange(i + 1, a@.len() as int));
        assert(sb.drop_first() =~= b@.subrange(i + 1, b@.len() as int));
        assert(x@.subrange(0, i + 1) =~= x@.subrange(0, i as int).push(x@[i as int]));
        assert(y@.subrange(0, i + 1) =~= y@.subrange(0, i as int).push(y@[i as int]));
        assert(sa[0] == x@[i as int] && sb[0] == y@[i as int]);
        proof {
            if sa.drop_first() == sb.drop_first() {
                assert forall|k: int| 0 <= k < sa.len() implies sa[k] == sb[k] by {
                    if k > 0 {
                        assert(sa[k] == sa.drop_first()[k - 1]);
                        assert(sb[k] == sb.drop_first()[k - 1]);
                    }
                }
                assert(sa =~= sb);
            }
        }
        i = i + 1;
    }
    let ghost sa = a@.subrange(i as int, a@.len() as int);
    let ghost sb = b@.subrange(i as int, b@.len() as int);
    if i == x.len() && i == y.len() {
        assert(sa =~= sb);
        core::cmp::Ordering::Equal
    } else if i == x.len() {
        assert(sa.len() == 0 && sb.len() > 0);
        core::cmp::Ordering::Less
    } else if i == y.len() {
        assert(sb.len() == 0 && sa.len() > 0);
        core::cmp::Ordering::Greater
    } else if (x[i] as u32) < (y[i] as u32) {
        assert(sa[0] == x@[i as int] && sb[0] == y@[i as int]);
        assert(sa[0] != sb[0]);
        core::cmp::Ordering::Less
    } else {
        assert(sa[0] == x@[i as int] && sb[0] == y@[i as int]);
        assert(sa[0] != sb[0]);
        core::cmp::Ordering::Greater
    }
}

/// The entries are in `name_le` order.
pub open spec fn sorted_by_name(s: Seq<DesktopEntry>) -> bool {
    forall|i: int, j: int| 0 <= i < j < s.len() ==> name_le(#[trigger] s[i].name@, #[trigger] s[j].name@)
}

/// Relies on `slice::sort_by`, which orders the entries by the comparator
/// (a total order here) and keeps every entry.
#[verifier::external_body]
fn sort_by_name(v: &mut Vec<DesktopEntry>)
    ensures
        final(v)@.to_multiset() == old(v)@.to_multiset(),
        sorted_by_name(final(v)@),
{
    v.sort_by(|a, b| compare_names(&a.name, &b.name))
}

impl DesktopEntry {
    /// Whether the entry names an icon at all (its icon token is not blank).
    pub fn has_icon_name(&self) -> (r: bool)
        ensures
            r == (crate::text::trim(self.icon_name@).len() > 0),
    {
        let v = chars_of(self.icon_name.as_str());
        let (a, b) = crate::tablet::trim_bounds(&v, 0, v.len());
        assert(v@.subrange(0, v@.len() as int) =~= v@);
        b > a
    }

    /// Records where the icon was found; an entry whose icon was not found
    /// shows the default icon `default_icon` and is marked icon-less.
    pub fn resolve_icon(&mut self, found: Option<String>, default_icon: &str)
        ensures
            final(self).icon_path@ == match found {
                Some(p) => p@,
                None => default_icon@,
            },
            final(self).no_icon == (found is None),
            final(self).name == old(self).name,
            final(self).exec_line == old(self).exec_line,
            final(self).wm_class == old(self).wm_class,
            final(self).icon_name == old(self).icon_name,
            final(self).entry_path == old(self).entry_path,
            final(self).description == old(self).description,
            final(self).no_display == old(self).no_display,
            final(self).terminal == old(self).terminal,
    {
        match found {
            Some(p) => {
                self.icon_path = p;
                self.no_icon = false;
            },
            None => {
                self.icon_path = String::from_str(default_icon);
                self.no_icon = true;
            },
        }
    }
}

/// The published list of applications. A rebuild replaces it whole.
pub struct AppCache {
    entries: Vec<DesktopEntry>,
}

impl AppCache {
    /// The entries currently published.
    pub closed spec fn snapshot(&self) -> Seq<DesktopEntry> {
        self.entries@
    }

    pub fn new() -> (r: Self)
        ensures
            r.snapshot().len() == 0,
    {
        AppCache { entries: Vec::new() }
    }

    /// The published entries.
    pub fn all_apps(&self) -> (r: &Vec<DesktopEntry>)
        ensures
            r@ == self.snapshot(),
    {
        &self.entries
    }

    /// Publishes a rebuilt list: the new snapshot holds exactly the given
    /// entries, sorted by name; nothing of the previous one remains.
    pub fn publish(&mut self, fresh: Vec<DesktopEntry>)
        ensures
            final(self).snapshot().to_multiset() == fresh@.to_multiset(),
            sorted_by_name(final(self).snapshot()),
    {
        let mut v = fresh;
        sort_by_name(&mut v);
        self.entries = v;
    }
}

/// Whether a file found under a descriptor directory is a descriptor:
/// its extension is `desktop`.
pub fn is_descriptor_path(path: &str) -> (r: bool)
    ensures
        r == (crate::paths::extension(path@) == "desktop"@),
{
    let ext = crate::paths::extension_of(path);
    str_is(&ext, "desktop")
}

/// The directory of application descriptors under data directory `d`.
pub open spec fn app_dir(d: Seq<char>) -> Seq<char> {
    if d.len() > 0 && d.last() == '/' {
        d + "applications"@
    } else {
        d + "/applications"@
    }
}

/// Relative path `rel` under the home directory `home`.
pub open spec fn home_join(home: Seq<char>, rel: Seq<char>) -> Seq<char> {
    if home.len() == 0 {
        rel
    } else if home.last() == '/' {
        home + rel
    } else {
        home + "/"@ + rel
    }
}

/// `s` with every repetition of an earlier element left out.
pub open spec fn dedup(s: Seq<Seq<char>>) -> Seq<Seq<char>>
    decreases s.len(),
{
    if s.len() == 0 {
        s
    } else {
        let p = dedup(s.drop_last());
        if p.contains(s.last()) {
            p
        } else {
            p.push(s.last())
        }
    }
}

/// The candidate descriptor directories: one under each entry of the
/// colon-separated data-directory list (`/usr/share` where it is unset),
/// then the system and the per-user directory.
pub open spec fn lookup_candidates(data_dirs: Option<Seq<char>>, home: Seq<char>) -> Seq<Seq<char>> {
    let list = match data_dirs {
        Some(d) => d,
        None => "/usr/share"@,
    };
    split_on(list, ':').map_values(|d: Seq<char>| app_dir(d)).push("/usr/share/applications"@).push(
        home_join(home, ".local/share/applications"@),
    )
}

fn joined(a: &str, b: &str) -> (r: String)
    ensures
        r@ == a@ + b@,
{
    let mut s = String::from_str(a);
    s.append(b);
    s
}

fn app_dir_of(d: &Vec<char>) -> (r: String)
    ensures
        r@ == app_dir(d@),
{
    let base = string_of(d);
    if d.len() > 0 && d[d.len() - 1] == '/' {
        joined(base.as_str(), "applications")
    } else {
        joined(base.as_str(), "/applications")
    }
}

fn push_new(v: &mut Vec<String>, s: String)
    ensures
        strs(final(v)@) == if strs(old(v)@).contains(s@) {
            strs(old(v)@)
        } else {
            strs(old(v)@).push(s@)
        },
{
    let mut i: usize = 0;
    while i < v.len()
        invariant
            i <= v@.len(),
            v@ == old(v)@,
            forall|j: int| 0 <= j < i ==> #[trigger] strs(v@)[j] != s@,
        decreases v@.len() - i,
    {
        if v[i].eq(&s) {
            assert(strs(v@)[i as int] == s@);
            return;
        }
        i = i + 1;
    }
    let ghost before = strs(v@);
    let ghost sv = s@;
    v.push(s);
    assert(strs(v@) =~= before.push(sv));
}

/// The descriptor directories to scan, without repetitions, given the
/// data-directory list (if set) and the home directory.
pub fn app_lookup_dirs(data_dirs: &Option<String>, home: &str) -> (r: Vec<String>)
    ensures
        strs(r@) == dedup(lookup_candidates(opt(*data_dirs), home@)),
{
    let list: Vec<char> = match data_dirs {
        Some(d) => chars_of(d.as_str()),
        None => chars_of("/usr/share"),
    };
    let ghost cands = lookup_candidates(opt(*data_dirs), home@);
    let parts = split_chars(&list, ':');
    let mut all: Vec<String> = Vec::new();
    let mut i: usize = 0;
    while i < parts.len()
        invariant
            i <= parts@.len(),
            parts@.len() == split_on(list@, ':').len(),
            forall|k: int| 0 <= k < parts@.len() ==> #[trigger] parts@[k]@ == split_on(list@, ':')[k],
            strs(all@) == split_on(list@, ':').map_values(|d: Seq<char>| app_dir(d)).subrange(0, i as int),
        decreases parts@.len() - i,
    {
        let d = app_dir_of(&parts[i]);
        let ghost before = strs(all@);
        all.push(d);
        assert(strs(all@) =~= before.push(d@));
        i = i + 1;
        assert(strs(all@) =~= split_on(list@, ':').map_values(|d: Seq<char>| app_dir(d)).subrange(0, i as int));
    }
    let sys = String::from_str("/usr/share/applications");
    let ghost before = strs(all@);
    all.push(sys);
    let local = if home.unicode_len() == 0 {
        String::from_str(".local/share/applications")
    } else if home.get_char(home.unicode_len() - 1) == '/' {
        joined(home, ".local/share/applications")
    } else {
        let h = joined(home, "/");
        joined(h.as_str(), ".local/share/applications")
    };
    all.push(local);
    assert(strs(all@) =~= cands) by {
        assert(split_on(list@, ':').map_values(|d: Seq<char>| app_dir(d)).subrange(0, parts@.len() as int)
            =~= split_on(list@, ':').map_values(|d: Seq<char>| app_dir(d)));
        if home@.len() > 0 && home@.last() != '/' {
            assert(home@ + "/"@ + ".local/share/applications"@ =~= (home@ + "/"@) + ".local/share/applications"@);
        }
    }
    let mut r: Vec<String> = Vec::new();
    let mut j: usize = 0;
    assert(strs(r@) =~= dedup(cands.subrange(0, 0)));
    while j < all.len()
        invariant
            j <= all@.len(),
            strs(all@) == cands,
            strs(r@) == dedup(cands.subrange(0, j as int)),
        decreases all@.len() - j,
    {
        let s = all[j].clone();
        push_new(&mut r, s);
        j = j + 1;
        assert(cands.subrange(0, j as int).drop_last() =~= cands.subrange(0, j - 1));
    }
    assert(cands.subrange(0, cands.len() as int) =~= cands);
    r
}

} // verus!
