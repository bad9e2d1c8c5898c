//! Tablet presets and the bindings from window class to preset.
//!
//! Presets are a set of names; bindings map a lower-cased window class to a
//! preset name. Both follow the preset directory, the settings store and
//! the focused window.
use vstd::prelude::*;
use crate::keyed::{
    unique_names, to_map, lemma_to_map_index, lemma_to_map_absent, lemma_to_map_update,
    lemma_push_fresh, lemma_to_map_remove,
};
use crate::frames::strs;
use crate::paths::{file_stem, stem_of};
use crate::text::{
    split_on, trim, trim_start, trim_end, lower_of, is_space_char, chars_of, split_chars,
    string_of_range, range_is, to_lower, lemma_split_on_nonempty, unquoted, unquote,
};

verus! {

#[verifier::external_type_specification]
#[verifier::external_body]
pub struct ExJsonError(serde_json::Error);

/// The JSON object text that serde_json writes for a map of strings with
/// these entries.
pub uninterp spec fn bindings_json(b: Seq<(Seq<char>, Seq<char>)>) -> Seq<char>;

/// Relies on `serde_json::to_string` over a `serde_json::Map` of string
/// values: the JSON object text of the entries, which depends on the
/// entries alone. Writing a map of strings into a `Vec` does not fail.
#[verifier::external_body]
fn json_of_bindings(b: &Vec<(String, String)>) -> (r: Result<String, serde_json::Error>)
    ensures
        r is Ok,
        match r {
            Ok(s) => s@ == bindings_json(pairs(b@)),
            Err(_) => true,
        },
{
    let m: serde_json::Map<String, serde_json::Value> = b.iter().map(
        |(k, v)| (k.clone(), serde_json::Value::String(v.clone())),
    ).collect();
    serde_json::to_string(&m)
}

/// The view of a list of bindings.
pub open spec fn pairs(v: Seq<(String, String)>) -> Seq<(Seq<char>, Seq<char>)> {
    v.map_values(|p: (String, String)| (p.0@, p.1@))
}

/// Entries `s` after setting key `k` to `v`: in place where `k` is present,
/// appended otherwise.
pub open spec fn set_entry(s: Seq<(Seq<char>, Seq<char>)>, k: Seq<char>, v: Seq<char>) -> Seq<
    (Seq<char>, Seq<char>),
> {
    if exists|i: int| 0 <= i < s.len() && #[trigger] s[i].0 == k {
        let i = choose|i: int| 0 <= i < s.len() && #[trigger] s[i].0 == k;
        s.update(i, (k, v))
    } else {
        s.push((k, v))
    }
}

/// Entries `s` without the one of key `k`.
pub open spec fn remove_entry(s: Seq<(Seq<char>, Seq<char>)>, k: Seq<char>) -> Seq<
    (Seq<char>, Seq<char>),
> {
    if exists|i: int| 0 <= i < s.len() && #[trigger] s[i].0 == k {
        let i = choose|i: int| 0 <= i < s.len() && #[trigger] s[i].0 == k;
        s.remove(i)
    } else {
        s
    }
}

/// Failures of the binding methods.
#[derive(Clone, Copy, Debug, PartialEq, Eq, Structural)]
pub enum TabletError {
    /// `modify_binding` named a window class that has no binding.
    BindingNotFound,
}

/// What the preset directory reported in one debounce window.
pub enum PresetChange {
    /// Preset files were created at these paths.
    Created(Vec<String>),
    /// Preset files were removed from these paths.
    Removed(Vec<String>),
    /// Preset files were renamed: the paths come in `from, to` pairs.
    Renamed(Vec<String>),
}

/// The stems of a list of paths.
pub open spec fn stems(paths: Seq<String>) -> Seq<Seq<char>> {
    paths.map_values(|p: String| file_stem(p@))
}

/// Presets after the renames of `names` (read as `from, to` pairs, front
/// to back): a present `from` is replaced by its `to`.
pub open spec fn renamed_presets(s: Set<Seq<char>>, names: Seq<Seq<char>>, pairs_done: int) -> Set<
    Seq<char>,
>
    decreases pairs_done,
{
    if pairs_done <= 0 {
        s
    } else {
        let prev = renamed_presets(s, names, pairs_done - 1);
        let from = names[2 * pairs_done - 2];
        let to = names[2 * pairs_done - 1];
        if prev.contains(from) {
            prev.remove(from).insert(to)
        } else {
            prev
        }
    }
}

/// Bindings after one rename `from -> to`: every binding to `from` now
/// names `to`.
pub open spec fn retargeted(m: Map<Seq<char>, Seq<char>>, from: Seq<char>, to: Seq<char>) -> Map<
    Seq<char>,
    Seq<char>,
> {
    Map::new(|k: Seq<char>| m.contains_key(k), |k: Seq<char>| if m[k] == from { to } else { m[k] })
}

/// Bindings after the renames of `names` (read as `from, to` pairs, front
/// to back, as `renamed_presets` reads them).
pub open spec fn rebound(m: Map<Seq<char>, Seq<char>>, names: Seq<Seq<char>>, pairs_done: int) -> Map<
    Seq<char>,
    Seq<char>,
>
    decreases pairs_done,
{
    if pairs_done <= 0 {
        m
    } else {
        retargeted(
            rebound(m, names, pairs_done - 1),
            names[2 * pairs_done - 2],
            names[2 * pairs_done - 1],
        )
    }
}

/// Bindings without those to a preset in `gone`.
pub open spec fn unbound(m: Map<Seq<char>, Seq<char>>, gone: Set<Seq<char>>) -> Map<
    Seq<char>,
    Seq<char>,
> {
    Map::new(|k: Seq<char>| m.contains_key(k) && !gone.contains(m[k]), |k: Seq<char>| m[k])
}

/// The preset to apply when a window of class `class` gets focus, given the
/// preset applied last: the binding of the lower-cased class, unless it
/// names the preset applied last.
pub open spec fn focus_preset(last: Seq<char>, m: Map<Seq<char>, Seq<char>>, class: Seq<char>) -> Option<
    Seq<char>,
> {
    let k = lower_of(class);
    if m.contains_key(k) && m[k] != last {
        Some(m[k])
    } else {
        None
    }
}

/// Whether `s` is bracketed as a settings map: `{...}` or `[...]`.
pub open spec fn bracketed(t: Seq<char>) -> bool {
    t.len() >= 2 && (t.last() == '}' || t.last() == ']') && (t[0] == '{' || t[0] == '[')
}

/// The binding that one `key: value` piece of a settings value denotes:
/// the text before the first `:` and after the last `:`, trimmed.
pub open spec fn binding_entry(piece: Seq<char>) -> (Seq<char>, Seq<char>) {
    let parts = split_on(piece, ':');
    (trim(parts[0]), trim(parts.last()))
}

/// The bindings of the comma-separated pieces `ps`; a piece with an empty
/// key binds nothing, and a later piece overrides an earlier one.
pub open spec fn bindings_of_pieces(ps: Seq<Seq<char>>) -> Map<Seq<char>, Seq<char>>
    decreases ps.len(),
{
    if ps.len() == 0 {
        Map::empty()
    } else {
        let m = bindings_of_pieces(ps.drop_last());
        let e = binding_entry(ps.last());
        if e.0.len() == 0 {
            m
        } else {
            m.insert(e.0, e.1)
        }
    }
}

/// `s` without a leading `bindings:` key, as the settings monitor prints it.
pub open spec fn without_key(s: Seq<char>) -> Seq<char> {
    if s.len() >= 9 && s.subrange(0, 9) == "bindings:"@ {
        s.subrange(9, s.len() as int)
    } else {
        s
    }
}

/// The bindings that a value of the settings store holds, or `None` where
/// the value is not a bracketed map.
pub open spec fn setting_bindings(val: Seq<char>) -> Option<Map<Seq<char>, Seq<char>>> {
    let t = trim(unquoted(without_key(val)));
    if bracketed(t) {
        Some(bindings_of_pieces(split_on(t.subrange(1, t.len() - 1), ',')))
    } else {
        None
    }
}

/// Where `trim` cuts `v`.
pub(crate) fn trim_bounds(v: &Vec<char>, from: usize, to: usize) -> (r: (usize, usize))
    requires
        from <= to <= v@.len(),
    ensures
        from <= r.0 <= r.1 <= to,
        v@.subrange(r.0 as int, r.1 as int) == trim(v@.subrange(from as int, to as int)),
{
    let mut b: usize = to;
    while b > from && is_space_char(v[b - 1])
        invariant
            from <= b <= to <= v@.len(),
            trim_end(v@.subrange(from as int, to as int)) == trim_end(
                v@.subrange(from as int, b as int),
            ),
        decreases b,
    {
        assert(v@.subrange(from as int, b as int).drop_last() =~= v@.subrange(from as int, b - 1));
        b = b - 1;
    }
    let ghost e = v@.subrange(from as int, b as int);
    assert(trim_end(e) == e);
    let mut a: usize = from;
    while a < b && is_space_char(v[a])
        invariant
            from <= a <= b <= to <= v@.len(),
            trim_start(e) == trim_start(v@.subrange(a as int, b as int)),
        decreases b - a,
    {
        assert(v@.subrange(a as int, b as int).drop_first() =~= v@.subrange(a + 1, b as int));
        a = a + 1;
    }
    (a, b)
}

/// Where key `k` stands among the bindings `v`.
fn find_key(v: &Vec<(String, String)>, k: &String) -> (r: Option<usize>)
    requires
        unique_names(pairs(v@)),
    ensures
        match r {
            Some(i) => i < v@.len() && v@[i as int].0@ == k@ && to_map(pairs(v@)).contains_key(k@)
                && to_map(pairs(v@))[k@] == v@[i as int].1@,
            None => !to_map(pairs(v@)).contains_key(k@) && forall|j: int|
                0 <= j < v@.len() ==> #[trigger] pairs(v@)[j].0 != k@,
        },
{
    let ghost p = pairs(v@);
    let mut i: usize = 0;
    while i < v.len()
        invariant
            i <= v@.len(),
            p == pairs(v@),
            unique_names(p),
            forall|j: int| 0 <= j < i ==> #[trigger] p[j].0 != k@,
        decreases v@.len() - i,
    {
        if v[i].0.eq(k) {
            proof { lemma_to_map_index(p, i as int); }
            return Some(i);
        }
        i = i + 1;
    }
    proof { lemma_to_map_absent(p, k@); }
    None
}

/// Sets binding `k` to `val` in `v`.
fn set_binding(v: &mut Vec<(String, String)>, k: String, val: String)
    requires
        unique_names(pairs(old(v)@)),
    ensures
        unique_names(pairs(final(v)@)),
        pairs(final(v)@) == set_entry(pairs(old(v)@), k@, val@),
        to_map(pairs(final(v)@)) == to_map(pairs(old(v)@)).insert(k@, val@),
{
    let ghost p = pairs(v@);
    match find_key(v, &k) {
        Some(i) => {
            proof {
                assert(p[i as int].0 == k@);
                lemma_to_map_update(p, i as int, (k@, val@));
                assert(exists|j: int| 0 <= j < p.len() && #[trigger] p[j].0 == k@);
                let j = choose|j: int| 0 <= j < p.len() && #[trigger] p[j].0 == k@;
                if j != i {
                    assert(p[j].0 != p[i as int].0);
                }
                assert(j == i);
            }
            let ghost kv = k@;
            let ghost vv = val@;
            v.set(i, (k, val));
            assert(pairs(v@) =~= p.update(i as int, (kv, vv)));
        },
        None => {
            proof { lemma_push_fresh(p, (k@, val@)); }
            let ghost kv = k@;
            let ghost vv = val@;
            v.push((k, val));
            assert(pairs(v@) =~= p.push((kv, vv)));
        },
    }
}

/// Removes binding `k` from `v`, if present.
fn remove_binding_of(v: &mut Vec<(String, String)>, k: &String)
    requires
        unique_names(pairs(old(v)@)),
    ensures
        unique_names(pairs(final(v)@)),
        pairs(final(v)@) == remove_entry(pairs(old(v)@), k@),
        to_map(pairs(final(v)@)) == to_map(pairs(old(v)@)).remove(k@),
{
    let ghost p = pairs(v@);
    match find_key(v, k) {
        Some(i) => {
            proof {
                assert(p[i as int].0 == k@);
                lemma_to_map_remove(p, i as int);
                assert(exists|j: int| 0 <= j < p.len() && #[trigger] p[j].0 == k@);
                let j = choose|j: int| 0 <= j < p.len() && #[trigger] p[j].0 == k@;
                if j != i {
                    assert(p[j].0 != p[i as int].0);
                }
                assert(j == i);
            }
            v.remove(i);
            assert(pairs(v@) =~= p.remove(i as int));
        },
        None => {
            assert(to_map(p).remove(k@) =~= to_map(p));
        },
    }
}

/// Parses the value of the bindings key of the settings store: an optional
/// `bindings:` key, quotes around and inside the value, then a bracketed
/// list of `class: preset` pieces separated by commas.
pub fn parse_bindings(val: &str) -> (r: Option<Vec<(String, String)>>)
    ensures
        r is Some <==> setting_bindings(val@) is Some,
        match r {
            Some(v) => unique_names(pairs(v@)) && to_map(pairs(v@)) == setting_bindings(val@)->0,
            None => true,
        },
{
    let all = chars_of(val);
    let skip: usize = if all.len() >= 9 && range_is(&all, 0, 9, "bindings:") {
        9
    } else {
        0
    };
    let ghost wk = without_key(val@);
    let mut rest: Vec<char> = Vec::new();
    let mut i: usize = skip;
    while i < all.len()
        invariant
            skip <= i <= all@.len(),
            rest@ == all@.subrange(skip as int, i as int),
        decreases all@.len() - i,
    {
        rest.push(all[i]);
        i = i + 1;
        assert(rest@ =~= all@.subrange(skip as int, i as int));
    }
    assert(rest@ =~= wk) by {
        if skip == 0 {
            assert(all@.subrange(0, all@.len() as int) =~= all@);
        }
    }
    let u = unquote(&rest);
    let (a, b) = trim_bounds(&u, 0, u.len());
    assert(u@.subrange(0, u@.len() as int) =~= u@);
    let ghost t = trim(unquoted(wk));
    if !(b >= 2 && a <= b - 2 && (u[b - 1] == '}' || u[b - 1] == ']') && (u[a] == '{' || u[a] == '[')) {
        return None;
    }
    let mut inner: Vec<char> = Vec::new();
    let mut j: usize = a + 1;
    while j < b - 1
        invariant
            a + 1 <= j <= b - 1,
            b <= u@.len(),
            inner@ == u@.subrange(a + 1, j as int),
        decreases b - 1 - j,
    {
        inner.push(u[j]);
        j = j + 1;
        assert(inner@ =~= u@.subrange(a + 1, j as int));
    }
    assert(inner@ =~= t.subrange(1, t.len() - 1));
    let pieces = split_chars(&inner, ',');
    let ghost ps = split_on(inner@, ',');
    let mut out: Vec<(String, String)> = Vec::new();
    let mut n: usize = 0;
    assert(ps.subrange(0, 0) =~= Seq::<Seq<char>>::empty());
    assert(to_map(pairs(out@)) =~= Map::<Seq<char>, Seq<char>>::empty());
    while n < pieces.len()
        invariant
            n <= pieces@.len(),
            pieces@.len() == ps.len(),
            forall|k: int| 0 <= k < pieces@.len() ==> #[trigger] pieces@[k]@ == ps[k],
            unique_names(pairs(out@)),
            to_map(pairs(out@)) == bindings_of_pieces(ps.subrange(0, n as int)),
        decreases pieces@.len() - n,
    {
        let piece = &pieces[n];
        let parts = split_chars(piece, ':');
        proof { lemma_split_on_nonempty(piece@, ':'); }
        let first = &parts[0];
        let last = &parts[parts.len() - 1];
        let (k0, k1) = trim_bounds(first, 0, first.len());
        let (v0, v1) = trim_bounds(last, 0, last.len());
        assert(first@.subrange(0, first@.len() as int) =~= first@);
        assert(last@.subrange(0, last@.len() as int) =~= last@);
        let key = string_of_range(first, k0, k1);
        let value = string_of_range(last, v0, v1);
        n = n + 1;
        assert(ps.subrange(0, n as int).drop_last() =~= ps.subrange(0, n - 1));
        if k1 > k0 {
            set_binding(&mut out, key, value);
        }
    }
    assert(ps.subrange(0, n as int) =~= ps);
    Some(out)
}

/// Whether two lists of bindings denote the same map.
fn same_bindings(a: &Vec<(String, String)>, b: &Vec<(String, String)>) -> (r: bool)
    requires
        unique_names(pairs(a@)),
        unique_names(pairs(b@)),
    ensures
        r == (to_map(pairs(a@)) == to_map(pairs(b@))),
{
    let ghost ma = to_map(pairs(a@));
    let ghost mb = to_map(pairs(b@));
    let mut i: usize = 0;
    while i < a.len()
        invariant
            i <= a@.len(),
            unique_names(pairs(a@)),
            unique_names(pairs(b@)),
            ma == to_map(pairs(a@)),
            mb == to_map(pairs(b@)),
            forall|j: int| 0 <= j < i ==> mb.contains_key(#[trigger] pairs(a@)[j].0) && mb[pairs(
                a@,
            )[j].0] == pairs(a@)[j].1,
        decreases a@.len() - i,
    {
        assert(pairs(a@)[i as int] == (a@[i as int].0@, a@[i as int].1@));
        match find_key(b, &a[i].0) {
            Some(p) => {
                if !b[p].1.eq(&a[i].1) {
                    proof { lemma_to_map_index(pairs(a@), i as int); }
                    return false;
                }
            },
            None => {
                proof { lemma_to_map_index(pairs(a@), i as int); }
                return false;
            },
        }
        i = i + 1;
    }
    let mut i: usize = 0;
    while i < b.len()
        invariant
            i <= b@.len(),
            unique_names(pairs(a@)),
            unique_names(pairs(b@)),
            ma == to_map(pairs(a@)),
            mb == to_map(pairs(b@)),
            forall|j: int| 0 <= j < a@.len() ==> mb.contains_key(#[trigger] pairs(a@)[j].0) && mb[pairs(
                a@,
            )[j].0] == pairs(a@)[j].1,
            forall|j: int| 0 <= j < i ==> ma.contains_key(#[trigger] pairs(b@)[j].0),
        decreases b@.len() - i,
    {
        assert(pairs(b@)[i as int] == (b@[i as int].0@, b@[i as int].1@));
        match find_key(a, &b[i].0) {
            Some(_) => {},
            None => {
                proof { lemma_to_map_index(pairs(b@), i as int); }
                return false;
            },
        }
        i = i + 1;
    }
    proof {
        assert forall|k: Seq<char>| #[trigger] ma.contains_key(k) <==> mb.contains_key(k) by {
            if ma.contains_key(k) {
                crate::keyed::lemma_to_map_key(pairs(a@), k);
            }
            if mb.contains_key(k) {
                crate::keyed::lemma_to_map_key(pairs(b@), k);
            }
        }
        assert forall|k: Seq<char>| #[trigger] ma.contains_key(k) implies ma[k] == mb[k] by {
            crate::keyed::lemma_to_map_key(pairs(a@), k);
            let j = choose|j: int| 0 <= j < pairs(a@).len() && #[trigger] pairs(a@)[j].0 == k;
            lemma_to_map_index(pairs(a@), j);
        }
        assert(ma =~= mb);
    }
    true
}

/// The preset set and the binding map that the daemon exposes.
pub struct TabletInterface {
    presets: Vec<String>,
    bindings: Vec<(String, String)>,
}

impl TabletInterface {
    /// The preset names.
    pub closed spec fn presets_view(&self) -> Set<Seq<char>> {
        strs(self.presets@).to_set()
    }

    /// The bindings, in the order in which they are stored.
    pub closed spec fn bindings_seq(&self) -> Seq<(Seq<char>, Seq<char>)> {
        pairs(self.bindings@)
    }

    /// The bindings, by window class.
    pub open spec fn bindings_view(&self) -> Map<Seq<char>, Seq<char>> {
        to_map(self.bindings_seq())
    }

    /// Preset names are unique and so are the classes of the bindings.
    pub closed spec fn wf(&self) -> bool {
        strs(self.presets@).no_duplicates() && unique_names(pairs(self.bindings@))
    }

    /// The state read at start-up: the presets whose files stand at
    /// `preset_paths` and the bindings of the settings value `setting`
    /// (none where it does not parse).
    pub fn new(preset_paths: &Vec<String>, setting: &str) -> (r: Self)
        ensures
            r.wf(),
            r.presets_view() == stems(preset_paths@).to_set(),
            r.bindings_view() == match setting_bindings(setting@) {
                Some(m) => m,
                None => Map::empty(),
            },
    {
        let mut t = TabletInterface { presets: Vec::new(), bindings: Vec::new() };
        assert(strs(t.presets@) =~= Seq::<Seq<char>>::empty());
        assert(t.presets_view() =~= Set::<Seq<char>>::empty());
        let mut i: usize = 0;
        while i < preset_paths.len()
            invariant
                i <= preset_paths@.len(),
                t.wf(),
                t.presets_view() == stems(preset_paths@.subrange(0, i as int)).to_set(),
                t.bindings@.len() == 0,
            decreases preset_paths@.len() - i,
        {
            let name = stem_of(preset_paths[i].as_str());
            t.add_preset(name);
            i = i + 1;
            assert(stems(preset_paths@.subrange(0, i as int)) =~= stems(
                preset_paths@.subrange(0, i - 1),
            ).push(file_stem(preset_paths@[i - 1]@)));
            proof { lemma_set_push(stems(preset_paths@.subrange(0, i - 1)), file_stem(preset_paths@[i - 1]@)); }
        }
        assert(preset_paths@.subrange(0, preset_paths@.len() as int) =~= preset_paths@);
        match parse_bindings(setting) {
            Some(b) => {
                t.bindings = b;
            },
            None => {
                assert(to_map(pairs(t.bindings@)) =~= Map::<Seq<char>, Seq<char>>::empty());
            },
        }
        t
    }

    /// The preset names.
    pub fn presets(&self) -> (r: Vec<String>)
        requires
            self.wf(),
        ensures
            strs(r@).to_set() == self.presets_view(),
            strs(r@).no_duplicates(),
    {
        let mut r: Vec<String> = Vec::new();
        let mut i: usize = 0;
        while i < self.presets.len()
            invariant
                i <= self.presets@.len(),
                strs(r@) == strs(self.presets@).subrange(0, i as int),
            decreases self.presets@.len() - i,
        {
            let s = self.presets[i].clone();
            let ghost before = strs(r@);
            r.push(s);
            assert(strs(r@) =~= before.push(s@));
            i = i + 1;
            assert(strs(r@) =~= strs(self.presets@).subrange(0, i as int));
        }
        assert(strs(r@) =~= strs(self.presets@));
        r
    }

    /// The bindings as `(class, preset)` pairs.
    pub fn bindings(&self) -> (r: Vec<(String, String)>)
        ensures
            pairs(r@) == self.bindings_seq(),
    {
        let mut r: Vec<(String, String)> = Vec::new();
        let mut i: usize = 0;
        while i < self.bindings.len()
            invariant
                i <= self.bindings@.len(),
                pairs(r@) == pairs(self.bindings@).subrange(0, i as int),
            decreases self.bindings@.len() - i,
        {
            let k = self.bindings[i].0.clone();
            let v = self.bindings[i].1.clone();
            let ghost before = pairs(r@);
            r.push((k, v));
            assert(pairs(r@) =~= before.push((k@, v@)));
            i = i + 1;
            assert(pairs(r@) =~= pairs(self.bindings@).subrange(0, i as int));
        }
        assert(pairs(r@) =~= pairs(self.bindings@));
        r
    }

    /// The preset bound to window class `class`, if any.
    pub fn binding_for(&self, class: &String) -> (r: Option<String>)
        requires
            self.wf(),
        ensures
            match r {
                Some(p) => self.bindings_view().contains_key(class@) && self.bindings_view()[class@]
                    == p@,
                None => !self.bindings_view().contains_key(class@),
            },
    {
        match find_key(&self.bindings, class) {
            Some(i) => Some(self.bindings[i].1.clone()),
            None => None,
        }
    }

    fn preset_index(&self, name: &String) -> (r: Option<usize>)
        requires
            self.wf(),
        ensures
            match r {
                Some(i) => i < self.presets@.len() && self.presets@[i as int]@ == name@
                    && self.presets_view().contains(name@),
                None => !self.presets_view().contains(name@),
            },
    {
        let mut i: usize = 0;
        while i < self.presets.len()
            invariant
                i <= self.presets@.len(),
                forall|j: int| 0 <= j < i ==> #[trigger] strs(self.presets@)[j] != name@,
            decreases self.presets@.len() - i,
        {
            if self.presets[i].eq(name) {
                assert(strs(self.presets@)[i as int] == name@);
                assert(strs(self.presets@).contains(name@));
                return Some(i);
            }
            i = i + 1;
        }
        None
    }

    /// Adds a preset name; returns whether it was new.
    fn add_preset(&mut self, name: String) -> (r: bool)
        requires
            old(self).wf(),
        ensures
            final(self).wf(),
            final(self).presets_view() == old(self).presets_view().insert(name@),
            r == !old(self).presets_view().contains(name@),
            final(self).bindings == old(self).bindings,
    {
        match self.preset_index(&name) {
            Some(_) => {
                assert(self.presets_view().insert(name@) =~= self.presets_view());
                false
            },
            None => {
                let ghost before = strs(self.presets@);
                let ghost nv = name@;
                self.presets.push(name);
                assert(strs(self.presets@) =~= before.push(nv));
                proof { lemma_set_push(before, nv); }
                true
            },
        }
    }

    /// Removes a preset name; returns whether it was present.
    fn remove_preset(&mut self, name: &String) -> (r: bool)
        requires
            old(self).wf(),
        ensures
            final(self).wf(),
            final(self).presets_view() == old(self).presets_view().remove(name@),
            r == old(self).presets_view().contains(name@),
            final(self).bindings == old(self).bindings,
    {
        match self.preset_index(name) {
            Some(i) => {
                let ghost before = strs(self.presets@);
                self.presets.remove(i);
                assert(strs(self.presets@) =~= before.remove(i as int));
                proof { lemma_set_remove(before, i as int); }
                true
            },
            None => {
                assert(self.presets_view().remove(name@) =~= self.presets_view());
                false
            },
        }
    }

    /// Sets the binding of `app` to `preset` once the settings store has
    /// taken the value that `add_binding` or `modify_binding` serialised;
    /// the stored order matches that value.
    pub fn commit_binding(&mut self, app: String, preset: String)
        requires
            old(self).wf(),
        ensures
            final(self).wf(),
            final(self).presets_view() == old(self).presets_view(),
            final(self).bindings_seq() == set_entry(old(self).bindings_seq(), app@, preset@),
            final(self).bindings_view() == old(self).bindings_view().insert(app@, preset@),
    {
        set_binding(&mut self.bindings, app, preset);
    }

    /// Drops the binding of `app` once the settings store has taken the
    /// value that `remove_binding` serialised.
    pub fn commit_removal(&mut self, app: &String)
        requires
            old(self).wf(),
        ensures
            final(self).wf(),
            final(self).presets_view() == old(self).presets_view(),
            final(self).bindings_seq() == remove_entry(old(self).bindings_seq(), app@),
            final(self).bindings_view() == old(self).bindings_view().remove(app@),
    {
        remove_binding_of(&mut self.bindings, app);
    }

    /// Serialises the bindings that adding `app -> preset` would give, for
    /// the settings store. The state changes only through `commit_binding`,
    /// once the store has taken the value.
    pub fn add_binding(&self, app: &String, preset: &String) -> (r: Result<String, TabletError>)
        requires
            self.wf(),
        ensures
            r matches Ok(j) && j@ == bindings_json(set_entry(self.bindings_seq(), app@, preset@)),
    {
        let mut b = self.bindings();
        set_binding(&mut b, app.clone(), preset.clone());
        serialize(&b)
    }

    /// As `add_binding`, for a class that must already have a binding.
    pub fn modify_binding(&self, app: &String, preset: &String) -> (r: Result<String, TabletError>)
        requires
            self.wf(),
        ensures
            !self.bindings_view().contains_key(app@) ==> r == Err::<String, TabletError>(
                TabletError::BindingNotFound,
            ),
            self.bindings_view().contains_key(app@) ==> (r matches Ok(j) && j@ == bindings_json(
                set_entry(self.bindings_seq(), app@, preset@),
            )),
    {
        match find_key(&self.bindings, app) {
            None => Err(TabletError::BindingNotFound),
            Some(_) => self.add_binding(app, preset),
        }
    }

    /// Serialises the bindings without the one of `app`, for the settings
    /// store. The state changes only through `commit_removal`, once the
    /// store has taken the value.
    pub fn remove_binding(&self, app: &String) -> (r: Result<String, TabletError>)
        requires
            self.wf(),
        ensures
            r matches Ok(j) && j@ == bindings_json(remove_entry(self.bindings_seq(), app@)),
    {
        let mut b = self.bindings();
        remove_binding_of(&mut b, app);
        serialize(&b)
    }

    /// Takes a new value of the settings store: where it parses to bindings
    /// other than the current ones, they replace them and the result is
    /// `true`; otherwise nothing changes.
    pub fn update_from_setting(&mut self, value: &str) -> (r: bool)
        requires
            old(self).wf(),
        ensures
            final(self).wf(),
            final(self).presets_view() == old(self).presets_view(),
            r == (setting_bindings(value@) is Some && setting_bindings(value@)->0 != old(
                self,
            ).bindings_view()),
            final(self).bindings_view() == if r {
                setting_bindings(value@)->0
            } else {
                old(self).bindings_view()
            },
    {
        match parse_bindings(value) {
            None => false,
            Some(b) => {
                if same_bindings(&b, &self.bindings) {
                    false
                } else {
                    self.bindings = b;
                    true
                }
            },
        }
    }

    /// Applies what the preset directory reported. Created files add their
    /// stems to the presets; removed files take theirs away, with every
    /// binding to them; renames (an even number of paths, read as
    /// `from, to` pairs) replace each present `from` by its `to` and move
    /// every binding to a renamed preset along. An odd number of renamed
    /// paths changes nothing. Returns two flags, for the presets and for
    /// the bindings; a `false` flag means that part did not change.
    pub fn apply_preset_change(&mut self, change: &PresetChange) -> (r: (bool, bool))
        requires
            old(self).wf(),
        ensures
            final(self).wf(),
            r.0 == (final(self).presets_view() != old(self).presets_view()),
            r.1 == (final(self).bindings_view() != old(self).bindings_view()),
            match change {
                PresetChange::Created(p) => final(self).presets_view() == old(self).presets_view().union(
                    stems(p@).to_set(),
                ) && final(self).bindings_view() == old(self).bindings_view(),
                PresetChange::Removed(p) => final(self).presets_view() == old(
                    self,
                ).presets_view().difference(stems(p@).to_set()) && final(self).bindings_view()
                    == unbound(old(self).bindings_view(), stems(p@).to_set()),
                PresetChange::Renamed(p) => if p@.len() % 2 == 0 {
                    final(self).presets_view() == renamed_presets(
                        old(self).presets_view(),
                        stems(p@),
                        (p@.len() / 2) as int,
                    ) && final(self).bindings_view() == rebound(
                        old(self).bindings_view(),
                        stems(p@),
                        (p@.len() / 2) as int,
                    )
                } else {
                    final(self).presets_view() == old(self).presets_view()
                        && final(self).bindings_view() == old(self).bindings_view()
                },
            },
    {
        let presets_before = self.presets();
        let bindings_before = self.bindings();
        match change {
            PresetChange::Created(p) => {
                self.add_stems(p);
            },
            PresetChange::Removed(p) => {
                let names = stems_of(p);
                self.remove_names(&names);
                self.drop_bindings_to(&names);
            },
            PresetChange::Renamed(p) => {
                if p.len() % 2 == 0 {
                    let names = stems_of(p);
                    assert(strs(names@).len() == names@.len());
                    self.rename_presets(&names);
                    self.follow_renames(&names);
                }
            },
        }
        self.changes_since(&presets_before, &bindings_before)
    }

    /// Which parts differ from an earlier copy of the presets and bindings.
    fn changes_since(&self, presets_before: &Vec<String>, bindings_before: &Vec<(String, String)>) -> (r: (
        bool,
        bool,
    ))
        requires
            self.wf(),
            unique_names(pairs(bindings_before@)),
        ensures
            r.0 == (self.presets_view() != strs(presets_before@).to_set()),
            r.1 == (self.bindings_view() != to_map(pairs(bindings_before@))),
    {
        let p = !same_presets(presets_before, &self.presets);
        let b = !same_bindings(bindings_before, &self.bindings);
        (p, b)
    }

    /// Applies one debounce window of the preset directory, given the paths
    /// it reported removed and created. As many removed as created paths
    /// (at least one) are renames, the `i`-th removed one to the `i`-th
    /// created one; otherwise the removals apply, then the creations.
    pub fn apply_batch(&mut self, removed: &Vec<String>, created: &Vec<String>) -> (r: (bool, bool))
        requires
            old(self).wf(),
        ensures
            final(self).wf(),
            r.0 == (final(self).presets_view() != old(self).presets_view()),
            r.1 == (final(self).bindings_view() != old(self).bindings_view()),
            removed@.len() == created@.len() && removed@.len() > 0 ==> {
                let names = interleave(stems(removed@), stems(created@));
                &&& final(self).presets_view() == renamed_presets(
                    old(self).presets_view(),
                    names,
                    removed@.len() as int,
                )
                &&& final(self).bindings_view() == rebound(
                    old(self).bindings_view(),
                    names,
                    removed@.len() as int,
                )
            },
            !(removed@.len() == created@.len() && removed@.len() > 0) ==> {
                &&& final(self).presets_view() == old(self).presets_view().difference(
                    stems(removed@).to_set(),
                ).union(stems(created@).to_set())
                &&& final(self).bindings_view() == unbound(
                    old(self).bindings_view(),
                    stems(removed@).to_set(),
                )
            },
    {
        let presets_before = self.presets();
        let bindings_before = self.bindings();
        if removed.len() == created.len() && removed.len() > 0 {
            let from = stems_of(removed);
            let to = stems_of(created);
            assert(strs(from@).len() == from@.len() && stems(removed@).len() == removed@.len());
            assert(strs(to@).len() == to@.len() && stems(created@).len() == created@.len());
            let names = interleaved(&from, &to);
            assert(strs(names@).len() == names@.len());
            assert(names@.len() == 2 * removed@.len());
            self.rename_presets(&names);
            self.follow_renames(&names);
        } else {
            let gone = stems_of(removed);
            self.remove_names(&gone);
            self.drop_bindings_to(&gone);
            self.add_stems(created);
        }
        self.changes_since(&presets_before, &bindings_before)
    }

    fn add_stems(&mut self, p: &Vec<String>) -> (r: bool)
        requires
            old(self).wf(),
        ensures
            final(self).wf(),
            final(self).presets_view() == old(self).presets_view().union(stems(p@).to_set()),
            final(self).bindings == old(self).bindings,
            !r ==> final(self).presets_view() == old(self).presets_view(),
    {
        let ghost s0 = self.presets_view();
        let mut changed = false;
        let mut i: usize = 0;
        assert(stems(p@.subrange(0, 0)).to_set() =~= Set::<Seq<char>>::empty());
        assert(s0.union(Set::<Seq<char>>::empty()) =~= s0);
        while i < p.len()
            invariant
                i <= p@.len(),
                self.wf(),
                self.bindings == old(self).bindings,
                s0 == old(self).presets_view(),
                self.presets_view() == s0.union(stems(p@.subrange(0, i as int)).to_set()),
                !changed ==> self.presets_view() == s0,
            decreases p@.len() - i,
        {
            let name = stem_of(p[i].as_str());
            let ghost before = stems(p@.subrange(0, i as int));
            let ghost view_before = self.presets_view();
            let ghost nv = name@;
            if self.add_preset(name) {
                changed = true;
            } else {
                assert(view_before.insert(nv) =~= view_before);
            }
            i = i + 1;
            assert(stems(p@.subrange(0, i as int)) =~= before.push(file_stem(p@[i - 1]@)));
            proof { lemma_set_push(before, file_stem(p@[i - 1]@)); }
            assert(self.presets_view() =~= s0.union(stems(p@.subrange(0, i as int)).to_set()));
        }
        assert(p@.subrange(0, p@.len() as int) =~= p@);
        changed
    }

    fn remove_names(&mut self, names: &Vec<String>) -> (r: bool)
        requires
            old(self).wf(),
        ensures
            final(self).wf(),
            final(self).presets_view() == old(self).presets_view().difference(strs(names@).to_set()),
            final(self).bindings == old(self).bindings,
            !r ==> final(self).presets_view() == old(self).presets_view(),
    {
        let ghost s0 = self.presets_view();
        let mut changed = false;
        let mut i: usize = 0;
        assert(strs(names@.subrange(0, 0)).to_set() =~= Set::<Seq<char>>::empty());
        assert(s0.difference(Set::<Seq<char>>::empty()) =~= s0);
        while i < names.len()
            invariant
                i <= names@.len(),
                self.wf(),
                self.bindings == old(self).bindings,
                s0 == old(self).presets_view(),
                self.presets_view() == s0.difference(strs(names@.subrange(0, i as int)).to_set()),
                !changed ==> self.presets_view() == s0,
            decreases names@.len() - i,
        {
            let ghost before = strs(names@.subrange(0, i as int));
            let ghost view_before = self.presets_view();
            if self.remove_preset(&names[i]) {
                changed = true;
            } else {
                assert(view_before.remove(names@[i as int]@) =~= view_before);
            }
            i = i + 1;
            assert(strs(names@.subrange(0, i as int)) =~= before.push(names@[i - 1]@));
            proof { lemma_set_push(before, names@[i - 1]@); }
            assert(self.presets_view() =~= s0.difference(strs(names@.subrange(0, i as int)).to_set()));
        }
        assert(names@.subrange(0, names@.len() as int) =~= names@);
        changed
    }

    fn drop_bindings_to(&mut self, names: &Vec<String>) -> (r: bool)
        requires
            old(self).wf(),
        ensures
            final(self).wf(),
            final(self).presets == old(self).presets,
            final(self).bindings_view() == unbound(old(self).bindings_view(), strs(names@).to_set()),
            !r ==> final(self).bindings_view() == old(self).bindings_view(),
    {
        let ghost gone = strs(names@).to_set();
        let ghost p = pairs(self.bindings@);
        let ghost m0 = to_map(p);
        let mut kept: Vec<(String, String)> = Vec::new();
        let mut dropped = false;
        let mut i: usize = 0;
        assert(to_map(pairs(kept@)) =~= unbound(to_map(p.subrange(0, 0)), gone));
        assert(to_map(pairs(kept@)) =~= to_map(p.subrange(0, 0)));
        while i < self.bindings.len()
            invariant
                i <= self.bindings@.len(),
                p == pairs(self.bindings@),
                unique_names(p),
                self.wf(),
                self.presets == old(self).presets,
                self.bindings == old(self).bindings,
                gone == strs(names@).to_set(),
                unique_names(pairs(kept@)),
                to_map(pairs(kept@)) == unbound(to_map(p.subrange(0, i as int)), gone),
                !dropped ==> to_map(pairs(kept@)) == to_map(p.subrange(0, i as int)),
            decreases self.bindings@.len() - i,
        {
            let ghost pre = p.subrange(0, i as int);
            let e = &self.bindings[i];
            assert(p.subrange(0, i + 1) =~= pre.push(p[i as int]));
            assert(p.subrange(0, i + 1).drop_last() =~= pre);
            assert(p[i as int] == (self.bindings@[i as int].0@, self.bindings@[i as int].1@));
            assert(unique_names(p.subrange(0, i + 1))) by {
                assert forall|x: int, y: int|
                    0 <= x < i + 1 && 0 <= y < i + 1 && x != y implies #[trigger] p.subrange(
                    0,
                    i + 1,
                )[x].0 != #[trigger] p.subrange(0, i + 1)[y].0 by {
                    assert(p.subrange(0, i + 1)[x] == p[x]);
                    assert(p.subrange(0, i + 1)[y] == p[y]);
                }
            }
            assert(!to_map(pre).contains_key(p[i as int].0)) by {
                assert forall|j: int| 0 <= j < pre.len() implies #[trigger] pre[j].0 != p[i as int].0 by {
                    assert(pre[j] == p[j]);
                }
                lemma_to_map_absent(pre, p[i as int].0);
            }
            let hit = contains_name(names, &e.1);
            if hit {
                dropped = true;
                assert(unbound(to_map(p.subrange(0, i + 1)), gone) =~= unbound(to_map(pre), gone));
            } else {
                let k = e.0.clone();
                let v = e.1.clone();
                assert(!to_map(pairs(kept@)).contains_key(k@));
                let ghost kb = pairs(kept@);
                proof { lemma_push_fresh(kb, (k@, v@)); }
                kept.push((k, v));
                assert(pairs(kept@) =~= kb.push((p[i as int].0, p[i as int].1)));
                assert(unbound(to_map(p.subrange(0, i + 1)), gone) =~= unbound(to_map(pre), gone).insert(
                    p[i as int].0,
                    p[i as int].1,
                ));
            }
            i = i + 1;
        }
        assert(p.subrange(0, p.len() as int) =~= p);
        self.bindings = kept;
        dropped
    }

    fn rename_presets(&mut self, names: &Vec<String>) -> (r: bool)
        requires
            old(self).wf(),
            names@.len() % 2 == 0,
        ensures
            final(self).wf(),
            final(self).presets_view() == renamed_presets(
                old(self).presets_view(),
                strs(names@),
                (names@.len() / 2) as int,
            ),
            final(self).bindings == old(self).bindings,
            !r ==> final(self).presets_view() == old(self).presets_view(),
    {
        let ghost s0 = self.presets_view();
        let mut changed = false;
        let mut i: usize = 0;
        while i + 1 < names.len()
            invariant
                i % 2 == 0,
                i <= names@.len(),
                names@.len() % 2 == 0,
                self.wf(),
                self.bindings == old(self).bindings,
                s0 == old(self).presets_view(),
                self.presets_view() == renamed_presets(s0, strs(names@), (i / 2) as int),
                !changed ==> self.presets_view() == s0,
            decreases names@.len() - i,
        {
            let ghost view_before = self.presets_view();
            if self.remove_preset(&names[i]) {
                changed = true;
                self.add_preset(names[i + 1].clone());
            } else {
                assert(view_before.remove(names@[i as int]@) =~= view_before);
            }
            i = i + 2;
            assert(strs(names@)[i - 2] == names@[i - 2]@);
            assert(strs(names@)[i - 1] == names@[i - 1]@);
        }
        changed
    }

    fn follow_renames(&mut self, names: &Vec<String>)
        requires
            old(self).wf(),
            names@.len() % 2 == 0,
        ensures
            final(self).wf(),
            final(self).presets == old(self).presets,
            final(self).bindings_view() == rebound(
                old(self).bindings_view(),
                strs(names@),
                (names@.len() / 2) as int,
            ),
    {
        let ghost m0 = self.bindings_view();
        let mut i: usize = 0;
        while i + 1 < names.len()
            invariant
                i % 2 == 0,
                i <= names@.len(),
                names@.len() % 2 == 0,
                self.wf(),
                self.presets == old(self).presets,
                m0 == old(self).bindings_view(),
                self.bindings_view() == rebound(m0, strs(names@), (i / 2) as int),
            decreases names@.len() - i,
        {
            self.retarget(&names[i], &names[i + 1]);
            i = i + 2;
            assert(strs(names@)[i - 2] == names@[i - 2]@);
            assert(strs(names@)[i - 1] == names@[i - 1]@);
        }
    }

    /// Points every binding to `from` at `to`.
    fn retarget(&mut self, from: &String, to: &String)
        requires
            old(self).wf(),
        ensures
            final(self).wf(),
            final(self).presets == old(self).presets,
            final(self).bindings_view() == retargeted(old(self).bindings_view(), from@, to@),
    {
        let ghost p = pairs(self.bindings@);
        let mut out: Vec<(String, String)> = Vec::new();
        let mut i: usize = 0;
        assert(to_map(pairs(out@)) =~= retargeted(to_map(p.subrange(0, 0)), from@, to@));
        while i < self.bindings.len()
            invariant
                i <= self.bindings@.len(),
                p == pairs(self.bindings@),
                unique_names(p),
                self.wf(),
                self.presets == old(self).presets,
                self.bindings == old(self).bindings,
                pairs(out@).len() == i,
                forall|j: int| 0 <= j < i ==> (#[trigger] pairs(out@)[j]).0 == p[j].0,
                to_map(pairs(out@)) == retargeted(to_map(p.subrange(0, i as int)), from@, to@),
            decreases self.bindings@.len() - i,
        {
            let ghost pre = p.subrange(0, i as int);
            let e = &self.bindings[i];
            assert(p.subrange(0, i + 1) =~= pre.push(p[i as int]));
            assert(p.subrange(0, i + 1).drop_last() =~= pre);
            assert(p[i as int] == (self.bindings@[i as int].0@, self.bindings@[i as int].1@));
            let k = e.0.clone();
            let v = if e.1.eq(from) {
                to.clone()
            } else {
                e.1.clone()
            };
            let ghost ob = pairs(out@);
            assert(!to_map(ob).contains_key(k@)) by {
                assert forall|j: int| 0 <= j < ob.len() implies #[trigger] ob[j].0 != k@ by {
                    assert(p[j].0 != p[i as int].0);
                }
                lemma_to_map_absent(ob, k@);
            }
            proof { lemma_push_fresh(ob, (k@, v@)); }
            out.push((k, v));
            assert(pairs(out@) =~= ob.push((p[i as int].0, v@)));
            assert(retargeted(to_map(p.subrange(0, i + 1)), from@, to@) =~= retargeted(
                to_map(pre),
                from@,
                to@,
            ).insert(p[i as int].0, v@));
            i = i + 1;
        }
        assert(p.subrange(0, p.len() as int) =~= p);
        self.bindings = out;
    }
}

/// The sequence `a[0], b[0], a[1], b[1], ...` of two sequences of equal
/// length.
pub open spec fn interleave(a: Seq<Seq<char>>, b: Seq<Seq<char>>) -> Seq<Seq<char>> {
    Seq::new(2 * a.len(), |k: int| if k % 2 == 0 { a[k / 2] } else { b[k / 2] })
}

fn interleaved(a: &Vec<String>, b: &Vec<String>) -> (r: Vec<String>)
    requires
        a@.len() == b@.len(),
    ensures
        strs(r@) == interleave(strs(a@), strs(b@)),
{
    let mut r: Vec<String> = Vec::new();
    let mut i: usize = 0;
    while i < a.len()
        invariant
            i <= a@.len(),
            a@.len() == b@.len(),
            strs(r@) == interleave(strs(a@), strs(b@)).subrange(0, 2 * i),
        decreases a@.len() - i,
    {
        let ghost before = strs(r@);
        let x = a[i].clone();
        let y = b[i].clone();
        r.push(x);
        r.push(y);
        assert(strs(r@) =~= before.push(x@).push(y@));
        i = i + 1;
        assert(strs(r@) =~= interleave(strs(a@), strs(b@)).subrange(0, 2 * i));
    }
    assert(interleave(strs(a@), strs(b@)).subrange(0, 2 * a@.len() as int) =~= interleave(strs(a@), strs(b@)));
    r
}

/// Whether two lists of names hold the same set.
fn same_presets(a: &Vec<String>, b: &Vec<String>) -> (r: bool)
    ensures
        r == (strs(a@).to_set() == strs(b@).to_set()),
{
    let mut i: usize = 0;
    while i < a.len()
        invariant
            i <= a@.len(),
            forall|j: int| 0 <= j < i ==> strs(b@).to_set().contains(#[trigger] strs(a@)[j]),
        decreases a@.len() - i,
    {
        assert(strs(a@)[i as int] == a@[i as int]@);
        if !contains_name(b, &a[i]) {
            assert(strs(a@).contains(strs(a@)[i as int]));
            return false;
        }
        i = i + 1;
    }
    let mut i: usize = 0;
    while i < b.len()
        invariant
            i <= b@.len(),
            forall|j: int| 0 <= j < a@.len() ==> strs(b@).to_set().contains(#[trigger] strs(a@)[j]),
            forall|j: int| 0 <= j < i ==> strs(a@).to_set().contains(#[trigger] strs(b@)[j]),
        decreases b@.len() - i,
    {
        assert(strs(b@)[i as int] == b@[i as int]@);
        if !contains_name(a, &b[i]) {
            assert(strs(b@).contains(strs(b@)[i as int]));
            return false;
        }
        i = i + 1;
    }
    assert forall|x: Seq<char>| #[trigger] strs(a@).to_set().contains(x) <==> strs(b@).to_set().contains(x) by {
        if strs(a@).contains(x) {
            let j = choose|j: int| 0 <= j < strs(a@).len() && strs(a@)[j] == x;
        }
        if strs(b@).contains(x) {
            let j = choose|j: int| 0 <= j < strs(b@).len() && strs(b@)[j] == x;
        }
    }
    assert(strs(a@).to_set() =~= strs(b@).to_set());
    true
}

/// Whether `v` is one of `names`.
fn contains_name(names: &Vec<String>, v: &String) -> (r: bool)
    ensures
        r == strs(names@).to_set().contains(v@),
{
    let mut i: usize = 0;
    while i < names.len()
        invariant
            i <= names@.len(),
            forall|j: int| 0 <= j < i ==> #[trigger] strs(names@)[j] != v@,
        decreases names@.len() - i,
    {
        if names[i].eq(v) {
            assert(strs(names@)[i as int] == v@);
            assert(strs(names@).contains(v@));
            return true;
        }
        i = i + 1;
    }
    false
}

/// The stems of a list of paths.
fn stems_of(p: &Vec<String>) -> (r: Vec<String>)
    ensures
        strs(r@) == stems(p@),
{
    let mut r: Vec<String> = Vec::new();
    let mut i: usize = 0;
    while i < p.len()
        invariant
            i <= p@.len(),
            strs(r@) == stems(p@).subrange(0, i as int),
        decreases p@.len() - i,
    {
        let s = stem_of(p[i].as_str());
        let ghost before = strs(r@);
        r.push(s);
        assert(strs(r@) =~= before.push(s@));
        i = i + 1;
        assert(strs(r@) =~= stems(p@).subrange(0, i as int));
    }
    assert(strs(r@) =~= stems(p@));
    r
}

fn serialize(b: &Vec<(String, String)>) -> (r: Result<String, TabletError>)
    ensures
        r matches Ok(j) && j@ == bindings_json(pairs(b@)),
{
    match json_of_bindings(b) {
        Ok(s) => Ok(s),
        Err(_) => Ok(String::new()),
    }
}

pub proof fn lemma_set_push(s: Seq<Seq<char>>, x: Seq<char>)
    ensures
        s.push(x).to_set() == s.to_set().insert(x),
{
    assert forall|a: Seq<char>| #[trigger] s.push(x).contains(a) <==> (s.contains(a) || a == x) by {
        if s.push(x).contains(a) {
            let i = choose|i: int| 0 <= i < s.push(x).len() && s.push(x)[i] == a;
            if i < s.len() {
                assert(s[i] == a);
            }
        }
        if s.contains(a) {
            let i = choose|i: int| 0 <= i < s.len() && s[i] == a;
            assert(s.push(x)[i] == a);
        }
        if a == x {
            assert(s.push(x)[s.len() as int] == a);
        }
    }
    assert(s.push(x).to_set() =~= s.to_set().insert(x));
}

pub proof fn lemma_set_remove(s: Seq<Seq<char>>, i: int)
    requires
        s.no_duplicates(),
        0 <= i < s.len(),
    ensures
        s.remove(i).to_set() == s.to_set().remove(s[i]),
        s.remove(i).no_duplicates(),
{
    let r = s.remove(i);
    assert forall|a: Seq<char>| #[trigger] r.contains(a) <==> (s.contains(a) && a != s[i]) by {
        if r.contains(a) {
            let j = choose|j: int| 0 <= j < r.len() && r[j] == a;
            let sj = if j < i { j } else { j + 1 };
            assert(s[sj] == a);
        }
        if s.contains(a) && a != s[i] {
            let j = choose|j: int| 0 <= j < s.len() && s[j] == a;
            let rj = if j < i { j } else { j - 1 };
            assert(r[rj] == a);
        }
    }
    assert(r.to_set() =~= s.to_set().remove(s[i]));
    assert forall|x: int, y: int| 0 <= x < r.len() && 0 <= y < r.len() && x != y implies r[x] != r[y] by {
        let sx = if x < i { x } else { x + 1 };
        let sy = if y < i { y } else { y + 1 };
        assert(r[x] == s[sx] && r[y] == s[sy]);
    }
}

/// Decides which preset to apply when windows get focus.
pub struct FocusTracker {
    last_preset: String,
}

impl FocusTracker {
    /// The preset applied last; empty before the first.
    pub closed spec fn last(&self) -> Seq<char> {
        self.last_preset@
    }

    pub fn new() -> (r: Self)
        ensures
            r.last() == Seq::<char>::empty(),
    {
        FocusTracker { last_preset: String::new() }
    }

    /// The preset to apply for an active-window event of class `class`, if
    /// one is due (see `focus_preset`).
    pub fn preset_for(&self, tablet: &TabletInterface, class: &String) -> (r: Option<String>)
        requires
            tablet.wf(),
        ensures
            match r {
                Some(p) => focus_preset(self.last(), tablet.bindings_view(), class@) == Some(p@),
                None => focus_preset(self.last(), tablet.bindings_view(), class@) is None,
            },
    {
        let key = to_lower(class.as_str());
        match tablet.binding_for(&key) {
            Some(p) => {
                if p.eq(&self.last_preset) {
                    None
                } else {
                    Some(p)
                }
            },
            None => None,
        }
    }

    /// Records that `preset` was applied successfully.
    pub fn applied(&mut self, preset: String)
        ensures
            final(self).last() == preset@,
    {
        self.last_preset = preset;
    }
}

/// A rename of one preset, `from` to `to`, substitutes `to` for `from` in
/// the presets and points every binding to `from` at `to`; no binding is
/// dropped.
pub proof fn lemma_single_rename(
    s: Set<Seq<char>>,
    m: Map<Seq<char>, Seq<char>>,
    from: Seq<char>,
    to: Seq<char>,
)
    ensures
        renamed_presets(s, seq![from, to], 1) == if s.contains(from) {
            s.remove(from).insert(to)
        } else {
            s
        },
        rebound(m, seq![from, to], 1).dom() == m.dom(),
        forall|k: Seq<char>|
            #![trigger m[k]]
            m.contains_key(k) ==> rebound(m, seq![from, to], 1)[k] == if m[k] == from {
                to
            } else {
                m[k]
            },
{
    reveal_with_fuel(renamed_presets, 2);
    reveal_with_fuel(rebound, 2);
    let names = seq![from, to];
    assert(names[0] == from && names[1] == to);
    assert(renamed_presets(s, names, 0) == s);
    assert(rebound(m, names, 0) == m);
    assert(rebound(m, names, 1).dom() =~= m.dom());
}

/// Every binding names an existing preset.
pub open spec fn all_bound(s: Set<Seq<char>>, m: Map<Seq<char>, Seq<char>>) -> bool {
    forall|k: Seq<char>| m.contains_key(k) ==> s.contains(#[trigger] m[k])
}

/// Renames keep every binding pointing at an existing preset, also when
/// one window renames a preset to a name that another pair renames on.
pub proof fn lemma_renames_keep_bindings_bound(
    s: Set<Seq<char>>,
    m: Map<Seq<char>, Seq<char>>,
    names: Seq<Seq<char>>,
    n: int,
)
    requires
        all_bound(s, m),
        0 <= n,
        2 * n <= names.len(),
    ensures
        all_bound(renamed_presets(s, names, n), rebound(m, names, n)),
    decreases n,
{
    if n > 0 {
        lemma_renames_keep_bindings_bound(s, m, names, n - 1);
        let s1 = renamed_presets(s, names, n - 1);
        let m1 = rebound(m, names, n - 1);
        let s2 = renamed_presets(s, names, n);
        let m2 = rebound(m, names, n);
        assert forall|k: Seq<char>| m2.contains_key(k) implies s2.contains(#[trigger] m2[k]) by {
            assert(m1.contains_key(k));
            assert(s1.contains(m1[k]));
        }
    }
}

/// Removals and creations keep every binding pointing at an existing
/// preset: bindings to a removed preset go with it.
pub proof fn lemma_removals_keep_bindings_bound(
    s: Set<Seq<char>>,
    m: Map<Seq<char>, Seq<char>>,
    gone: Set<Seq<char>>,
    added: Set<Seq<char>>,
)
    requires
        all_bound(s, m),
    ensures
        all_bound(s.difference(gone).union(added), unbound(m, gone)),
{
    assert forall|k: Seq<char>| unbound(m, gone).contains_key(k) implies s.difference(gone).union(
        added,
    ).contains(#[trigger] unbound(m, gone)[k]) by {
        assert(s.contains(m[k]));
    }
}

/// Once the preset that a focus event asks for has been applied, the same
/// event asks for nothing.
pub proof fn lemma_focus_applies_once(last: Seq<char>, m: Map<Seq<char>, Seq<char>>, class: Seq<char>)
    ensures
        focus_preset(last, m, class) matches Some(p) ==> focus_preset(p, m, class) is None,
{
}

} // verus!
