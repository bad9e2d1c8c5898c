//! Icon resolution: the search order over theme directories, the file test,
//! and the persistent cache keyed by theme and icon name.
use vstd::prelude::*;
use vstd::string::StringExecFns;
use ini::configparser::ini::Ini;
use crate::desktop::{name_le, opt, or_empty};
use crate::paths::{file_stem, extension, base_name, stem_of, extension_of};
use crate::text::{str_is, same_text, chars_of, string_of_range, range_is};

verus! {

#[verifier::external_type_specification]
#[verifier::external_body]
pub struct ExIni(Ini);

/// What the icon cache holds: the value that a lookup of each
/// `(section, key)` pair gives.
pub uninterp spec fn ini_entries(c: Ini) -> Map<(Seq<char>, Seq<char>), Seq<char>>;

/// Relies on `Ini::get`: the value stored under `section` and `key`.
#[verifier::external_body]
fn ini_get(c: &Ini, section: &str, key: &str) -> (r: Option<String>)
    ensures
        r is Some <==> ini_entries(*c).contains_key((section@, key@)),
        match r {
            Some(v) => v@ == ini_entries(*c)[(section@, key@)],
            None => true,
        },
{
    c.get(section, key)
}

/// Relies on `Ini::set`: a later lookup of `section` and `key` gives
/// `value`.
#[verifier::external_body]
fn ini_set(c: &mut Ini, section: &str, key: &str, value: String)
    ensures
        ini_entries(*final(c)).contains_key((section@, key@)),
        ini_entries(*final(c))[(section@, key@)] == value@,
{
    c.set(section, key, Some(value));
}

/// Whether the file at `path` is the icon `icon`: a regular file (as the
/// caller found it on disk) whose stem is the icon name.
pub fn file_matches_icon(path: &str, icon: &str, is_file: bool) -> (r: bool)
    ensures
        r == (is_file && file_stem(path@) == icon@),
{
    if !is_file {
        return false;
    }
    let stem = stem_of(path);
    let target = String::from_str(icon);
    same_text(&stem, &target)
}

/// The order of two names by `name_le`.
pub open spec fn name_order(a: Seq<char>, b: Seq<char>) -> core::cmp::Ordering {
    if a == b {
        core::cmp::Ordering::Equal
    } else if name_le(a, b) {
        core::cmp::Ordering::Less
    } else {
        core::cmp::Ordering::Greater
    }
}

/// The order in which a theme directory is searched: files with the `svg`
/// extension before all others, and by file name otherwise.
pub open spec fn icon_order_of(a: Seq<char>, b: Seq<char>) -> core::cmp::Ordering {
    let ea = extension(a);
    let eb = extension(b);
    if ea == eb {
        name_order(base_name(a), base_name(b))
    } else if ea == "svg"@ {
        core::cmp::Ordering::Less
    } else if eb == "svg"@ {
        core::cmp::Ordering::Greater
    } else {
        name_order(base_name(a), base_name(b))
    }
}

fn base_of(path: &String) -> (r: String)
    ensures
        r@ == base_name(path@),
{
    let v = chars_of(path.as_str());
    let mut n: usize = v.len();
    assert(v@.subrange(0, n as int) =~= v@);
    while n > 0 && v[n - 1] != '/'
        invariant
            n <= v@.len(),
            crate::paths::last_index_of(v@, '/') == crate::paths::last_index_of(
                v@.subrange(0, n as int),
                '/',
            ),
        decreases n,
    {
        assert(v@.subrange(0, n as int).drop_last() =~= v@.subrange(0, n - 1));
        n = n - 1;
    }
    proof {
        if n > 0 {
            assert(v@.subrange(0, n as int).last() == '/');
        }
    }
    string_of_range(&v, n, v.len())
}

/// Compares two paths in search order (see `icon_order_of`).
pub fn icon_order(a: &String, b: &String) -> (r: core::cmp::Ordering)
    ensures
        r == icon_order_of(a@, b@),
{
    let ea = extension_of(a.as_str());
    let eb = extension_of(b.as_str());
    let na = base_of(a);
    let nb = base_of(b);
    if same_text(&ea, &eb) {
        crate::desktop::compare_names(&na, &nb)
    } else if str_is(&ea, "svg") {
        core::cmp::Ordering::Less
    } else if str_is(&eb, "svg") {
        core::cmp::Ordering::Greater
    } else {
        crate::desktop::compare_names(&na, &nb)
    }
}

/// Whether `s` ends with `suffix`.
pub open spec fn ends_with(s: Seq<char>, suffix: Seq<char>) -> bool {
    s.len() >= suffix.len() && s.subrange(s.len() - suffix.len(), s.len() as int) == suffix
}

/// Whether an icon token is itself the file to show: an existing path in a
/// format that can be shown directly (anything but `.ico`).
pub fn is_direct_icon(icon_name: &str, on_disk: bool) -> (r: bool)
    ensures
        r == (on_disk && !ends_with(icon_name@, ".ico"@)),
{
    if !on_disk {
        return false;
    }
    let v = chars_of(icon_name);
    proof {
        reveal_strlit(".ico");
    }
    if v.len() < 4 {
        return true;
    }
    !range_is(&v, v.len() - 4, v.len(), ".ico")
}

/// The answer of a lookup before any directory is searched: the icon token
/// itself where it is a file to show (see `is_direct_icon`), else the
/// cached path while its file still exists; `None` means the theme and
/// fallback directories must be searched. A stale cached path is never
/// the answer.
pub fn answer_before_search(
    icon_name: &str,
    name_is_file: bool,
    cached: Option<String>,
    cached_on_disk: bool,
) -> (r: Option<String>)
    ensures
        name_is_file && !ends_with(icon_name@, ".ico"@) ==> opt(r) == Some(icon_name@),
        !(name_is_file && !ends_with(icon_name@, ".ico"@)) ==> (if cached_on_disk {
            opt(r) == opt(cached)
        } else {
            r is None
        }),
{
    if is_direct_icon(icon_name, name_is_file) {
        Some(String::from_str(icon_name))
    } else {
        usable_cached(cached, cached_on_disk)
    }
}

/// A cached path is used only while its file still exists.
pub fn usable_cached(cached: Option<String>, on_disk: bool) -> (r: Option<String>)
    ensures
        on_disk ==> opt(r) == opt(cached),
        !on_disk ==> r is None,
{
    if on_disk {
        cached
    } else {
        None
    }
}

/// The theme that the preference store reported, or `hicolor` where it
/// could not be read.
pub fn theme_or_default(reported: Option<String>) -> (r: String)
    ensures
        r@ == match reported {
            Some(t) => t@,
            None => "hicolor"@,
        },
{
    match reported {
        Some(t) => t,
        None => String::from_str("hicolor"),
    }
}

/// `a` followed by `b`.
fn joined(a: &str, b: &str) -> (r: String)
    ensures
        r@ == a@ + b@,
{
    let mut s = String::from_str(a);
    s.append(b);
    s
}

/// The directories of theme `theme`, the user's before the system's.
pub fn icon_theme_dirs(home: &str, theme: &str) -> (r: Vec<String>)
    ensures
        r@.len() == 2,
        r@[0]@ == home@ + "/.local/share/icons/"@ + theme@,
        r@[1]@ == "/usr/share/icons/"@ + theme@,
{
    let a = joined(home, "/.local/share/icons/");
    let a = joined(a.as_str(), theme);
    let b = joined("/usr/share/icons/", theme);
    let mut r: Vec<String> = Vec::new();
    r.push(a);
    r.push(b);
    r
}

/// The fallback directories searched when the theme has no match.
pub fn backup_dirs(home: &str) -> (r: Vec<String>)
    ensures
        r@.len() == 4,
        r@[0]@ == home@ + "/.local/share/icons/hicolor"@,
        r@[1]@ == home@ + "/.local/share/icons/pixmaps"@,
        r@[2]@ == "/usr/share/icons/hicolor"@,
        r@[3]@ == "/usr/share/pixmaps"@,
{
    let mut r: Vec<String> = Vec::new();
    r.push(joined(home, "/.local/share/icons/hicolor"));
    r.push(joined(home, "/.local/share/icons/pixmaps"));
    r.push(String::from_str("/usr/share/icons/hicolor"));
    r.push(String::from_str("/usr/share/pixmaps"));
    r
}

/// The icon resolver: the persistent cache and the theme it is read under.
pub struct IconsObject {
    icon_cache: Ini,
    icon_theme: String,
}

impl IconsObject {
    /// The active theme.
    pub closed spec fn theme(&self) -> Seq<char> {
        self.icon_theme@
    }

    /// The cached path of each icon name under the active theme.
    pub closed spec fn cached(&self) -> Map<(Seq<char>, Seq<char>), Seq<char>> {
        ini_entries(self.icon_cache)
    }

    pub fn new(icon_cache: Ini, icon_theme: String) -> (r: Self)
        ensures
            r.theme() == icon_theme@,
            r.cached() == ini_entries(icon_cache),
    {
        IconsObject { icon_cache, icon_theme }
    }

    /// The active theme, read once when the resolver was made.
    pub fn theme_name(&self) -> (r: String)
        ensures
            r@ == self.theme(),
    {
        self.icon_theme.clone()
    }

    /// The cache itself, to be written back to disk.
    pub fn cache(&self) -> (r: &Ini)
        ensures
            ini_entries(*r) == self.cached(),
    {
        &self.icon_cache
    }

    /// The path cached for `icn_name` under the active theme, whether or not
    /// its file still exists.
    pub fn cache_get(&self, icn_name: &str) -> (r: Option<String>)
        ensures
            r is Some <==> self.cached().contains_key((self.theme(), icn_name@)),
            match r {
                Some(p) => p@ == self.cached()[(self.theme(), icn_name@)],
                None => true,
            },
    {
        ini_get(&self.icon_cache, self.icon_theme.as_str(), icn_name)
    }

    /// Caches `value` as the path of `key` under the active theme.
    pub fn cache_set(&mut self, key: &str, value: String)
        ensures
            final(self).theme() == old(self).theme(),
            final(self).cached().contains_key((old(self).theme(), key@)),
            final(self).cached()[(old(self).theme(), key@)] == value@,
    {
        ini_set(&mut self.icon_cache, self.icon_theme.as_str(), key, value);
    }

    /// Ends a lookup whose cache entry was missing or stale: a path that the
    /// search found is cached and returned; otherwise the result is empty
    /// ("no icon") and the cache is left alone.
    pub fn record_search(&mut self, icn_name: &str, found: Option<String>) -> (r: String)
        ensures
            r@ == or_empty(opt(found)),
            final(self).theme() == old(self).theme(),
            found is None ==> final(self).cached() == old(self).cached(),
            found is Some ==> final(self).cached().contains_key((old(self).theme(), icn_name@))
                && final(self).cached()[(old(self).theme(), icn_name@)] == r@,
    {
        match found {
            Some(p) => {
                let out = p.clone();
                self.cache_set(icn_name, p);
                out
            },
            None => String::new(),
        }
    }

    /// Ends a lookup after the searches: the theme's match wins, the
    /// fallback directories' match counts only where the theme had none,
    /// and what was found is cached (see `record_search`).
    pub fn finish_lookup(
        &mut self,
        icn_name: &str,
        theme_hit: Option<String>,
        fallback_hit: Option<String>,
    ) -> (r: String)
        ensures
            r@ == match theme_hit {
                Some(p) => p@,
                None => or_empty(opt(fallback_hit)),
            },
            final(self).theme() == old(self).theme(),
            (theme_hit is None && fallback_hit is None) ==> final(self).cached() == old(self).cached(),
            !(theme_hit is None && fallback_hit is None) ==> final(self).cached().contains_key(
                (old(self).theme(), icn_name@),
            ) && final(self).cached()[(old(self).theme(), icn_name@)] == r@,
    {
        let found = match theme_hit {
            Some(p) => Some(p),
            None => fallback_hit,
        };
        self.record_search(icn_name, found)
    }
}

} // verus!
