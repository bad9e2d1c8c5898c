//! Values read from the desktop's preference store, and the configuration
//! paths derived from the environment.
use vstd::prelude::*;
use vstd::string::StringExecFns;
use crate::desktop::opt;
use crate::text::{trim, chars_of, string_of, range_is};

verus! {

/// Characters that the store's printed values wrap text in.
pub open spec fn is_wrapper(c: char) -> bool {
    c == '\'' || c == '"' || c == '\n'
}

/// `s` without quotes and newlines.
pub open spec fn without_wrappers(s: Seq<char>) -> Seq<char>
    decreases s.len(),
{
    if s.len() == 0 {
        s
    } else if is_wrapper(s.last()) {
        without_wrappers(s.drop_last())
    } else {
        without_wrappers(s.drop_last()).push(s.last())
    }
}

/// `s` without any `@as` type annotation.
pub open spec fn without_annotation(s: Seq<char>) -> Seq<char>
    decreases s.len(),
{
    if s.len() >= 3 && s.subrange(0, 3) == "@as"@ {
        without_annotation(s.subrange(3, s.len() as int))
    } else if s.len() == 0 {
        s
    } else {
        seq![s[0]] + without_annotation(s.drop_first())
    }
}

/// The text of a value as the store prints it: trimmed, without quotes,
/// newlines and `@as` annotations.
pub open spec fn setting_text_of(raw: Seq<char>) -> Seq<char> {
    without_annotation(without_wrappers(trim(raw)))
}

fn strip_wrappers(v: &Vec<char>, from: usize, to: usize) -> (r: Vec<char>)
    requires
        from <= to <= v@.len(),
    ensures
        r@ == without_wrappers(v@.subrange(from as int, to as int)),
{
    let mut r: Vec<char> = Vec::new();
    let mut i: usize = from;
    assert(v@.subrange(from as int, from as int) =~= Seq::<char>::empty());
    while i < to
        invariant
            from <= i <= to <= v@.len(),
            r@ == without_wrappers(v@.subrange(from as int, i as int)),
        decreases to - i,
    {
        let c = v[i];
        i = i + 1;
        assert(v@.subrange(from as int, i as int).drop_last() =~= v@.subrange(from as int, i - 1));
        if !(c == '\'' || c == '"' || c == '\n') {
            r.push(c);
        }
    }
    r
}

fn strip_annotation(v: &Vec<char>) -> (r: Vec<char>)
    ensures
        r@ == without_annotation(v@),
{
    let mut out: Vec<char> = Vec::new();
    let mut i: usize = 0;
    assert(v@.subrange(0, v@.len() as int) =~= v@);
    while i < v.len()
        invariant
            i <= v@.len(),
            out@ + without_annotation(v@.subrange(i as int, v@.len() as int)) == without_annotation(v@),
        decreases v@.len() - i,
    {
        let ghost rest = v@.subrange(i as int, v@.len() as int);
        if v.len() >= 3 && i <= v.len() - 3 && range_is(v, i, i + 3, "@as") {
            assert(rest.subrange(0, 3) =~= v@.subrange(i as int, i + 3));
            assert(rest.subrange(3, rest.len() as int) =~= v@.subrange(i + 3, v@.len() as int));
            i = i + 3;
        } else {
            proof {
                if rest.len() >= 3 {
                    assert(rest.subrange(0, 3) =~= v@.subrange(i as int, i + 3));
                }
            }
            assert(rest.drop_first() =~= v@.subrange(i + 1, v@.len() as int));
            let ghost before = out@;
            out.push(v[i]);
            assert(out@ =~= before + seq![rest[0]]);
            assert(before + without_annotation(rest) =~= (before + seq![rest[0]]) + without_annotation(rest.drop_first()));
            i = i + 1;
        }
    }
    assert(v@.subrange(v@.len() as int, v@.len() as int) =~= Seq::<char>::empty());
    assert(out@ + Seq::<char>::empty() =~= out@);
    out
}

/// The text of a value that the store printed (see `setting_text_of`).
pub fn setting_text(raw: &str) -> (r: String)
    ensures
        r@ == setting_text_of(raw@),
{
    let v = chars_of(raw);
    let (a, b) = trim_range(&v);
    let w = strip_wrappers(&v, a, b);
    let c = strip_annotation(&w);
    string_of(&c)
}

fn trim_range(v: &Vec<char>) -> (r: (usize, usize))
    ensures
        r.0 <= r.1 <= v@.len(),
        v@.subrange(r.0 as int, r.1 as int) == trim(v@),
{
    let r = crate::tablet::trim_bounds(v, 0, v.len());
    assert(v@.subrange(0, v@.len() as int) =~= v@);
    r
}

/// The configuration directory: the one the environment names, or
/// `.config` under the home directory.
pub open spec fn config_dir_of(home: Seq<char>, config_home: Option<Seq<char>>) -> Seq<char> {
    match config_home {
        Some(c) => c,
        None => home + "/.config"@,
    }
}

fn config_dir(home: &str, config_home: &Option<String>) -> (r: String)
    ensures
        r@ == config_dir_of(home@, opt(*config_home)),
{
    match config_home {
        Some(c) => c.clone(),
        None => {
            let mut s = String::from_str(home);
            s.append("/.config");
            s
        },
    }
}

/// The directory of the tablet presets.
pub fn presets_dir(home: &str, config_home: &Option<String>) -> (r: String)
    ensures
        r@ == config_dir_of(home@, opt(*config_home)) + "/OpenTabletDriver/Presets"@,
{
    let mut s = config_dir(home, config_home);
    s.append("/OpenTabletDriver/Presets");
    s
}

/// The file of the persistent icon cache.
pub fn icon_cache_file(home: &str, config_home: &Option<String>) -> (r: String)
    ensures
        r@ == config_dir_of(home@, opt(*config_home)) + "/hyprmaster/icons.cache"@,
{
    let mut s = config_dir(home, config_home);
    s.append("/hyprmaster/icons.cache");
    s
}

} // verus!
