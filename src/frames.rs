//! Wire format of the compositor's event socket.
//!
//! A read holds newline-separated frames, each `name` or
//! `name>>arg1,arg2,...`, possibly followed by NUL, newline or space
//! padding. A batch maps each event name to the arguments of its last frame.
use vstd::prelude::*;
use crate::keyed::{unique_names, to_map, lemma_to_map_index, lemma_to_map_absent, lemma_to_map_update};
use crate::text::{
    split_on, trim_end_pad, chars_of, string_of_range, split_chars, trim_end_pad_len,
    string_of,
};

verus! {

/// The view of a list of strings.
pub open spec fn strs(v: Seq<String>) -> Seq<Seq<char>> {
    v.map_values(|s: String| s@)
}

/// The view of a frame: its event name and, when `>>` is present, its
/// comma-separated arguments.
pub type FrameView = (Seq<char>, Option<Seq<Seq<char>>>);

/// One decoded frame of the socket protocol.
pub struct HEvent {
    pub name: String,
    pub args: Option<Vec<String>>,
}

impl View for HEvent {
    type V = FrameView;

    open spec fn view(&self) -> FrameView {
        (
            self.name@,
            match &self.args {
                Some(a) => Some(strs(a@)),
                None => None,
            },
        )
    }
}

/// Whether `>>` starts at index `i` of `s`.
pub open spec fn arrow_at(s: Seq<char>, i: int) -> bool {
    0 <= i && i + 1 < s.len() && s[i] == '>' && s[i + 1] == '>'
}

/// The first index at or after `from` where `>>` starts, or `s.len()`.
pub open spec fn first_arrow(s: Seq<char>, from: int) -> int
    decreases s.len() - from,
{
    if from < 0 || from + 1 >= s.len() {
        s.len() as int
    } else if arrow_at(s, from) {
        from
    } else {
        first_arrow(s, from + 1)
    }
}

pub proof fn lemma_first_arrow_bounds(s: Seq<char>, from: int)
    requires
        0 <= from,
    ensures
        from <= first_arrow(s, from) || first_arrow(s, from) == s.len(),
        first_arrow(s, from) <= s.len(),
        first_arrow(s, from) < s.len() ==> arrow_at(s, first_arrow(s, from)),
        first_arrow(s, from) < s.len() ==> first_arrow(s, from) + 2 <= s.len(),
    decreases s.len() - from,
{
    if from + 1 < s.len() && !arrow_at(s, from) {
        lemma_first_arrow_bounds(s, from + 1);
    }
}

/// The frame that one line of the protocol denotes: the text before the
/// first `>>` is the name; the text between the first and the second `>>`
/// (or the end) is split at commas into the arguments.
pub open spec fn frame_of(line: Seq<char>) -> FrameView {
    let a = first_arrow(line, 0);
    if a >= line.len() {
        (line, None)
    } else {
        let b = first_arrow(line, a + 2);
        (line.subrange(0, a), Some(split_on(line.subrange(a + 2, b), ',')))
    }
}

/// The frames of one read, in order.
pub open spec fn frames_of(text: Seq<char>) -> Seq<FrameView> {
    split_on(trim_end_pad(text), '\n').map_values(|l: Seq<char>| frame_of(l))
}

/// The batch that a sequence of frames folds into.
pub open spec fn batch_of(frames: Seq<FrameView>) -> Map<Seq<char>, Option<Seq<Seq<char>>>> {
    to_map(frames)
}

/// Arguments of a frame, as `str::split(',')` gives them.
fn split_args(v: &Vec<char>, from: usize, to: usize) -> (r: Vec<String>)
    requires
        from <= to <= v@.len(),
    ensures
        strs(r@) == split_on(v@.subrange(from as int, to as int), ','),
{
    let mut part: Vec<char> = Vec::new();
    let mut i: usize = from;
    while i < to
        invariant
            from <= i <= to <= v@.len(),
            part@ == v@.subrange(from as int, i as int),
        decreases to - i,
    {
        part.push(v[i]);
        i = i + 1;
        assert(part@ =~= v@.subrange(from as int, i as int));
    }
    let pieces = split_chars(&part, ',');
    let mut r: Vec<String> = Vec::new();
    let mut j: usize = 0;
    while j < pieces.len()
        invariant
            j <= pieces@.len(),
            pieces@.len() == split_on(part@, ',').len(),
            forall|k: int| 0 <= k < pieces@.len() ==> #[trigger] pieces@[k]@ == split_on(part@, ',')[k],
            strs(r@) == split_on(part@, ',').subrange(0, j as int),
        decreases pieces@.len() - j,
    {
        let s = string_of(&pieces[j]);
        let ghost old_r = strs(r@);
        r.push(s);
        assert(strs(r@) =~= old_r.push(s@));
        j = j + 1;
        assert(strs(r@) =~= split_on(part@, ',').subrange(0, j as int));
    }
    assert(split_on(part@, ',').subrange(0, j as int) =~= split_on(part@, ','));
    r
}

/// The first index at or after `from` where `>>` starts in `v[..to]`,
/// or `to`.
fn find_arrow(v: &Vec<char>, from: usize) -> (r: usize)
    requires
        from <= v@.len(),
    ensures
        r as int == first_arrow(v@, from as int),
{
    let mut i: usize = from;
    while i < v.len() && i + 1 < v.len() && !(v[i] == '>' && v[i + 1] == '>')
        invariant
            from <= i <= v@.len(),
            first_arrow(v@, from as int) == first_arrow(v@, i as int),
        decreases v@.len() - i,
    {
        i = i + 1;
    }
    if i >= v.len() || i + 1 >= v.len() {
        v.len()
    } else {
        i
    }
}

/// Decodes one line of the protocol into a frame.
pub fn parse_frame(line: &Vec<char>) -> (r: HEvent)
    ensures
        r@ == frame_of(line@),
{
    let a = find_arrow(line, 0);
    proof { lemma_first_arrow_bounds(line@, 0); }
    if a >= line.len() {
        let name = string_of(line);
        HEvent { name, args: None }
    } else {
        let b = find_arrow(line, a + 2);
        proof { lemma_first_arrow_bounds(line@, a + 2); }
        let name = string_of_range(line, 0, a);
        let args = split_args(line, a + 2, b);
        HEvent { name, args: Some(args) }
    }
}

/// Decodes every frame of one read, in order.
pub fn parse_events_string(input: &str) -> (r: Vec<HEvent>)
    ensures
        r@.len() == frames_of(input@).len(),
        forall|i: int| 0 <= i < r@.len() ==> #[trigger] r@[i]@ == frames_of(input@)[i],
{
    let all = chars_of(input);
    let n = trim_end_pad_len(&all);
    let trimmed = prefix(&all, n);
    let lines = split_chars(&trimmed, '\n');
    let ghost ls = split_on(trim_end_pad(input@), '\n');
    let mut r: Vec<HEvent> = Vec::new();
    let mut i: usize = 0;
    while i < lines.len()
        invariant
            i <= lines@.len(),
            lines@.len() == ls.len(),
            forall|k: int| 0 <= k < lines@.len() ==> #[trigger] lines@[k]@ == ls[k],
            r@.len() == i,
            forall|k: int| 0 <= k < i ==> #[trigger] r@[k]@ == frame_of(ls[k]),
        decreases lines@.len() - i,
    {
        let f = parse_frame(&lines[i]);
        r.push(f);
        i = i + 1;
    }
    r
}

fn prefix(v: &Vec<char>, n: usize) -> (r: Vec<char>)
    requires
        n <= v@.len(),
    ensures
        r@ == v@.subrange(0, n as int),
{
    let mut r: Vec<char> = Vec::new();
    let mut i: usize = 0;
    while i < n
        invariant
            i <= n <= v@.len(),
            r@ == v@.subrange(0, i as int),
        decreases n - i,
    {
        r.push(v[i]);
        i = i + 1;
        assert(r@ =~= v@.subrange(0, i as int));
    }
    r
}

/// The views of a list of frames.
pub open spec fn frame_views(v: Seq<HEvent>) -> Seq<FrameView> {
    v.map_values(|f: HEvent| f@)
}

/// Where `name` stands in `batch`, if it does.
pub fn batch_position(batch: &Vec<HEvent>, name: &String) -> (r: Option<usize>)
    requires
        unique_names(frame_views(batch@)),
    ensures
        match r {
            Some(i) => i < batch@.len() && batch@[i as int].name@ == name@
                && to_map(frame_views(batch@)).contains_key(name@)
                && to_map(frame_views(batch@))[name@] == batch@[i as int]@.1,
            None => !to_map(frame_views(batch@)).contains_key(name@),
        },
{
    let ghost b = frame_views(batch@);
    let mut i: usize = 0;
    while i < batch.len()
        invariant
            i <= batch@.len(),
            b == frame_views(batch@),
            unique_names(b),
            forall|k: int| 0 <= k < i ==> #[trigger] b[k].0 != name@,
        decreases batch@.len() - i,
    {
        if batch[i].name.eq(name) {
            proof { lemma_to_map_index(b, i as int); }
            return Some(i);
        }
        assert(b[i as int].0 == batch@[i as int].name@);
        i = i + 1;
    }
    proof { lemma_to_map_absent(b, name@); }
    None
}

/// Folds the frames of one read into a batch keyed by event name: the last
/// frame of each name supplies its arguments.
pub fn map_events_string(input: &str) -> (r: Vec<HEvent>)
    ensures
        unique_names(frame_views(r@)),
        to_map(frame_views(r@)) == batch_of(frames_of(input@)),
{
    let mut frames = parse_events_string(input);
    let ghost fs = frames_of(input@);
    let mut batch: Vec<HEvent> = Vec::new();
    let n = frames.len();
    proof {
        assert(frame_views(batch@) =~= Seq::<FrameView>::empty());
        assert(fs.subrange(0, 0) =~= Seq::<FrameView>::empty());
    }
    let mut i: usize = 0;
    while i < n
        invariant
            n == fs.len(),
            i <= n,
            frames@.len() == n - i,
            forall|k: int| 0 <= k < n - i ==> #[trigger] frames@[k]@ == fs[i + k],
            unique_names(frame_views(batch@)),
            to_map(frame_views(batch@)) == to_map(fs.subrange(0, i as int)),
        decreases n - i,
    {
        let ghost rest = frames@;
        let f = frames.remove(0);
        assert(f@ == fs[i as int]);
        assert forall|k: int| 0 <= k < n - (i + 1) implies #[trigger] frames@[k]@ == fs[(i + 1) + k] by {
            assert(frames@[k] == rest[k + 1]);
        }
        let ghost before = frame_views(batch@);
        match batch_position(&batch, &f.name) {
            Some(p) => {
                proof { lemma_to_map_update(before, p as int, f@); }
                batch.set(p, f);
                assert(frame_views(batch@) =~= before.update(p as int, f@));
            },
            None => {
                batch.push(f);
                assert(frame_views(batch@) =~= before.push(f@));
                assert(frame_views(batch@).drop_last() =~= before);
                assert forall|x: int, y: int|
                    0 <= x < frame_views(batch@).len() && 0 <= y < frame_views(batch@).len() && x
                        != y implies #[trigger] frame_views(batch@)[x].0 != #[trigger] frame_views(
                    batch@,
                )[y].0 by {
                    if x < before.len() && y < before.len() {
                    } else if x == before.len() as int {
                        assert(to_map(before).contains_key(before[y].0)) by {
                            lemma_to_map_index(before, y);
                        }
                    } else {
                        assert(to_map(before).contains_key(before[x].0)) by {
                            lemma_to_map_index(before, x);
                        }
                    }
                }
            },
        }
        i = i + 1;
        assert(fs.subrange(0, i as int).drop_last() =~= fs.subrange(0, i - 1));
    }
    assert(fs.subrange(0, n as int) =~= fs);
    batch
}

} // verus!
