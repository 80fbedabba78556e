//! Paths as text: `/`-separated components, the file name, and its
//! extension, as `std::path::Path` reads them on Unix.

use vstd::prelude::*;
use crate::text::{push_char, split_on, split_spec, str_eq, string_of_range, to_chars};

verus! {

/// The `/`-separated segments of a path, empty ones included: `a//b/` gives
/// `a`, ``, `b`, ``.
pub open spec fn segments(s: Seq<char>) -> Seq<Seq<char>> {
    split_spec(s, '/')
}

/// A segment that names a file or directory: not empty and not `.`.
pub open spec fn is_named_segment(seg: Seq<char>) -> bool {
    seg.len() > 0 && seg != "."@
}

/// The last named segment.
pub open spec fn last_named(segs: Seq<Seq<char>>) -> Option<Seq<char>>
    decreases segs.len(),
{
    if segs.len() == 0 {
        None
    } else if is_named_segment(segs.last()) {
        Some(segs.last())
    } else {
        last_named(segs.drop_last())
    }
}

/// The final component of a path, unless the path ends in `..`
/// (`Path::file_name`).
pub open spec fn file_name_spec(p: Seq<char>) -> Option<Seq<char>> {
    match last_named(segments(p)) {
        Some(n) => if n == ".."@ {
            None
        } else {
            Some(n)
        },
        None => None,
    }
}

/// The index of the last `.` in `s`.
pub open spec fn last_dot(s: Seq<char>) -> Option<int>
    decreases s.len(),
{
    if s.len() == 0 {
        None
    } else if s.last() == '.' {
        Some(s.len() - 1)
    } else {
        last_dot(s.drop_last())
    }
}

/// The extension of a path: what follows the last `.` of the file name,
/// when that `.` is not its first character (`Path::extension`).
pub open spec fn extension_spec(p: Seq<char>) -> Option<Seq<char>> {
    match file_name_spec(p) {
        Some(name) => match last_dot(name) {
            Some(k) => if k == 0 {
                None
            } else {
                Some(name.subrange(k + 1, name.len() as int))
            },
            None => None,
        },
        None => None,
    }
}

/// The `/`-separated segments of `p`: [`segments`].
pub fn split_segments(p: &str) -> (r: Vec<String>)
    ensures
        r.deep_view() == segments(p@),
{
    split_on(p, '/')
}

/// The final component of `p`: [`file_name_spec`].
pub fn file_name(p: &str) -> (r: Option<String>)
    ensures
        match r {
            Some(n) => file_name_spec(p@) == Some(n@),
            None => file_name_spec(p@) is None,
        },
{
    let segs = split_segments(p);
    let ghost sv = segs.deep_view();
    let mut j = segs.len();
    assert(sv.take(j as int) =~= sv);
    while j > 0
        invariant
            j <= segs.len(),
            sv == segs.deep_view(),
            sv == segments(p@),
            last_named(sv) == last_named(sv.take(j as int)),
        decreases j,
    {
        let seg = segs[j - 1].as_str();
        assert(sv.take(j as int).last() == seg@);
        assert(sv.take(j as int).drop_last() =~= sv.take(j - 1));
        if !seg.is_empty() && !str_eq(seg, ".") {
            if str_eq(seg, "..") {
                return None;
            }
            return Some(seg.to_owned());
        }
        j = j - 1;
    }
    None
}

/// The extension of `p`: [`extension_spec`].
pub fn extension(p: &str) -> (r: Option<String>)
    ensures
        match r {
            Some(e) => extension_spec(p@) == Some(e@),
            None => extension_spec(p@) is None,
        },
{
    let name = match file_name(p) {
        Some(n) => n,
        None => {
            return None;
        },
    };
    let v = to_chars(name.as_str());
    let n = v.len();
    let mut j = n;
    assert(v@.take(n as int) =~= v@);
    while j > 0 && v[j - 1] != '.'
        invariant
            j <= n == v.len(),
            v@ == name@,
            last_dot(v@) == last_dot(v@.take(j as int)),
        decreases j,
    {
        assert(v@.take(j as int).drop_last() =~= v@.take(j - 1));
        j = j - 1;
    }
    if j == 0 {
        assert(v@.take(0) =~= seq![]);
        return None;
    }
    assert(v@.take(j as int).last() == '.');
    if j == 1 {
        return None;
    }
    Some(crate::text::string_of_range(&v, j, n))
}

} // verus!

verus! {

/// Whether the path is absolute: it begins with `/`.
pub open spec fn has_root(p: Seq<char>) -> bool {
    p.len() > 0 && p[0] == '/'
}

/// Whether a relative path begins with a `.` component (`.` or `./...`).
pub open spec fn has_cur_dir(p: Seq<char>) -> bool {
    !has_root(p) && p.len() > 0 && p[0] == '.' && (p.len() == 1 || p[1] == '/')
}

/// The length of the leading `/` or `.` before the path's body.
pub open spec fn lead_len(p: Seq<char>) -> int {
    if has_root(p) || has_cur_dir(p) {
        1
    } else {
        0
    }
}

/// The named segments among `segs`, in order.
pub open spec fn named_only(segs: Seq<Seq<char>>) -> Seq<Seq<char>>
    decreases segs.len(),
{
    if segs.len() == 0 {
        seq![]
    } else if is_named_segment(segs.last()) {
        named_only(segs.drop_last()).push(segs.last())
    } else {
        named_only(segs.drop_last())
    }
}

/// The components of a path as `Path::components` gives them on Unix: the
/// root as `/`, a leading `.`, then every segment of the body that is not
/// empty and not `.`.
pub open spec fn path_components(p: Seq<char>) -> Seq<Seq<char>> {
    let named = named_only(segments(p.skip(lead_len(p))));
    if has_root(p) {
        seq![seq!['/']] + named
    } else if has_cur_dir(p) {
        seq![seq!['.']] + named
    } else {
        named
    }
}

/// Reading `s` from left to right: the end offsets of the named segments
/// completed so far, and where the segment in progress starts.
pub open spec fn scan_ends(s: Seq<char>) -> (Seq<int>, int)
    decreases s.len(),
{
    if s.len() == 0 {
        (seq![], 0)
    } else {
        let (ends, start) = scan_ends(s.drop_last());
        let i = s.len() - 1;
        if s.last() == '/' {
            if is_named_segment(s.subrange(start, i)) {
                (ends.push(i), i + 1)
            } else {
                (ends, i + 1)
            }
        } else {
            (ends, start)
        }
    }
}

/// The end offsets of the named segments of `s`.
pub open spec fn named_ends(s: Seq<char>) -> Seq<int> {
    let (ends, start) = scan_ends(s);
    if is_named_segment(s.subrange(start, s.len() as int)) {
        ends.push(s.len() as int)
    } else {
        ends
    }
}

/// `Path::parent` on Unix: the path up to the end of the component before
/// its last one (or its leading `/` or `.`); the empty path for a single
/// relative component; none for the root, the empty path, or a path of
/// separators.
pub open spec fn parent_spec(p: Seq<char>) -> Option<Seq<char>> {
    let lead = lead_len(p);
    let ends = named_ends(p.skip(lead));
    if ends.len() >= 2 {
        Some(p.take(lead + ends[ends.len() - 2]))
    } else if ends.len() == 1 {
        Some(p.take(lead))
    } else if has_cur_dir(p) {
        Some(seq![])
    } else {
        None
    }
}

proof fn lemma_scan_ends(s: Seq<char>)
    ensures
        0 <= scan_ends(s).1 <= s.len(),
        forall|k: int| 0 <= k < scan_ends(s).0.len() ==> 0 < #[trigger] scan_ends(s).0[k] < scan_ends(s).1,
        forall|j: int, k: int| 0 <= j < k < scan_ends(s).0.len() ==> scan_ends(s).0[j] < scan_ends(s).0[k],
    decreases s.len(),
{
    if s.len() > 0 {
        lemma_scan_ends(s.drop_last());
    }
}

/// The end offsets of the named segments grow strictly and lie in `1..=len`.
pub proof fn lemma_named_ends(s: Seq<char>)
    ensures
        forall|k: int| 0 <= k < named_ends(s).len() ==> 0 < #[trigger] named_ends(s)[k] <= s.len(),
        forall|j: int, k: int| 0 <= j < k < named_ends(s).len() ==> named_ends(s)[j] < named_ends(s)[k],
{
    lemma_scan_ends(s);
}

/// A parent is shorter than its path.
pub proof fn lemma_parent_shorter(p: Seq<char>)
    ensures
        parent_spec(p) matches Some(q) ==> q.len() < p.len(),
{
    let lead = lead_len(p);
    let body = p.skip(lead);
    let ends = named_ends(body);
    lemma_named_ends(body);
    assert(body.len() == p.len() - lead);
    if ends.len() >= 2 {
        assert(ends[ends.len() - 2] < ends[ends.len() - 1]);
        assert(ends[ends.len() - 1] <= body.len());
    } else if ends.len() == 1 {
        assert(0 < ends[0] <= body.len());
    }
}


/// Whether `v[from..to]` is a named segment.
fn is_named_range(v: &Vec<char>, from: usize, to: usize) -> (r: bool)
    requires
        from <= to <= v.len(),
    ensures
        r == is_named_segment(v@.subrange(from as int, to as int)),
{
    proof {
        reveal_strlit(".");
    }
    let ghost seg = v@.subrange(from as int, to as int);
    if to == from {
        return false;
    }
    if to == from + 1 && v[from] == '.' {
        assert(seg =~= "."@);
        return false;
    }
    assert(seg != "."@) by {
        if seg == "."@ {
            assert(seg.len() == 1 && seg[0] == '.');
        }
    }
    true
}

/// The length of the leading `/` or `.` of the path `v`: [`lead_len`].
fn lead_of(v: &Vec<char>) -> (r: usize)
    ensures
        r == lead_len(v@),
{
    let n = v.len();
    if n > 0 && v[0] == '/' {
        1
    } else if n > 0 && v[0] == '.' && (n == 1 || v[1] == '/') {
        1
    } else {
        0
    }
}

/// The parent of `p`: [`parent_spec`].
pub fn parent(p: &str) -> (r: Option<String>)
    ensures
        match r {
            Some(q) => parent_spec(p@) == Some(q@),
            None => parent_spec(p@) is None,
        },
{
    let v = to_chars(p);
    let n = v.len();
    let lead = lead_of(&v);
    let ghost body = v@.skip(lead as int);
    let mut last: usize = 0;
    let mut prev: usize = 0;
    let mut count: usize = 0;
    let mut start = lead;
    let ghost mut ends: Seq<int> = seq![];
    assert(body.take(0) =~= seq![]);
    for i in lead..n
        invariant
            n == v.len(),
            lead <= n,
            lead == lead_len(v@),
            v@ == p@,
            body == v@.skip(lead as int),
            lead <= start <= i,
            scan_ends(body.take(i - lead)) == (ends, start - lead),
            count == (if ends.len() < 2 {
                ends.len() as int
            } else {
                2
            }),
            count >= 1 ==> last == lead + ends.last(),
            count >= 2 ==> prev == lead + ends[ends.len() - 2],
    {
        let ghost k = i - lead;
        assert(body.take(k + 1).drop_last() =~= body.take(k));
        assert(body.take(k + 1).last() == v@[i as int]);
        if v[i] == '/' {
            assert(body.take(k + 1).subrange(start - lead, k) =~= v@.subrange(
                start as int,
                i as int,
            ));
            if is_named_range(&v, start, i) {
                proof {
                    ends = ends.push(k);
                }
                prev = last;
                last = i;
                if count < 2 {
                    count = count + 1;
                }
            }
            start = i + 1;
        }
    }
    assert(body.take(n - lead) =~= body);
    assert(body.subrange(start - lead, body.len() as int) =~= v@.subrange(start as int, n as int));
    if is_named_range(&v, start, n) {
        proof {
            ends = ends.push(n - lead);
        }
        prev = last;
        if count < 2 {
            count = count + 1;
        }
    }
    assert(ends == named_ends(body));
    proof {
        lemma_named_ends(body);
    }
    if count >= 2 {
        Some(string_of_range(&v, 0, prev))
    } else if count == 1 {
        Some(string_of_range(&v, 0, lead))
    } else if n > 0 && v[0] == '.' && (n == 1 || v[1] == '/') {
        Some(String::new())
    } else {
        None
    }
}

/// The components of `p`: [`path_components`].
pub fn components_of(p: &str) -> (r: Vec<String>)
    ensures
        r.deep_view() == path_components(p@),
{
    let v = to_chars(p);
    let n = v.len();
    let lead = lead_of(&v);
    let body = string_of_range(&v, lead, n);
    assert(body@ =~= p@.skip(lead_len(p@)));
    let segs = split_segments(body.as_str());
    let mut out: Vec<String> = Vec::new();
    let ghost head: Seq<Seq<char>>;
    if n > 0 && v[0] == '/' {
        let mut s = String::new();
        push_char(&mut s, '/');
        out.push(s);
        proof {
            head = seq![seq!['/']];
        }
    } else if n > 0 && v[0] == '.' && (n == 1 || v[1] == '/') {
        let mut s = String::new();
        push_char(&mut s, '.');
        out.push(s);
        proof {
            head = seq![seq!['.']];
        }
    } else {
        proof {
            head = seq![];
        }
    }
    assert(out.deep_view() =~= head);
    let ghost sv = segs.deep_view();
    let m = segs.len();
    assert(sv.take(0) =~= seq![]);
    for i in 0..m
        invariant
            m == segs.len(),
            sv == segs.deep_view(),
            out.deep_view() == head + named_only(sv.take(i as int)),
    {
        assert(sv.take(i + 1).drop_last() =~= sv.take(i as int));
        let seg = segs[i].as_str();
        assert(sv.take(i + 1).last() == seg@);
        if !seg.is_empty() && !str_eq(seg, ".") {
            let ghost before = out.deep_view();
            let owned = seg.to_owned();
            out.push(owned);
            assert(out.deep_view() =~= before.push(seg@));
            assert(out.deep_view() =~= head + named_only(sv.take(i + 1)));
        }
    }
    assert(sv.take(m as int) =~= sv);
    out
}

/// Whether `v` begins with the elements of `w`, compared as strings.
fn strings_start_with(v: &Vec<String>, w: &Vec<String>) -> (r: bool)
    ensures
        r == w.deep_view().is_prefix_of(v.deep_view()),
{
    if w.len() > v.len() {
        return false;
    }
    let m = w.len();
    for i in 0..m
        invariant
            m == w.len() <= v.len(),
            forall|j: int| 0 <= j < i ==> w.deep_view()[j] == v.deep_view()[j],
    {
        if !str_eq(v[i].as_str(), w[i].as_str()) {
            assert(w.deep_view()[i as int] != v.deep_view()[i as int]);
            return false;
        }
    }
    assert(w.deep_view() =~= v.deep_view().take(m as int));
    true
}

/// `Path::starts_with`: whether the components of `base` begin the
/// components of `p`.
pub fn path_starts_with(p: &str, base: &str) -> (r: bool)
    ensures
        r == path_components(base@).is_prefix_of(path_components(p@)),
{
    let a = components_of(p);
    let b = components_of(base);
    strings_start_with(&a, &b)
}

/// `==` on paths: whether they have the same components.
pub fn path_eq(p: &str, q: &str) -> (r: bool)
    ensures
        r == (path_components(p@) == path_components(q@)),
{
    let a = components_of(p);
    let b = components_of(q);
    let r = a.len() == b.len() && strings_start_with(&a, &b);
    proof {
        assert(a.deep_view().len() == a.len() && b.deep_view().len() == b.len());
        if r {
            assert(b.deep_view() =~= a.deep_view());
        } else if a.len() == b.len() {
            assert(!b.deep_view().is_prefix_of(a.deep_view()));
        }
    }
    r
}

} // verus!
