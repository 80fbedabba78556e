//! Which files of a project are analysed: the supported extensions, the
//! directories that are never entered, and the project's `.gitignore`.

use vstd::prelude::*;
use crate::languages::language_of_path;
use crate::paths::{
    extension, extension_spec, lemma_parent_shorter, parent, parent_spec, path_components,
    path_eq, path_starts_with, segments, split_segments,
};
use crate::text::{push_char, split_on, split_spec, str_eq, string_of_range, strip_leading, to_chars, trim_start_char};

verus! {

/// The extensions (without their dot) of the files that are analysed.
pub open spec fn supported_extensions() -> Seq<Seq<char>> {
    seq![
        "ts"@,
        "tsx"@,
        "js"@,
        "jsx"@,
        "mjs"@,
        "cjs"@,
        "py"@,
        "java"@,
        "cs"@,
        "php"@,
    ]
}

/// The directories that are skipped wherever they occur in a path, whether
/// or not a `.gitignore` names them.
pub open spec fn excluded_dirs() -> Seq<Seq<char>> {
    seq![
        "node_modules"@,
        "target"@,
        ".git"@,
        "dist"@,
        "build"@,
        "out"@,
        ".vscode-test"@,
        "coverage"@,
        ".next"@,
        "vendor"@,
        "storage"@,
        "__pycache__"@,
        "venv"@,
        ".venv"@,
        "bin"@,
        "obj"@,
    ]
}

/// Whether the path's extension is one of [`supported_extensions`].
pub open spec fn has_supported_extension(p: Seq<char>) -> bool {
    match extension_spec(p) {
        Some(e) => supported_extensions().contains(e),
        None => false,
    }
}

/// Whether some component of the path is one of [`excluded_dirs`].
pub open spec fn in_excluded_dir(p: Seq<char>) -> bool {
    exists|i: int| 0 <= i < segments(p).len() && excluded_dirs().contains(#[trigger] segments(p)[i])
}

/// Whether `ext` is one of [`supported_extensions`].
fn is_supported_name(ext: &str) -> (r: bool)
    ensures
        r == supported_extensions().contains(ext@),
{
    let names: [&str; 10] = ["ts", "tsx", "js", "jsx", "mjs", "cjs", "py", "java", "cs", "php"];
    let ghost want = supported_extensions();
    assert(names@.map_values(|s: &str| s@) =~= want);
    for i in 0..10
        invariant
            names@.map_values(|s: &str| s@) == want,
            want == supported_extensions(),
            forall|j: int| 0 <= j < i ==> want[j] != ext@,
    {
        assert(want[i as int] == names@[i as int]@);
        if str_eq(names[i], ext) {
            return true;
        }
    }
    false
}

/// Whether `name` is one of [`excluded_dirs`].
fn is_excluded_name(name: &str) -> (r: bool)
    ensures
        r == excluded_dirs().contains(name@),
{
    let names: [&str; 16] = [
        "node_modules",
        "target",
        ".git",
        "dist",
        "build",
        "out",
        ".vscode-test",
        "coverage",
        ".next",
        "vendor",
        "storage",
        "__pycache__",
        "venv",
        ".venv",
        "bin",
        "obj",
    ];
    let ghost want = excluded_dirs();
    assert(names@.map_values(|s: &str| s@) =~= want);
    for i in 0..16
        invariant
            names@.map_values(|s: &str| s@) == want,
            want == excluded_dirs(),
            forall|j: int| 0 <= j < i ==> want[j] != name@,
    {
        assert(want[i as int] == names@[i as int]@);
        if str_eq(names[i], name) {
            return true;
        }
    }
    false
}

/// Whether the file at `path` has one of the supported extensions.
pub fn is_supported_extension(path: &str) -> (r: bool)
    ensures
        r == has_supported_extension(path@),
{
    match extension(path) {
        Some(e) => is_supported_name(e.as_str()),
        None => false,
    }
}

/// Whether some directory (or the file itself) along `path` is one of the
/// always-excluded names.
pub fn has_excluded_component(path: &str) -> (r: bool)
    ensures
        r == in_excluded_dir(path@),
{
    let segs = split_segments(path);
    let n = segs.len();
    for i in 0..n
        invariant
            n == segs.len(),
            segs.deep_view() == segments(path@),
            forall|j: int| 0 <= j < i ==> !excluded_dirs().contains(#[trigger] segments(path@)[j]),
    {
        assert(segs.deep_view()[i as int] == segs[i as int]@);
        if is_excluded_name(segs[i].as_str()) {
            return true;
        }
    }
    false
}

/// The files that are collected are exactly those that the parser reads:
/// a path has a supported extension just when its extension selects a
/// language.
pub proof fn law_supported_extensions_are_parsed(p: Seq<char>)
    ensures
        has_supported_extension(p) <==> language_of_path(p) is Some,
{
    match extension_spec(p) {
        Some(e) => {
            let s = supported_extensions();
            if s.contains(e) {
                let i = choose|i: int| 0 <= i < s.len() && s[i] == e;
                assert(0 <= i < 10);
            } else {
                assert(s[0] == "ts"@);
                assert(s[1] == "tsx"@);
                assert(s[2] == "js"@);
                assert(s[3] == "jsx"@);
                assert(s[4] == "mjs"@);
                assert(s[5] == "cjs"@);
                assert(s[6] == "py"@);
                assert(s[7] == "java"@);
                assert(s[8] == "cs"@);
                assert(s[9] == "php"@);
            }
        },
        None => {},
    }
}

/// `s` without one trailing carriage return.
pub open spec fn without_cr(s: Seq<char>) -> Seq<char> {
    if s.len() > 0 && s.last() == '\r' {
        s.drop_last()
    } else {
        s
    }
}

/// The lines of a text as `BufRead::lines` reads them: the pieces between
/// line feeds, each that a line feed ends without one trailing carriage
/// return, and the piece after the last line feed only when it is not empty.
pub open spec fn text_lines(t: Seq<char>) -> Seq<Seq<char>> {
    let pieces = split_spec(t, '\n');
    let ended = pieces.drop_last().map_values(|l: Seq<char>| without_cr(l));
    if pieces.last().len() == 0 {
        ended
    } else {
        ended.push(pieces.last())
    }
}

/// The lines of a `.gitignore` text that are handed to the matcher: its
/// lines, with any byte-order marks removed from the start of the first.
pub open spec fn gitignore_text_lines(t: Seq<char>) -> Seq<Seq<char>> {
    let ls = text_lines(t);
    if ls.len() == 0 {
        ls
    } else {
        ls.update(0, strip_leading(ls[0], '\u{feff}'))
    }
}

/// `s` without one trailing carriage return: [`without_cr`].
fn strip_cr(s: &str) -> (r: String)
    ensures
        r@ == without_cr(s@),
{
    let v = to_chars(s);
    let n = v.len();
    if n > 0 && v[n - 1] == '\r' {
        string_of_range(&v, 0, n - 1)
    } else {
        string_of_range(&v, 0, n)
    }
}

/// The lines that a `.gitignore` with the text `text` contributes:
/// [`gitignore_text_lines`].
pub fn gitignore_lines(text: &str) -> (r: Vec<String>)
    ensures
        r.deep_view() == gitignore_text_lines(text@),
{
    let pieces = split_on(text, '\n');
    let ghost pv = pieces.deep_view();
    let m = pieces.len();
    assert(pv.len() == m && pv.len() >= 1);
    let mut out: Vec<String> = Vec::new();
    for i in 0..m - 1
        invariant
            m == pieces.len() >= 1,
            pv == pieces.deep_view(),
            out.deep_view() == pv.drop_last().take(i as int).map_values(|l: Seq<char>| without_cr(l)),
    {
        assert(pv[i as int] == pieces[i as int]@);
        let line = strip_cr(pieces[i].as_str());
        let ghost before = out.deep_view();
        let ghost lv = line@;
        out.push(line);
        assert(out.deep_view() =~= before.push(lv));
        assert(out.deep_view() =~= pv.drop_last().take(i + 1).map_values(|l: Seq<char>| without_cr(l)));
    }
    assert(pv.drop_last().take(m - 1) =~= pv.drop_last());
    let tail = pieces[m - 1].as_str();
    if !tail.is_empty() {
        let last = tail.to_owned();
        let ghost before = out.deep_view();
        out.push(last);
        assert(out.deep_view() =~= before.push(pv.last()));
    }
    assert(out.deep_view() == text_lines(text@));
    if out.len() > 0 {
        let first = trim_start_char(out[0].as_str(), '\u{feff}');
        let ghost before = out.deep_view();
        out.set(0, first);
        assert(out.deep_view() =~= before.update(0, strip_leading(before[0], '\u{feff}')));
    }
    out
}

#[verifier::external_type_specification]
#[verifier::external_body]
pub struct ExGitignore(ignore::gitignore::Gitignore);

#[verifier::external_type_specification]
#[verifier::external_body]
pub struct ExGitignoreBuilder(ignore::gitignore::GitignoreBuilder);

/// Whether the `.gitignore` matcher that `ignore::gitignore::GitignoreBuilder`
/// builds at the directory `root` from the lines `lines` answers
/// `Match::Ignore` when asked about `path` (a directory when `is_dir`).
pub uninterp spec fn gitignore_ignores(
    root: Seq<char>,
    lines: Seq<Seq<char>>,
    path: Seq<char>,
    is_dir: bool,
) -> bool;

/// Whether `ignore::gitignore::GitignoreBuilder`, made at the directory
/// `root` and given the lines `lines`, builds a matcher: `build` fails when
/// the accepted globs cannot be compiled together.
pub uninterp spec fn gitignore_builds(root: Seq<char>, lines: Seq<Seq<char>>) -> bool;

/// `GitignoreBuilder::new(root)`, then `GitignoreBuilder::add_line` for each
/// of `lines` in order, each recorded as coming from the file `from` (a line
/// that is not a valid glob is refused and leaves the builder as it was),
/// then `GitignoreBuilder::build`: the matcher, or none when it cannot be
/// built.
#[verifier::external_body]
fn build_matcher(root: &str, from: &str, lines: &Vec<String>) -> (r: Option<
    ignore::gitignore::Gitignore,
>)
    ensures
        r is Some <==> gitignore_builds(root@, lines.deep_view()),
{
    let mut builder = ignore::gitignore::GitignoreBuilder::new(root);
    for line in lines {
        let _ = builder.add_line(Some(std::path::PathBuf::from(from)), line);
    }
    builder.build().ok()
}

/// `Gitignore::empty`: a matcher that never matches anything.
#[verifier::external_body]
fn empty_matcher() -> ignore::gitignore::Gitignore {
    ignore::gitignore::Gitignore::empty()
}

/// The files of one workspace that are worth re-analysing when they change:
/// supported source files outside the always-excluded directories that the
/// workspace's `.gitignore` does not ignore.
pub struct RelevanceFilter {
    root: String,
    lines: Vec<String>,
    gitignore: ignore::gitignore::Gitignore,
}

/// `Gitignore::matched(path, is_dir).is_ignore()` on the filter's matcher.
/// The contract claims that the answer is the one that a matcher built at
/// the filter's root from the filter's lines gives; [`RelevanceFilter::for_root`],
/// the only constructor, builds the matcher from exactly those (or, when
/// that fails, uses the empty matcher and keeps no lines). A matcher built
/// from no lines is empty and ignores nothing.
#[verifier::external_body]
fn matcher_ignores(filter: &RelevanceFilter, path: &str, is_dir: bool) -> (r: bool)
    ensures
        r == gitignore_ignores(filter.root@, filter.lines.deep_view(), path@, is_dir),
        filter.lines.deep_view().len() == 0 ==> !r,
{
    filter.gitignore.matched(path, is_dir).is_ignore()
}

/// `Path::join` of a file name onto a directory: a `/` between them unless
/// the directory is empty or already ends in one.
fn join_name(dir: &str, name: &str) -> (r: String)
    ensures
        r@ == (if dir@.len() == 0 || dir@.last() == '/' {
            dir@ + name@
        } else {
            dir@.push('/') + name@
        }),
{
    let d = to_chars(dir);
    let v = to_chars(name);
    let n = d.len();
    let mut r = string_of_range(&d, 0, n);
    if n > 0 && d[n - 1] != '/' {
        push_char(&mut r, '/');
    }
    let ghost head = r@;
    let m = v.len();
    for i in 0..m
        invariant
            m == v.len(),
            v@ == name@,
            r@ == head + v@.take(i as int),
    {
        push_char(&mut r, v[i]);
        assert(r@ =~= head + v@.take(i + 1));
    }
    assert(v@.take(m as int) =~= v@);
    r
}

/// The directories above `dir`, starting with `dir`, that lie strictly inside
/// `root`: the walk stops at the first one that is `root` itself or not under
/// it.
pub open spec fn dirs_within(dir: Seq<char>, root: Seq<char>) -> Seq<Seq<char>>
    decreases dir.len(),
{
    if !path_components(root).is_prefix_of(path_components(dir)) || path_components(dir)
        == path_components(root) {
        seq![]
    } else {
        match parent_spec(dir) {
            Some(up) => {
                proof {
                    lemma_parent_shorter(dir);
                }
                seq![dir] + dirs_within(up, root)
            },
            None => seq![dir],
        }
    }
}

/// The directories between `path` and `root` (both excluded), innermost
/// first.
pub open spec fn dirs_between(path: Seq<char>, root: Seq<char>) -> Seq<Seq<char>> {
    match parent_spec(path) {
        Some(d) => dirs_within(d, root),
        None => seq![],
    }
}

/// Whether `path` is ignored by the matcher built at `root` from `lines`:
/// the file itself matches, or one of the directories between it and the
/// root matches as a directory.
pub open spec fn is_ignored_under(root: Seq<char>, lines: Seq<Seq<char>>, path: Seq<char>) -> bool {
    ||| gitignore_ignores(root, lines, path, false)
    ||| exists|i: int|
        0 <= i < dirs_between(path, root).len() && gitignore_ignores(
            root,
            lines,
            #[trigger] dirs_between(path, root)[i],
            true,
        )
}

/// Whether some directory of `dirs` is ignored by the matcher built at
/// `root` from `lines`.
pub open spec fn some_dir_ignored(root: Seq<char>, lines: Seq<Seq<char>>, dirs: Seq<Seq<char>>) -> bool {
    exists|i: int| 0 <= i < dirs.len() && gitignore_ignores(root, lines, #[trigger] dirs[i], true)
}

/// The lines of a `.gitignore` text, none when there is no text.
pub open spec fn given_lines(gitignore: Option<&str>) -> Seq<Seq<char>> {
    match gitignore {
        Some(t) => gitignore_text_lines(t@),
        None => seq![],
    }
}

impl RelevanceFilter {
    /// The workspace root.
    pub closed spec fn root_view(&self) -> Seq<char> {
        self.root@
    }

    /// The `.gitignore` lines that the filter's matcher was built from.
    pub closed spec fn rules(&self) -> Seq<Seq<char>> {
        self.lines.deep_view()
    }

    /// Whether a change to `p` matters: a supported source file, outside the
    /// always-excluded directories, that the `.gitignore` does not ignore.
    pub open spec fn admits(&self, p: Seq<char>) -> bool {
        has_supported_extension(p) && !in_excluded_dir(p) && !is_ignored_under(
            self.root_view(),
            self.rules(),
            p,
        )
    }

    /// The filter of the workspace at `root`, whose `.gitignore` holds
    /// `gitignore` (none when the file could not be read). Its matcher is
    /// built from the file's lines; when the `ignore` crate cannot build a
    /// matcher from them the filter keeps no lines and ignores nothing by
    /// `.gitignore`.
    pub fn for_root(root: &str, gitignore: Option<&str>) -> (f: Self)
        ensures
            f.root_view() == root@,
            f.rules() == (if gitignore_builds(root@, given_lines(gitignore)) {
                given_lines(gitignore)
            } else {
                seq![]
            }),
    {
        let lines = match gitignore {
            Some(t) => gitignore_lines(t),
            None => Vec::new(),
        };
        let from = join_name(root, ".gitignore");
        match build_matcher(root, from.as_str(), &lines) {
            Some(g) => RelevanceFilter { root: root.to_owned(), lines, gitignore: g },
            None => {
                let none: Vec<String> = Vec::new();
                assert(none.deep_view() =~= seq![]);
                RelevanceFilter { root: root.to_owned(), lines: none, gitignore: empty_matcher() }
            },
        }
    }

    /// Whether a change to `path` matters: the file has a supported
    /// extension, lies in no always-excluded directory, and is not ignored by
    /// the workspace's `.gitignore`.
    pub fn is_relevant(&self, path: &str) -> (r: bool)
        ensures
            r == self.admits(path@),
            self.rules().len() == 0 ==> r == (has_supported_extension(path@) && !in_excluded_dir(
                path@,
            )),
    {
        if !is_supported_extension(path) || has_excluded_component(path) {
            return false;
        }
        !self.is_gitignored(path)
    }

    /// Whether the `.gitignore` ignores `path`: [`is_ignored_under`]. A
    /// pattern for a directory (`build/`) matches only when asked about the
    /// directory, so the directories between the file and the root are asked
    /// in turn.
    fn is_gitignored(&self, path: &str) -> (r: bool)
        ensures
            r == is_ignored_under(self.root@, self.lines.deep_view(), path@),
            self.lines.deep_view().len() == 0 ==> !r,
    {
        let ghost root = self.root@;
        let ghost lines = self.lines.deep_view();
        if matcher_ignores(self, path, false) {
            return true;
        }
        let mut current = parent(path);
        let ghost mut seen: Seq<Seq<char>> = seq![];
        loop
            invariant
                root == self.root@,
                lines == self.lines.deep_view(),
                !gitignore_ignores(root, lines, path@, false),
                !some_dir_ignored(root, lines, seen),
                dirs_between(path@, root) == seen + match current {
                    Some(d) => dirs_within(d@, root),
                    None => seq![],
                },
            decreases
                match current {
                    Some(d) => d@.len() + 1,
                    None => 0,
                },
        {
            let dir = match current {
                Some(d) => d,
                None => {
                    proof {
                        assert(dirs_between(path@, root) =~= seen);
                    }
                    return false;
                },
            };
            if !path_starts_with(dir.as_str(), self.root.as_str()) || path_eq(
                dir.as_str(),
                self.root.as_str(),
            ) {
                proof {
                    assert(dirs_between(path@, root) =~= seen);
                }
                return false;
            }
            if matcher_ignores(self, dir.as_str(), true) {
                proof {
                    let between = dirs_between(path@, root);
                    assert(between[seen.len() as int] == dir@);
                }
                return true;
            }
            let up = parent(dir.as_str());
            proof {
                lemma_parent_shorter(dir@);
                let next = match up {
                    Some(ref u) => dirs_within(u@, root),
                    None => seq![],
                };
                assert(dirs_within(dir@, root) =~= seq![dir@] + next);
                assert(seen + dirs_within(dir@, root) =~= seen.push(dir@) + next);
                assert forall|i: int| 0 <= i < seen.push(dir@).len() implies !gitignore_ignores(
                    root,
                    lines,
                    #[trigger] seen.push(dir@)[i],
                    true,
                ) by {
                    if i < seen.len() {
                        assert(seen.push(dir@)[i] == seen[i]);
                    }
                }
                seen = seen.push(dir@);
            }
            current = up;
        }
    }
}

} // verus!
