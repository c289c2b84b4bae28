use crate::text::{file_lines, text_file_lines, trim_end, views};
use ignore::gitignore::{Gitignore, GitignoreBuilder};
use std::path::PathBuf;
use vstd::prelude::*;

verus! {

#[verifier::external_type_specification]
#[verifier::external_body]
pub struct ExGitignore(Gitignore);

#[verifier::external_type_specification]
#[verifier::external_body]
pub struct ExGitignoreBuilder(GitignoreBuilder);

#[verifier::external_type_specification]
#[verifier::external_body]
pub struct ExIgnoreError(ignore::Error);

/// The root directory that a gitignore builder holds.
pub uninterp spec fn builder_root(b: GitignoreBuilder) -> Seq<char>;

/// The globs that a gitignore builder holds, each as the text it was taken
/// from, in the order added.
pub uninterp spec fn builder_globs(b: GitignoreBuilder) -> Seq<Seq<char>>;

/// The root directory that a gitignore matcher holds.
pub uninterp spec fn matcher_root(g: Gitignore) -> Seq<char>;

/// The globs that a gitignore matcher holds, each as the text it was taken
/// from, in the order added.
pub uninterp spec fn matcher_globs(g: Gitignore) -> Seq<Seq<char>>;

/// Whether gitignore accepts `line` as a comment, a blank line or a glob.
pub uninterp spec fn line_accepted(line: Seq<char>) -> bool;

/// Whether `globs` can be compiled into one matcher.
pub uninterp spec fn globs_compile(globs: Seq<Seq<char>>) -> bool;

/// Whether, among `globs` relative to `root`, the last one that matches
/// `path` (a directory where `is_dir`) is an ignore glob and not a
/// whitelist (`!`) glob.
pub uninterp spec fn glob_ignores(
    root: Seq<char>,
    globs: Seq<Seq<char>>,
    path: Seq<char>,
    is_dir: bool,
) -> bool;

/// `root` without one leading `./`.
pub open spec fn without_dot_slash(root: Seq<char>) -> Seq<char> {
    if root.len() >= 2 && root[0] == '.' && root[1] == '/' {
        root.subrange(2, root.len() as int)
    } else {
        root
    }
}

/// Whether `line` ends with an escaped space, which keeps its trailing white
/// space.
pub open spec fn ends_with_escaped_space(line: Seq<char>) -> bool {
    line.len() >= 2 && line[line.len() - 2] == '\\' && line[line.len() - 1] == ' '
}

/// The glob that an accepted `line` adds: none for a comment or a line that
/// is blank once trimmed; else the line without trailing white space, unless
/// that white space is escaped.
pub open spec fn stored_glob(line: Seq<char>) -> Option<Seq<char>> {
    if line.len() > 0 && line[0] == '#' {
        None
    } else {
        let kept = if ends_with_escaped_space(line) {
            line
        } else {
            trim_end(line)
        };
        if kept.len() == 0 {
            None
        } else {
            Some(kept)
        }
    }
}

/// Whether `globs` exclude `path`: never where there are none, since an
/// empty matcher reports no match.
pub open spec fn ignore_match(root: Seq<char>, globs: Seq<Seq<char>>, path: Seq<char>, is_dir: bool) -> bool {
    globs.len() > 0 && glob_ignores(root, globs, path, is_dir)
}

/// Whether a matcher can be built from `globs`: always where there are none.
pub open spec fn matcher_builds(globs: Seq<Seq<char>>) -> bool {
    globs.len() == 0 || globs_compile(globs)
}

/// Relies on `GitignoreBuilder::new`: a builder with no globs, whose root is
/// `root` without a leading `./` (a byte prefix, as on Unix).
#[verifier::external_body]
fn new_builder(root: &str) -> (b: GitignoreBuilder)
    ensures
        builder_root(b) == without_dot_slash(root@),
        builder_globs(b) == Seq::<Seq<char>>::empty(),
{
    GitignoreBuilder::new(root)
}

/// Relies on `GitignoreBuilder::add_line`: whether a line is accepted depends
/// on the line alone; an accepted line adds the glob that `stored_glob` gives,
/// if any, after the others; a refused line leaves the builder as it was.
#[verifier::external_body]
fn add_line(b: &mut GitignoreBuilder, from: &str, line: &str) -> (r: Result<(), ignore::Error>)
    ensures
        r is Ok <==> line_accepted(line@),
        builder_root(*final(b)) == builder_root(*old(b)),
        r is Ok ==> builder_globs(*final(b)) == match stored_glob(line@) {
            Some(g) => builder_globs(*old(b)).push(g),
            None => builder_globs(*old(b)),
        },
        r is Err ==> builder_globs(*final(b)) == builder_globs(*old(b)),
{
    match b.add_line(Some(PathBuf::from(from)), line) {
        Ok(_) => Ok(()),
        Err(e) => Err(e),
    }
}

/// Relies on `GitignoreBuilder::build`: it fails only where the globs cannot
/// be compiled, never with no globs, and the matcher keeps the builder's root
/// and globs.
#[verifier::external_body]
fn build_matcher(b: &GitignoreBuilder) -> (r: Result<Gitignore, ignore::Error>)
    ensures
        r is Ok <==> (builder_globs(*b).len() == 0 || globs_compile(builder_globs(*b))),
        r is Ok ==> matcher_root(r->Ok_0) == builder_root(*b) && matcher_globs(r->Ok_0)
            == builder_globs(*b),
{
    b.build()
}

/// Relies on `Gitignore::empty`: a matcher with no globs.
#[verifier::external_body]
fn empty_matcher() -> (g: Gitignore)
    ensures
        matcher_globs(g) == Seq::<Seq<char>>::empty(),
{
    Gitignore::empty()
}

/// Relies on `Gitignore::matched` and `Match::is_ignore`: whether the answer
/// is an ignore match depends on the matcher's root and globs and on the
/// path; a matcher with no globs matches nothing.
#[verifier::external_body]
fn matched(g: &Gitignore, path: &str, is_dir: bool) -> (r: bool)
    ensures
        r == (matcher_globs(*g).len() > 0 && glob_ignores(
            matcher_root(*g),
            matcher_globs(*g),
            path@,
            is_dir,
        )),
{
    g.matched(path, is_dir).is_ignore()
}

/// Relies on the `Display` impl of `ignore::Error`, for a message.
#[verifier::external_body]
fn error_message(e: &ignore::Error) -> String {
    e.to_string()
}

/// The name of the ignore file, in the working directory.
pub const IGNORE_FILE_NAME: &'static str = "smartass.ignore";

/// The globs that the accepted lines of `lines` add, in order.
pub open spec fn stored_globs(lines: Seq<Seq<char>>) -> Seq<Seq<char>>
    decreases lines.len(),
{
    if lines.len() == 0 {
        Seq::empty()
    } else if line_accepted(lines.last()) && stored_glob(lines.last()) is Some {
        stored_globs(lines.drop_last()).push(stored_glob(lines.last())->Some_0)
    } else {
        stored_globs(lines.drop_last())
    }
}

/// The numbers, counted from one, of the lines of `lines` that gitignore
/// refuses, in order.
pub open spec fn refused_numbers(lines: Seq<Seq<char>>) -> Seq<int>
    decreases lines.len(),
{
    if lines.len() == 0 {
        Seq::empty()
    } else if line_accepted(lines.last()) {
        refused_numbers(lines.drop_last())
    } else {
        refused_numbers(lines.drop_last()).push(lines.len() as int)
    }
}

/// The lines of the ignore file, none where there is no such file.
pub open spec fn source_lines(source: Option<&str>) -> Seq<Seq<char>> {
    match source {
        Some(t) => file_lines(t@),
        None => Seq::empty(),
    }
}

/// The paths of `files` that `patterns` do not exclude as files, relative to
/// `root`, in order.
pub open spec fn kept_paths(root: Seq<char>, patterns: Seq<Seq<char>>, files: Seq<Seq<char>>) -> Seq<
    Seq<char>,
>
    decreases files.len(),
{
    if files.len() == 0 {
        Seq::empty()
    } else if ignore_match(root, patterns, files.last(), false) {
        kept_paths(root, patterns, files.drop_last())
    } else {
        kept_paths(root, patterns, files.drop_last()).push(files.last())
    }
}

/// A predicate over paths, built from the ignore file's patterns.
pub struct IgnoreFilter {
    matcher: Gitignore,
}

/// A line of the ignore file that was left out, and why.
pub struct RefusedLine {
    /// Counted from one.
    pub line_number: usize,
    pub message: String,
}

/// A filter, with what of the ignore file it could not take: refused lines,
/// and why the accepted globs could not be compiled where they could not (the
/// filter then has no globs).
pub struct IgnoreSetup {
    pub filter: IgnoreFilter,
    pub refused: Vec<RefusedLine>,
    pub build_error: Option<String>,
}

/// The line numbers of refused lines.
pub open spec fn refused_line_numbers(refused: Seq<RefusedLine>) -> Seq<int> {
    refused.map_values(|x: RefusedLine| x.line_number as int)
}

impl IgnoreFilter {
    /// The directory that paths are matched relative to.
    pub closed spec fn root(&self) -> Seq<char> {
        matcher_root(self.matcher)
    }

    /// The globs taken from the ignore file.
    pub closed spec fn patterns(&self) -> Seq<Seq<char>> {
        matcher_globs(self.matcher)
    }

    /// Whether `path` should be excluded: the last glob that matches it is an
    /// ignore glob, not a whitelist one.
    pub fn matches(&self, path: &str, is_dir: bool) -> (r: bool)
        ensures
            r == ignore_match(self.root(), self.patterns(), path@, is_dir),
    {
        matched(&self.matcher, path, is_dir)
    }

    /// The paths of `files` that are not excluded as files, in order.
    pub fn filter_files(&self, files: &Vec<String>) -> (r: Vec<String>)
        ensures
            views(r@) == kept_paths(self.root(), self.patterns(), views(files@)),
    {
        let mut r: Vec<String> = Vec::new();
        let mut i: usize = 0;
        while i < files.len()
            invariant
                i <= files@.len(),
                views(r@) == kept_paths(
                    self.root(),
                    self.patterns(),
                    views(files@).subrange(0, i as int),
                ),
            decreases files@.len() - i,
        {
            let ghost done = views(files@).subrange(0, i + 1);
            assert(done.drop_last() =~= views(files@).subrange(0, i as int));
            assert(done.last() == files@[i as int]@);
            if !self.matches(files[i].as_str(), false) {
                let ghost prev = views(r@);
                r.push(files[i].clone());
                assert(views(r@) =~= prev.push(files@[i as int]@));
            }
            i = i + 1;
        }
        assert(views(files@).subrange(0, i as int) =~= views(files@));
        r
    }
}

/// Builds the filter from the ignore file's text, `None` where there is no
/// such file, matching paths relative to `root`. Nothing here is fatal: lines
/// that gitignore refuses are left out and reported, and where the remaining
/// globs cannot be compiled the filter has none and the error is reported.
pub fn build_ignore_filter(root: &str, source: Option<&str>) -> (r: IgnoreSetup)
    ensures
        r.build_error is None <==> matcher_builds(stored_globs(source_lines(source))),
        r.build_error is None ==> {
            &&& r.filter.root() == without_dot_slash(root@)
            &&& r.filter.patterns() == stored_globs(source_lines(source))
        },
        r.build_error is Some ==> r.filter.patterns() == Seq::<Seq<char>>::empty(),
        refused_line_numbers(r.refused@) == refused_numbers(source_lines(source)),
{
    let lines: Vec<String> = match source {
        Some(t) => text_file_lines(t),
        None => Vec::new(),
    };
    let ghost ls = views(lines@);
    assert(ls =~= source_lines(source));
    let mut builder = new_builder(root);
    let mut refused: Vec<RefusedLine> = Vec::new();
    let mut i: usize = 0;
    while i < lines.len()
        invariant
            i <= lines@.len(),
            ls == views(lines@),
            builder_root(builder) == without_dot_slash(root@),
            builder_globs(builder) == stored_globs(ls.subrange(0, i as int)),
            refused_line_numbers(refused@) == refused_numbers(ls.subrange(0, i as int)),
        decreases lines@.len() - i,
    {
        let ghost done = ls.subrange(0, i + 1);
        assert(done.drop_last() =~= ls.subrange(0, i as int));
        assert(done.last() == lines@[i as int]@);
        match add_line(&mut builder, IGNORE_FILE_NAME, lines[i].as_str()) {
            Ok(()) => {},
            Err(e) => {
                let ghost prev = refused_line_numbers(refused@);
                refused.push(RefusedLine { line_number: i + 1, message: error_message(&e) });
                assert(refused_line_numbers(refused@) =~= prev.push(i + 1));
            },
        }
        i = i + 1;
    }
    assert(ls.subrange(0, i as int) =~= ls);
    match build_matcher(&builder) {
        Ok(matcher) => IgnoreSetup { filter: IgnoreFilter { matcher }, refused, build_error: None },
        Err(e) => IgnoreSetup {
            filter: IgnoreFilter { matcher: empty_matcher() },
            refused,
            build_error: Some(error_message(&e)),
        },
    }
}

} // verus!
