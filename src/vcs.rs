use crate::text::{
    is_white_char, lemma_split_lines_nonempty, lemma_split_lines_step, split_lines, trimmed,
    trimmed_piece, views,
};
use vstd::prelude::*;

verus! {

/// What a finished run of the version-control program handed back.
pub struct CommandOutput {
    /// Whether it exited with status zero.
    pub success: bool,
    /// Its exit code, if it exited rather than being stopped by a signal.
    pub code: Option<i32>,
    pub stdout: String,
    pub stderr: String,
}

/// The two operations asked of the version-control program.
#[derive(Clone, Copy, Debug, PartialEq, Eq, Structural)]
pub enum VcsOperation {
    /// Listing the names of the files that differ between two revisions.
    ListChanges,
    /// Rendering the diff of given files between two revisions.
    RenderDiff,
}

/// A run of the version-control program that did not succeed.
pub struct VcsError {
    pub operation: VcsOperation,
    /// The exit code, zero where the program had none.
    pub code: i32,
    /// What the program wrote to its standard error.
    pub stderr: String,
}

/// The exit code reported for a failed run.
pub open spec fn exit_code(code: Option<i32>) -> i32 {
    match code {
        Some(c) => c,
        None => 0,
    }
}

/// The error that a failed run of `operation` yields.
pub open spec fn failure_of(operation: VcsOperation, out: CommandOutput, e: VcsError) -> bool {
    &&& e.operation == operation
    &&& e.code == exit_code(out.code)
    &&& e.stderr@ == out.stderr@
}

/// The paths named by the lines `lines`: each line trimmed, blank ones left out,
/// order kept.
pub open spec fn nonblank_trimmed(lines: Seq<Seq<char>>) -> Seq<Seq<char>>
    decreases lines.len(),
{
    if lines.len() == 0 {
        Seq::empty()
    } else {
        let rest = nonblank_trimmed(lines.drop_last());
        if trimmed(lines.last()).len() > 0 {
            rest.push(trimmed(lines.last()))
        } else {
            rest
        }
    }
}

/// The changed paths in the output of a name listing.
pub open spec fn changed_paths(stdout: Seq<char>) -> Seq<Seq<char>> {
    nonblank_trimmed(split_lines(stdout))
}

/// The arguments that list the names of the files changed from `from` to `to`.
pub open spec fn change_list_args_spec(from: Seq<char>, to: Seq<char>) -> Seq<Seq<char>> {
    seq!["--no-pager"@, "diff"@, "--no-color"@, "--name-only"@, from, to]
}

/// The arguments that render the diff from `from` to `to`, scoped to `files`.
pub open spec fn diff_args_spec(from: Seq<char>, to: Seq<char>, files: Seq<Seq<char>>) -> Seq<
    Seq<char>,
> {
    seq!["--no-pager"@, "diff"@, "--no-color"@, from, to, "--"@] + files
}

pub fn change_list_args(from: &str, to: &str) -> (r: Vec<String>)
    ensures
        views(r@) == change_list_args_spec(from@, to@),
{
    let r = vec![
        "--no-pager".to_owned(),
        "diff".to_owned(),
        "--no-color".to_owned(),
        "--name-only".to_owned(),
        from.to_owned(),
        to.to_owned(),
    ];
    assert(views(r@) =~= change_list_args_spec(from@, to@));
    r
}

pub fn diff_args(from: &str, to: &str, files: &Vec<String>) -> (r: Vec<String>)
    ensures
        views(r@) == diff_args_spec(from@, to@, views(files@)),
{
    let mut r = vec![
        "--no-pager".to_owned(),
        "diff".to_owned(),
        "--no-color".to_owned(),
        from.to_owned(),
        to.to_owned(),
        "--".to_owned(),
    ];
    let ghost head = views(r@);
    assert(head =~= seq!["--no-pager"@, "diff"@, "--no-color"@, from@, to@, "--"@]);
    let mut i: usize = 0;
    while i < files.len()
        invariant
            i <= files@.len(),
            views(r@) =~= head + views(files@).subrange(0, i as int),
        decreases files@.len() - i,
    {
        let ghost prev = views(r@);
        r.push(files[i].clone());
        assert(views(r@) =~= prev.push(files@[i as int]@));
        assert(views(files@).subrange(0, i + 1) =~= views(files@).subrange(0, i as int).push(
            files@[i as int]@,
        ));
        i = i + 1;
    }
    assert(views(files@).subrange(0, i as int) =~= views(files@));
    r
}

/// Splits the output of a name listing into paths: one per line, trimmed,
/// blank lines left out, in the order given.
pub fn parse_changed_files(stdout: &str) -> (r: Vec<String>)
    ensures
        views(r@) == changed_paths(stdout@),
{
    let n = stdout.unicode_len();
    let mut r: Vec<String> = Vec::new();
    let mut start: usize = 0;
    let mut i: usize = 0;
    proof {
        assert(stdout@.subrange(0, 0) =~= Seq::<char>::empty());
    }
    while i < n
        invariant
            n == stdout@.len(),
            start <= i <= n,
            split_lines(stdout@.subrange(0, i as int)).last() == stdout@.subrange(
                start as int,
                i as int,
            ),
            views(r@) == nonblank_trimmed(split_lines(stdout@.subrange(0, i as int)).drop_last()),
        decreases n - i,
    {
        let ghost before = split_lines(stdout@.subrange(0, i as int));
        proof {
            lemma_split_lines_step(stdout@, i as int);
            lemma_split_lines_nonempty(stdout@.subrange(0, i as int));
        }
        if stdout.get_char(i) == '\n' {
            let piece = trimmed_piece(stdout, start, i);
            let ghost after = split_lines(stdout@.subrange(0, i + 1));
            assert(after.drop_last() =~= before);
            assert(before =~= before.drop_last().push(before.last()));
            if piece.unicode_len() > 0 {
                r.push(piece);
            }
            assert(views(r@) =~= nonblank_trimmed(after.drop_last()));
            start = i + 1;
            assert(after.last() =~= stdout@.subrange(start as int, i + 1));
        } else {
            let ghost after = split_lines(stdout@.subrange(0, i + 1));
            assert(after.drop_last() =~= before.drop_last());
            assert(after.last() =~= stdout@.subrange(start as int, i + 1));
        }
        i = i + 1;
    }
    proof {
        assert(stdout@.subrange(0, n as int) =~= stdout@);
        lemma_split_lines_nonempty(stdout@);
    }
    let piece = trimmed_piece(stdout, start, n);
    let ghost all = split_lines(stdout@);
    assert(all =~= all.drop_last().push(all.last()));
    if piece.unicode_len() > 0 {
        r.push(piece);
    }
    assert(views(r@) =~= changed_paths(stdout@));
    r
}

/// The names of the changed files, from the output of a name listing; the
/// listing's standard error and exit code where it failed.
pub fn get_change_files(out: &CommandOutput) -> (r: Result<Vec<String>, VcsError>)
    ensures
        out.success ==> r is Ok && views(r->Ok_0@) == changed_paths(out.stdout@),
        !out.success ==> r is Err && failure_of(VcsOperation::ListChanges, *out, r->Err_0),
{
    if out.success {
        Ok(parse_changed_files(out.stdout.as_str()))
    } else {
        Err(failure(VcsOperation::ListChanges, out))
    }
}

/// The diff text from the output of a scoped diff, verbatim; the standard
/// error and exit code where it failed.
pub fn get_diff(out: &CommandOutput) -> (r: Result<String, VcsError>)
    ensures
        out.success ==> r is Ok && r->Ok_0@ == out.stdout@,
        !out.success ==> r is Err && failure_of(VcsOperation::RenderDiff, *out, r->Err_0),
{
    if out.success {
        Ok(out.stdout.clone())
    } else {
        Err(failure(VcsOperation::RenderDiff, out))
    }
}

fn failure(operation: VcsOperation, out: &CommandOutput) -> (e: VcsError)
    ensures
        failure_of(operation, *out, e),
{
    let code: i32 = match out.code {
        Some(c) => c,
        None => 0,
    };
    VcsError { operation, code, stderr: out.stderr.clone() }
}

} // verus!
