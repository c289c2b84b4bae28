use crate::filter::{
    ignore_match, kept_paths, matcher_builds, source_lines, stored_glob, stored_globs,
    IgnoreFilter,
};
use crate::text::{split_lines, trim_end, trim_start, views};
use crate::vcs::{
    changed_paths, diff_args, diff_args_spec, failure_of, get_change_files, nonblank_trimmed,
    CommandOutput, VcsError, VcsOperation,
};
use vstd::prelude::*;

verus! {

/// What is printed where no file is left to review.
pub const NO_CHANGES_MESSAGE: &'static str = "no changes detected!";

/// The bound on the length of the model's reply, in tokens.
pub const REVIEW_MAX_TOKENS: u32 = 1024;

/// The instruction that the model gets with every diff.
pub const REVIEW_INSTRUCTION: &'static str = "Generate a short code review for the following change. If there is nothing wrong, do not generate any output. Avoid commenting on things the usual linters would also find, focus on potential bugs. For each comment, use the following template: <<< {{file}} ({{ optional line number or numbers }}): {{ commentary }} >>>";

/// The scoped diff to run: the files left after filtering, and the arguments
/// for the version-control program.
pub struct DiffRequest {
    pub files: Vec<String>,
    pub args: Vec<String>,
}

/// One chat exchange with the model: a fixed instruction and bound on the
/// reply, and the diff as the only user message.
pub struct ReviewRequest {
    pub max_tokens: u32,
    pub system: String,
    pub message: String,
}

/// The files whose diff is asked for, after a successful listing with
/// standard output `stdout`: the changed paths that `filter` does not match.
pub open spec fn planned_files(filter: IgnoreFilter, stdout: Seq<char>) -> Seq<Seq<char>> {
    kept_paths(filter.root(), filter.patterns(), changed_paths(stdout))
}

/// Decides, from the output of the name listing between `from` and `to`, what
/// comes next: the listing's error where it failed; `None` where every changed
/// file is excluded by `filter` or none changed, so that there is nothing to
/// review; else the diff to run, scoped to exactly the files left, in order.
pub fn generate_diff(from: &str, to: &str, listing: &CommandOutput, filter: &IgnoreFilter) -> (r:
    Result<Option<DiffRequest>, VcsError>)
    ensures
        !listing.success ==> r is Err && failure_of(VcsOperation::ListChanges, *listing, r->Err_0),
        listing.success ==> r is Ok,
        listing.success ==> (r->Ok_0 is None <==> planned_files(*filter, listing.stdout@).len()
            == 0),
        r is Ok && r->Ok_0 is Some ==> {
            &&& views(r->Ok_0->Some_0.files@) == planned_files(*filter, listing.stdout@)
            &&& views(r->Ok_0->Some_0.args@) == diff_args_spec(
                from@,
                to@,
                planned_files(*filter, listing.stdout@),
            )
        },
{
    let files = match get_change_files(listing) {
        Ok(files) => files,
        Err(e) => {
            return Err(e);
        },
    };
    let kept = filter.filter_files(&files);
    Ok(plan_diff(from, to, kept))
}

/// The diff to run over `files` between `from` and `to`: none where `files` is
/// empty, so that the version-control program is not asked at all; else one
/// scoped to exactly `files`, in order.
pub fn plan_diff(from: &str, to: &str, files: Vec<String>) -> (r: Option<DiffRequest>)
    ensures
        r is None <==> files@.len() == 0,
        r is Some ==> {
            &&& r->Some_0.files@ == files@
            &&& views(r->Some_0.args@) == diff_args_spec(from@, to@, views(files@))
        },
{
    if files.len() == 0 {
        None
    } else {
        let args = diff_args(from, to, &files);
        Some(DiffRequest { files, args })
    }
}

/// The request that asks the model to review `diff`, passed on verbatim.
pub fn review_request(diff: String) -> (r: ReviewRequest)
    ensures
        r.message@ == diff@,
        r.system@ == REVIEW_INSTRUCTION@,
        r.max_tokens == REVIEW_MAX_TOKENS,
{
    ReviewRequest {
        max_tokens: REVIEW_MAX_TOKENS,
        system: REVIEW_INSTRUCTION.to_owned(),
        message: diff,
    }
}

proof fn lemma_kept_paths_all_matched(root: Seq<char>, patterns: Seq<Seq<char>>, files: Seq<Seq<char>>)
    requires
        forall|i: int| 0 <= i < files.len() ==> ignore_match(root, patterns, #[trigger] files[i], false),
    ensures
        kept_paths(root, patterns, files).len() == 0,
    decreases files.len(),
{
    if files.len() > 0 {
        lemma_kept_paths_all_matched(root, patterns, files.drop_last());
    }
}

proof fn lemma_kept_paths_one_unmatched(
    root: Seq<char>,
    patterns: Seq<Seq<char>>,
    files: Seq<Seq<char>>,
    i: int,
)
    requires
        0 <= i < files.len(),
        !ignore_match(root, patterns, files[i], false),
    ensures
        kept_paths(root, patterns, files).len() > 0,
    decreases files.len(),
{
    if i < files.len() - 1 {
        lemma_kept_paths_one_unmatched(root, patterns, files.drop_last(), i);
        let rest = kept_paths(root, patterns, files.drop_last());
        if !ignore_match(root, patterns, files.last(), false) {
            assert(kept_paths(root, patterns, files) == rest.push(files.last()));
        }
    }
}

proof fn lemma_kept_paths_no_patterns(root: Seq<char>, files: Seq<Seq<char>>)
    ensures
        kept_paths(root, Seq::empty(), files) == files,
    decreases files.len(),
{
    if files.len() > 0 {
        lemma_kept_paths_no_patterns(root, files.drop_last());
        assert(files.drop_last().push(files.last()) =~= files);
    }
}

/// A listing with no output names no file, so nothing is planned and the
/// review ends with no changes detected, before any request to the model.
/// This is what a listing between a revision and itself gives.
pub proof fn law_empty_listing_plans_nothing(filter: IgnoreFilter)
    ensures
        changed_paths(Seq::empty()) == Seq::<Seq<char>>::empty(),
        planned_files(filter, Seq::empty()).len() == 0,
{
    let lines = split_lines(Seq::empty());
    assert(lines == seq![Seq::<char>::empty()]);
    assert(lines.drop_last() =~= Seq::<Seq<char>>::empty());
    assert(trim_start(Seq::<char>::empty()) == Seq::<char>::empty());
    assert(trim_end(Seq::<char>::empty()) == Seq::<char>::empty());
    assert(nonblank_trimmed(lines.drop_last()) == Seq::<Seq<char>>::empty());
    assert(kept_paths(filter.root(), filter.patterns(), Seq::empty()) == Seq::<Seq<char>>::empty());
}

/// Where the filter matches every changed path, nothing is planned, and the
/// review ends with no changes detected.
pub proof fn law_all_ignored_plans_nothing(filter: IgnoreFilter, stdout: Seq<char>)
    requires
        forall|i: int|
            0 <= i < changed_paths(stdout).len() ==> ignore_match(
                filter.root(),
                filter.patterns(),
                #[trigger] changed_paths(stdout)[i],
                false,
            ),
    ensures
        planned_files(filter, stdout).len() == 0,
{
    lemma_kept_paths_all_matched(filter.root(), filter.patterns(), changed_paths(stdout));
}

/// Where some changed path is not matched by the filter, a diff is planned,
/// and it holds exactly the paths that the filter keeps.
pub proof fn law_unignored_change_plans_diff(filter: IgnoreFilter, stdout: Seq<char>, i: int)
    requires
        0 <= i < changed_paths(stdout).len(),
        !ignore_match(filter.root(), filter.patterns(), changed_paths(stdout)[i], false),
    ensures
        planned_files(filter, stdout).len() > 0,
        planned_files(filter, stdout) == kept_paths(
            filter.root(),
            filter.patterns(),
            changed_paths(stdout),
        ),
{
    lemma_kept_paths_one_unmatched(filter.root(), filter.patterns(), changed_paths(stdout), i);
}

/// Without an ignore file the filter can always be built, has no patterns,
/// and keeps every path.
pub proof fn law_no_ignore_file_keeps_all(root: Seq<char>, files: Seq<Seq<char>>)
    ensures
        stored_globs(source_lines(None)) == Seq::<Seq<char>>::empty(),
        matcher_builds(stored_globs(source_lines(None))),
        kept_paths(root, Seq::empty(), files) == files,
{
    lemma_kept_paths_no_patterns(root, files);
}

/// An ignore file of comments and blank lines adds no glob, so the filter
/// built from it keeps every path, as with no ignore file at all.
pub proof fn law_comments_only_keep_all(root: Seq<char>, lines: Seq<Seq<char>>, files: Seq<Seq<char>>)
    requires
        forall|i: int| 0 <= i < lines.len() ==> #[trigger] stored_glob(lines[i]) is None,
    ensures
        stored_globs(lines) == Seq::<Seq<char>>::empty(),
        matcher_builds(stored_globs(lines)),
        kept_paths(root, stored_globs(lines), files) == files,
    decreases lines.len(),
{
    if lines.len() > 0 {
        assert(stored_glob(lines[lines.len() - 1]) is None);
        law_comments_only_keep_all(root, lines.drop_last(), files);
    }
    lemma_kept_paths_no_patterns(root, files);
}

} // verus!
