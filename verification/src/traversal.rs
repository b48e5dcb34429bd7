//! What holds of every step of a traversal, and of every traversal as a
//! whole.

use crate::failure::WalkErrorView;
use crate::listing::{EntryKind, ItemView};
use crate::options::OptionsView;
use crate::segments::join_segments;
use crate::url::{lemma_relative_path_strips, relative_path_of, PathPolicy, UrlError, UrlView};
use crate::walk::{counted, first_step, tasks_for, Outcome, StepView, WalkView};
use vstd::prelude::*;

verus! {

impl WalkView {
    /// The entry that waits at `i` is a directory, and subdirectories are
    /// ignored.
    pub open spec fn passes_over(self, i: int) -> bool {
        &&& self.options.ignore_subdirectories
        &&& 0 <= i < self.pending.len()
        &&& self.pending[i].item.entry() matches Some(entry)
        &&& entry.kind == EntryKind::Directory
    }

    /// The number of entries at the front that the next step passes over:
    /// the directories before the first entry that asks for something.
    pub open spec fn passed_over(self) -> nat
        decreases self.pending.len(),
    {
        if self.passes_over(0) {
            1 + self.rest().passed_over()
        } else {
            0
        }
    }

    /// The traversal without its first `n` entries.
    pub open spec fn without(self, n: nat) -> WalkView {
        WalkView { pending: self.pending.skip(n as int), ..self }
    }
}

impl StepView {
    /// The state that the step carries on, unless the traversal is over.
    pub open spec fn walk(self) -> Option<WalkView> {
        match self {
            StepView::FetchListing { walk, .. } => Some(walk),
            StepView::FetchFile { walk, .. } => Some(walk),
            StepView::SkipSymlink { walk, .. } => Some(walk),
            StepView::Finished { .. } => None,
        }
    }
}

/// The next step answers the first entry that is not passed over: the
/// entries before it are ignored directories, and it is none.
pub proof fn lemma_advance_answers_first(w: WalkView)
    ensures
        w.passed_over() <= w.pending.len(),
        forall|i: int| 0 <= i < w.passed_over() ==> w.passes_over(i),
        !w.passes_over(w.passed_over() as int),
        w.advance() == w.without(w.passed_over()).advance(),
        !w.without(w.passed_over()).passes_over(0),
    decreases w.pending.len(),
{
    if w.passes_over(0) {
        let r = w.rest();
        lemma_advance_answers_first(r);
        let n = r.passed_over() as int;
        assert forall|i: int| 0 <= i < w.passed_over() implies w.passes_over(i) by {
            if i > 0 {
                assert(r.passes_over(i - 1));
                assert(r.pending[i - 1] == w.pending[i]);
            }
        }
        assert(r.without(n as nat).pending =~= w.without((n + 1) as nat).pending);
        assert(r.without(n as nat) == w.without((n + 1) as nat));
        if w.passes_over(n + 1) {
            assert(r.pending[n] == w.pending[n + 1]);
            assert(r.passes_over(n));
        }
    } else {
        assert(w.without(0).pending =~= w.pending);
        assert(w.without(0) == w);
    }
}

/// A step carries on the same request with the same options, counts no
/// file, and leaves of the entries that waited a proper tail; a step that
/// ends the traversal reports the count as it was.
pub proof fn lemma_advance_keeps_the_rest(w: WalkView)
    ensures
        match w.advance() {
            StepView::Finished { written, .. } => written == w.written,
            step => step.walk() == Some(w.without(w.passed_over() + 1)) && w.passed_over()
                < w.pending.len(),
        },
{
    lemma_advance_answers_first(w);
    let n = w.passed_over();
    let v = w.without(n);
    if v.pending.len() > 0 {
        assert(v.rest().pending =~= w.without(n + 1).pending);
        assert(v.rest() == w.without(n + 1));
    }
}

/// Where subdirectories are ignored, no step asks for a listing: not the
/// step after a listing was read, nor the one after a file was written, nor
/// the one after a notice.
pub proof fn lemma_ignored_subdirectories_are_never_listed(w: WalkView)
    requires
        w.options.ignore_subdirectories,
    ensures
        !(w.advance() is FetchListing),
        forall|directory: UrlView, listing: Option<Seq<ItemView>>|
            !(#[trigger] w.after_listing(directory, listing) is FetchListing),
        !(w.after_file() is FetchListing),
{
    lemma_never_listed(w);
    lemma_never_listed(WalkView { written: counted(w.written), ..w });
    assert forall|directory: UrlView, listing: Option<Seq<ItemView>>|
        !(#[trigger] w.after_listing(directory, listing) is FetchListing) by {
        if let Some(items) = listing {
            lemma_never_listed(
                WalkView { pending: tasks_for(directory, items) + w.pending, ..w },
            );
        }
    }
}

proof fn lemma_never_listed(w: WalkView)
    requires
        w.options.ignore_subdirectories,
    ensures
        !(w.advance() is FetchListing),
    decreases w.pending.len(),
{
    if w.pending.len() > 0 {
        lemma_never_listed(w.rest());
    }
}

/// A file is fetched to the place that the path policy gives for the path
/// of its entry: relative to the root the path without its first segment,
/// relative to the request the path without the path of the requested
/// directory. The step stands for an entry that is a file.
pub proof fn lemma_file_goes_to_its_place(w: WalkView)
    requires
        w.advance() is FetchFile,
    ensures
        ({
            let task = w.pending[w.passed_over() as int];
            let entry = task.item.entry()->0;
            let place = w.advance()->FetchFile_relative_path;
            &&& w.passed_over() < w.pending.len()
            &&& task.item.entry() is Some
            &&& entry.kind == EntryKind::File
            &&& w.advance()->FetchFile_raw_url == task.directory.join(entry.name).raw_url()
            &&& relative_path_of(entry.full_path, w.options.path_policy, w.requested.path) == Ok::<
                Seq<Seq<char>>,
                UrlError,
            >(place)
            &&& w.options.path_policy == PathPolicy::RootRelative && entry.full_path.len() > 0
                ==> seq![entry.full_path[0]] + place == entry.full_path
            &&& w.options.path_policy == PathPolicy::RequestRelative ==> w.requested.path + place
                == entry.full_path
        }),
{
    lemma_advance_answers_first(w);
    let v = w.without(w.passed_over());
    assert(v.pending.len() > 0);
    assert(v.pending[0] == w.pending[w.passed_over() as int]);
    let entry = v.pending[0].item.entry()->0;
    lemma_relative_path_strips(
        entry.full_path,
        w.options.path_policy,
        w.requested.path,
    );
}

/// A symbolic link that is next in turn is reported by one notice, and by
/// nothing else: no file is fetched for it and no listing; the entry is gone
/// after the notice, and the count of files is as it was.
pub proof fn lemma_symlink_is_only_reported(w: WalkView)
    requires
        w.pending.len() > 0,
        w.pending[0].item.entry() is Some,
        w.pending[0].item.entry()->0.kind.is_symlink(),
    ensures
        w.advance() == (StepView::SkipSymlink {
            walk: w.rest(),
            path: join_segments(
                w.pending[0].directory.join(w.pending[0].item.entry()->0.name).path,
            ),
        }),
        w.rest().written == w.written,
        w.rest().pending == w.pending.skip(1),
{
}

/// A notice, a fetch of a file and a fetch of a listing each stand for an
/// entry of their own kind: a symbolic link, a file, a directory.
pub proof fn lemma_step_stands_for_its_kind(w: WalkView)
    ensures
        ({
            let task = w.pending[w.passed_over() as int];
            let kind = task.item.entry()->0.kind;
            &&& !(w.advance() is Finished) ==> w.passed_over() < w.pending.len()
                && task.item.entry() is Some
            &&& w.advance() is SkipSymlink ==> kind.is_symlink()
            &&& w.advance() is FetchFile ==> kind == EntryKind::File
            &&& w.advance() is FetchListing ==> kind == EntryKind::Directory
                && !w.options.ignore_subdirectories
        }),
{
    lemma_advance_answers_first(w);
    let v = w.without(w.passed_over());
    if v.pending.len() > 0 {
        assert(v.pending[0] == w.pending[w.passed_over() as int]);
    }
}

/// An entry of unknown kind that is next in turn ends the traversal with
/// `UnknownEntryKind`, and the files written before it stay counted.
pub proof fn lemma_unknown_kind_ends_the_traversal(w: WalkView)
    requires
        w.pending.len() > 0,
        w.pending[0].item.entry() is None,
    ensures
        w.advance() == (StepView::Finished {
            written: w.written,
            failure: Some(
                WalkErrorView::UnknownEntryKind {
                    path: w.pending[0].item.path,
                    content_type: w.pending[0].item.content_type,
                },
            ),
        }),
{
}

/// The number of files that the outcomes say were written.
pub open spec fn count_written(outcomes: Seq<Outcome>) -> nat
    decreases outcomes.len(),
{
    if outcomes.len() == 0 {
        0
    } else {
        count_written(outcomes.drop_last()) + if outcomes.last() is Written {
            1nat
        } else {
            0nat
        }
    }
}

/// A count as 64 bits hold it: it stays at the largest value.
pub open spec fn saturated(n: nat) -> nat {
    if n <= u64::MAX {
        n
    } else {
        u64::MAX as nat
    }
}

/// The row `j` of the listing that outcome `k` brought, if there is one.
pub open spec fn listed_item(outcomes: Seq<Outcome>, k: int, j: int) -> Option<ItemView> {
    if 0 <= k < outcomes.len() {
        match outcomes[k] {
            Outcome::Listed(Some(items)) => if 0 <= j < items.len() {
                Some(items[j])
            } else {
                None
            },
            _ => None,
        }
    } else {
        None
    }
}

/// Some listing among the outcomes holds the row.
pub open spec fn was_listed(outcomes: Seq<Outcome>, item: ItemView) -> bool {
    exists|k: int, j: int| #[trigger] listed_item(outcomes, k, j) == Some(item)
}

/// Every entry that waits came from a listing among the outcomes.
pub open spec fn all_listed(outcomes: Seq<Outcome>, w: WalkView) -> bool {
    forall|i: int| 0 <= i < w.pending.len() ==> was_listed(outcomes, #[trigger] w.pending[i].item)
}

/// The step answers an entry of its own kind that came from a listing among
/// the outcomes: a file is fetched for a file, to the place that the policy
/// gives for its path; a listing is fetched for a directory, and only where
/// subdirectories are not ignored; a notice is given for a symbolic link.
pub open spec fn answers_listed_entry(
    outcomes: Seq<Outcome>,
    requested: UrlView,
    options: OptionsView,
    step: StepView,
) -> bool {
    match step {
        StepView::Finished { .. } => true,
        StepView::FetchFile { relative_path, .. } => exists|item: ItemView|
            {
                &&& was_listed(outcomes, item)
                &&& #[trigger] item.entry() matches Some(entry)
                &&& entry.kind == EntryKind::File
                &&& relative_path_of(entry.full_path, options.path_policy, requested.path) == Ok::<
                    Seq<Seq<char>>,
                    UrlError,
                >(relative_path)
            },
        StepView::FetchListing { .. } => exists|item: ItemView|
            {
                &&& was_listed(outcomes, item)
                &&& #[trigger] item.entry() matches Some(entry)
                &&& entry.kind == EntryKind::Directory
                &&& !options.ignore_subdirectories
            },
        StepView::SkipSymlink { .. } => exists|item: ItemView|
            {
                &&& was_listed(outcomes, item)
                &&& #[trigger] item.entry() matches Some(entry)
                &&& entry.kind.is_symlink()
            },
    }
}

/// What holds of every step of a traversal that began with `first_step`:
/// the request and the options are those it began with, the count is the
/// number of files written, and what waits came from the listings.
pub open spec fn run_invariant(
    requested: UrlView,
    options: OptionsView,
    outcomes: Seq<Outcome>,
    step: StepView,
) -> bool {
    &&& step.written() == saturated(count_written(outcomes))
    &&& step.walk() matches Some(w) ==> w.requested == requested && w.options == options
        && all_listed(outcomes, w)
    &&& outcomes.len() > 0 ==> answers_listed_entry(outcomes, requested, options, step)
}

/// A row that was listed stays listed when another outcome follows.
proof fn lemma_listed_stays(outcomes: Seq<Outcome>, item: ItemView)
    requires
        outcomes.len() > 0,
        was_listed(outcomes.drop_last(), item),
    ensures
        was_listed(outcomes, item),
{
    let (k, j) = choose|k: int, j: int| #[trigger]
        listed_item(outcomes.drop_last(), k, j) == Some(item);
    assert(listed_item(outcomes, k, j) == Some(item));
}

/// The step that `advance` gives for a state in which all that waits was
/// listed keeps the invariant.
proof fn lemma_advance_keeps_invariant(
    requested: UrlView,
    options: OptionsView,
    outcomes: Seq<Outcome>,
    w: WalkView,
)
    requires
        outcomes.len() > 0,
        w.requested == requested,
        w.options == options,
        w.written == saturated(count_written(outcomes)),
        all_listed(outcomes, w),
    ensures
        run_invariant(requested, options, outcomes, w.advance()),
{
    lemma_advance_answers_first(w);
    lemma_advance_keeps_the_rest(w);
    lemma_step_stands_for_its_kind(w);
    let step = w.advance();
    let n = w.passed_over() as int;
    if !(step is Finished) {
        let rest = w.without((n + 1) as nat);
        assert(step.walk() == Some(rest));
        assert forall|i: int| 0 <= i < rest.pending.len() implies was_listed(
            outcomes,
            #[trigger] rest.pending[i].item,
        ) by {
            assert(rest.pending[i] == w.pending[i + n + 1]);
        }
        let item = w.pending[n].item;
        assert(was_listed(outcomes, item));
        assert(item.entry() is Some);
        if step is FetchFile {
            lemma_file_goes_to_its_place(w);
        }
    }
}

/// Every step of a traversal keeps the invariant.
pub proof fn lemma_run_invariant(
    requested: UrlView,
    options: OptionsView,
    outcomes: Seq<Outcome>,
)
    ensures
        first_step(requested, options).run(outcomes) matches Some(step) ==> run_invariant(
            requested,
            options,
            outcomes,
            step,
        ),
    decreases outcomes.len(),
{
    let first = first_step(requested, options);
    if outcomes.len() == 0 {
    } else {
        let before = outcomes.drop_last();
        lemma_run_invariant(requested, options, before);
        if let Some(previous) = first.run(before) {
            if let Some(step) = previous.respond(outcomes.last()) {
                let walk = previous.walk()->0;
                assert forall|i: int| 0 <= i < walk.pending.len() implies was_listed(
                    outcomes,
                    #[trigger] walk.pending[i].item,
                ) by {
                    lemma_listed_stays(outcomes, walk.pending[i].item);
                }
                match (previous, outcomes.last()) {
                    (StepView::FetchListing { walk, directory }, Outcome::Listed(Some(items))) => {
                        let more = WalkView {
                            pending: tasks_for(directory, items) + walk.pending,
                            ..walk
                        };
                        assert forall|i: int| 0 <= i < more.pending.len() implies was_listed(
                            outcomes,
                            #[trigger] more.pending[i].item,
                        ) by {
                            if i < items.len() {
                                assert(listed_item(outcomes, outcomes.len() - 1, i) == Some(
                                    more.pending[i].item,
                                ));
                            } else {
                                assert(more.pending[i] == walk.pending[i - items.len()]);
                            }
                        }
                        lemma_advance_keeps_invariant(requested, options, outcomes, more);
                    },
                    (StepView::FetchFile { walk, .. }, Outcome::Written) => {
                        lemma_advance_keeps_invariant(
                            requested,
                            options,
                            outcomes,
                            WalkView { written: counted(walk.written), ..walk },
                        );
                    },
                    (StepView::SkipSymlink { walk, .. }, Outcome::Noted) => {
                        lemma_advance_keeps_invariant(requested, options, outcomes, walk);
                    },
                    _ => {},
                }
            }
        }
    }
}

/// The count that a step of a traversal carries is the number of files
/// written so far.
pub proof fn lemma_traversal_counts_written_files(
    requested: UrlView,
    options: OptionsView,
    outcomes: Seq<Outcome>,
)
    ensures
        first_step(requested, options).run(outcomes) matches Some(step) ==> step.written()
            == saturated(count_written(outcomes)),
{
    lemma_run_invariant(requested, options, outcomes);
}

/// Where subdirectories are ignored, a traversal fetches one listing, that
/// of the requested directory, and none after it.
pub proof fn lemma_traversal_without_subdirectories_lists_once(
    requested: UrlView,
    options: OptionsView,
    outcomes: Seq<Outcome>,
)
    requires
        options.ignore_subdirectories,
        outcomes.len() > 0,
    ensures
        first_step(requested, options).run(outcomes) matches Some(step) ==> !(step
            is FetchListing),
{
    lemma_run_invariant(requested, options, outcomes);
}

/// Every file that a traversal fetches stands for a file among the listed
/// entries, and goes to the place of that entry: relative to the root its
/// path without the first segment, relative to the request its path without
/// the path of the requested directory.
pub proof fn lemma_traversal_places_files(
    requested: UrlView,
    options: OptionsView,
    outcomes: Seq<Outcome>,
)
    ensures
        first_step(requested, options).run(outcomes) matches Some(
            StepView::FetchFile { relative_path, .. },
        ) ==> exists|item: ItemView|
            {
                &&& was_listed(outcomes, item)
                &&& #[trigger] item.entry() matches Some(entry)
                &&& entry.kind == EntryKind::File
                &&& options.path_policy == PathPolicy::RootRelative && entry.full_path.len() > 0
                    ==> seq![entry.full_path[0]] + relative_path == entry.full_path
                &&& options.path_policy == PathPolicy::RequestRelative ==> requested.path
                    + relative_path == entry.full_path
            },
{
    lemma_run_invariant(requested, options, outcomes);
    if let Some(StepView::FetchFile { relative_path, .. }) = first_step(requested, options).run(
        outcomes,
    ) {
        assert(outcomes.len() > 0);
        let item = choose|item: ItemView|
            {
                &&& was_listed(outcomes, item)
                &&& #[trigger] item.entry() matches Some(entry)
                &&& entry.kind == EntryKind::File
                &&& relative_path_of(entry.full_path, options.path_policy, requested.path) == Ok::<
                    Seq<Seq<char>>,
                    UrlError,
                >(relative_path)
            };
        lemma_relative_path_strips(
            item.entry()->0.full_path,
            options.path_policy,
            requested.path,
        );
    }
}

/// In a traversal, a notice stands for a symbolic link among the listed
/// entries, and nothing else does: what is fetched as a file is listed as a
/// file, and what is fetched as a listing is listed as a directory.
pub proof fn lemma_traversal_only_reports_symlinks(
    requested: UrlView,
    options: OptionsView,
    outcomes: Seq<Outcome>,
)
    requires
        outcomes.len() > 0,
    ensures
        first_step(requested, options).run(outcomes) matches Some(step) ==> answers_listed_entry(
            outcomes,
            requested,
            options,
            step,
        ),
{
    lemma_run_invariant(requested, options, outcomes);
}

} // verus!
