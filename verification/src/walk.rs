//! The traversal of a directory tree, as a machine that is driven from
//! outside: each step names one thing to do (fetch a listing, fetch a file,
//! report a symbolic link), and the outcome of doing it gives the next step.
//! Entries are taken in the order of their listing, and a subdirectory is
//! gone through before the entry that follows it.

use crate::failure::{WalkError, WalkErrorView};
use crate::listing::{
    item_views, listing_view, page_items, read_listing, EntryKind, ItemView, ListingItem,
};
use crate::message::{make_warning_message, warning_text};
use crate::options::{OptionsView, TraversalOptions};
use crate::segments::{join_path, join_segments, texts};
use crate::url::{relative_path, relative_path_of, GitHubUrl, UrlView};
use vstd::prelude::*;

verus! {

/// One entry that waits for its turn, as a mathematical value.
pub struct TaskView {
    pub directory: UrlView,
    pub item: ItemView,
}

/// One entry that waits for its turn: a row of a listing, and the directory
/// whose listing it came from.
#[derive(Debug)]
pub struct Task {
    pub directory: GitHubUrl,
    pub item: ListingItem,
}

impl View for Task {
    type V = TaskView;

    open spec fn view(&self) -> TaskView {
        TaskView { directory: self.directory@, item: self.item@ }
    }
}

/// The entries on a stack, from its top: the last element of the stack comes
/// first.
pub open spec fn stack_view(stack: Seq<Task>) -> Seq<TaskView> {
    Seq::new(stack.len(), |i: int| stack[stack.len() - 1 - i]@)
}

/// The rows of a listing as entries of `directory` that wait for their turn.
pub open spec fn tasks_for(directory: UrlView, items: Seq<ItemView>) -> Seq<TaskView> {
    Seq::new(items.len(), |i: int| TaskView { directory, item: items[i] })
}

/// The count of files after one more was written. The count is kept in 64
/// bits and stays at the largest value once it is reached.
pub open spec fn counted(written: nat) -> nat {
    if written < u64::MAX {
        written + 1
    } else {
        written
    }
}

/// The state of a traversal between two steps, as a mathematical value.
pub struct WalkView {
    /// The directory that was asked for.
    pub requested: UrlView,
    pub options: OptionsView,
    /// The entries that wait, the next one first.
    pub pending: Seq<TaskView>,
    /// The number of files written so far.
    pub written: nat,
}

/// A step of a traversal, as a mathematical value.
pub enum StepView {
    /// Fetch the page of `directory`.
    FetchListing { walk: WalkView, directory: UrlView },
    /// Fetch `raw_url` and write it to the place `relative_path` below the
    /// output directory.
    FetchFile { walk: WalkView, raw_url: Seq<char>, relative_path: Seq<Seq<char>> },
    /// Report that the symbolic link at `path` is skipped.
    SkipSymlink { walk: WalkView, path: Seq<char> },
    /// The traversal is over.
    Finished { written: nat, failure: Option<WalkErrorView> },
}

impl WalkView {
    /// The traversal without its next entry.
    pub open spec fn rest(self) -> WalkView {
        WalkView { pending: self.pending.skip(1), ..self }
    }

    /// The traversal that ends here with `failure`.
    pub open spec fn fail(self, failure: WalkErrorView) -> StepView {
        StepView::Finished { written: self.written, failure: Some(failure) }
    }

    /// The next step: what the first entry that waits asks for.
    ///
    /// A file is fetched to its place under the path policy; a directory is
    /// listed, or passed over where subdirectories are ignored; a symbolic
    /// link is reported and never followed; an entry of unknown kind ends the
    /// traversal. With no entry left the traversal is over.
    pub open spec fn advance(self) -> StepView
        decreases self.pending.len(),
    {
        if self.pending.len() == 0 {
            StepView::Finished { written: self.written, failure: None }
        } else {
            let task = self.pending[0];
            match task.item.entry() {
                None => self.fail(
                    WalkErrorView::UnknownEntryKind {
                        path: task.item.path,
                        content_type: task.item.content_type,
                    },
                ),
                Some(entry) => {
                    let location = task.directory.join(entry.name);
                    match entry.kind {
                        EntryKind::File => match relative_path_of(
                            entry.full_path,
                            self.options.path_policy,
                            self.requested.path,
                        ) {
                            Ok(relative_path) => StepView::FetchFile {
                                walk: self.rest(),
                                raw_url: location.raw_url(),
                                relative_path,
                            },
                            Err(_) => self.fail(
                                WalkErrorView::PrefixMismatch { path: task.item.path },
                            ),
                        },
                        EntryKind::Directory => if self.options.ignore_subdirectories {
                            self.rest().advance()
                        } else {
                            StepView::FetchListing { walk: self.rest(), directory: location }
                        },
                        _ => StepView::SkipSymlink {
                            walk: self.rest(),
                            path: join_segments(location.path),
                        },
                    }
                },
            }
        }
    }

    /// The step after the page of `directory` was fetched and read: its rows
    /// wait before all others, in their order. A page without a readable
    /// listing ends the traversal.
    pub open spec fn after_listing(self, directory: UrlView, listing: Option<Seq<ItemView>>)
        -> StepView {
        match listing {
            Some(items) => WalkView {
                pending: tasks_for(directory, items) + self.pending,
                ..self
            }.advance(),
            None => self.fail(WalkErrorView::MalformedListingError { url: directory.listing_url() }),
        }
    }

    /// The step after a file was written: it is counted.
    pub open spec fn after_file(self) -> StepView {
        WalkView { written: counted(self.written), ..self }.advance()
    }
}

/// The first step of a traversal: fetch the page of the requested directory.
pub open spec fn first_step(requested: UrlView, options: OptionsView) -> StepView {
    StepView::FetchListing {
        walk: WalkView { requested, options, pending: Seq::empty(), written: 0 },
        directory: requested,
    }
}

/// What came of doing what a step asked for.
pub enum Outcome {
    /// The page was fetched and read: its rows, or `None` where it carries
    /// no readable listing.
    Listed(Option<Seq<ItemView>>),
    /// The page or the file could not be fetched.
    FetchFailed,
    /// The file was written.
    Written,
    /// The file could not be written; or, of a request for a page, the
    /// output directory could not be made.
    WriteFailed,
    /// The notice was given.
    Noted,
}

impl StepView {
    /// The number of files written so far.
    pub open spec fn written(self) -> nat {
        match self {
            StepView::FetchListing { walk, .. } => walk.written,
            StepView::FetchFile { walk, .. } => walk.written,
            StepView::SkipSymlink { walk, .. } => walk.written,
            StepView::Finished { written, .. } => written,
        }
    }

    /// The step that follows this one when `outcome` comes of it, if such an
    /// outcome can come of it.
    pub open spec fn respond(self, outcome: Outcome) -> Option<StepView> {
        match (self, outcome) {
            (StepView::FetchListing { walk, directory }, Outcome::Listed(listing)) => Some(
                walk.after_listing(directory, listing),
            ),
            (StepView::FetchListing { walk, directory }, Outcome::FetchFailed) => Some(
                walk.fail(WalkErrorView::FetchError { url: directory.listing_url() }),
            ),
            (StepView::FetchListing { walk, .. }, Outcome::WriteFailed) => Some(
                walk.fail(WalkErrorView::IoError { place: Seq::empty() }),
            ),
            (StepView::FetchFile { walk, .. }, Outcome::Written) => Some(walk.after_file()),
            (StepView::FetchFile { walk, raw_url, .. }, Outcome::FetchFailed) => Some(
                walk.fail(WalkErrorView::FetchError { url: raw_url }),
            ),
            (StepView::FetchFile { walk, relative_path, .. }, Outcome::WriteFailed) => Some(
                walk.fail(WalkErrorView::IoError { place: relative_path }),
            ),
            (StepView::SkipSymlink { walk, .. }, Outcome::Noted) => Some(walk.advance()),
            _ => None,
        }
    }

    /// The step that is reached from this one by the given outcomes, one
    /// after the other, if each can come of the step before it.
    pub open spec fn run(self, outcomes: Seq<Outcome>) -> Option<StepView>
        decreases outcomes.len(),
    {
        if outcomes.len() == 0 {
            Some(self)
        } else {
            match self.run(outcomes.drop_last()) {
                Some(step) => step.respond(outcomes.last()),
                None => None,
            }
        }
    }
}

/// The state of a traversal between two steps.
#[derive(Debug)]
pub struct Walk {
    /// The directory that was asked for.
    pub requested: GitHubUrl,
    pub options: TraversalOptions,
    /// The entries that wait, the next one last.
    pub pending: Vec<Task>,
    /// The number of files written so far.
    pub written: u64,
}

impl View for Walk {
    type V = WalkView;

    open spec fn view(&self) -> WalkView {
        WalkView {
            requested: self.requested@,
            options: self.options@,
            pending: stack_view(self.pending@),
            written: self.written as nat,
        }
    }
}

/// How a traversal ended: the number of files written, and what stopped it,
/// if anything did.
#[derive(Debug, PartialEq, Eq)]
pub struct Summary {
    pub written: u64,
    pub failure: Option<WalkError>,
}

/// The request to fetch the page of `directory`.
#[derive(Debug)]
pub struct ListingRequest {
    pub walk: Walk,
    pub directory: GitHubUrl,
}

/// The request to fetch the file at `raw_url` and to write it to the place
/// `relative_path` below the output directory.
#[derive(Debug)]
pub struct FileRequest {
    pub walk: Walk,
    pub raw_url: String,
    pub relative_path: Vec<String>,
}

/// The notice that the symbolic link at `path` is skipped.
#[derive(Debug)]
pub struct SymlinkNotice {
    pub walk: Walk,
    pub path: String,
}

/// A step of a traversal: one thing to do, or the end.
#[derive(Debug)]
pub enum Step {
    FetchListing(ListingRequest),
    FetchFile(FileRequest),
    SkipSymlink(SymlinkNotice),
    Finished(Summary),
}

impl View for ListingRequest {
    type V = StepView;

    open spec fn view(&self) -> StepView {
        StepView::FetchListing { walk: self.walk@, directory: self.directory@ }
    }
}

impl View for FileRequest {
    type V = StepView;

    open spec fn view(&self) -> StepView {
        StepView::FetchFile {
            walk: self.walk@,
            raw_url: self.raw_url@,
            relative_path: texts(self.relative_path@),
        }
    }
}

impl View for SymlinkNotice {
    type V = StepView;

    open spec fn view(&self) -> StepView {
        StepView::SkipSymlink { walk: self.walk@, path: self.path@ }
    }
}

impl View for Summary {
    type V = StepView;

    open spec fn view(&self) -> StepView {
        StepView::Finished {
            written: self.written as nat,
            failure: match self.failure {
                Some(e) => Some(e@),
                None => None,
            },
        }
    }
}

impl View for Step {
    type V = StepView;

    open spec fn view(&self) -> StepView {
        match self {
            Step::FetchListing(request) => request@,
            Step::FetchFile(request) => request@,
            Step::SkipSymlink(notice) => notice@,
            Step::Finished(summary) => summary@,
        }
    }
}

impl Walk {
    /// Starts a traversal of `requested`: the first thing to do is to fetch
    /// its page.
    pub fn start(requested: GitHubUrl, options: TraversalOptions) -> (request: ListingRequest)
        ensures
            request@ == first_step(requested@, options@),
    {
        let directory = requested.clone();
        let walk = Walk { requested, options, pending: Vec::new(), written: 0 };
        assert(stack_view(walk.pending@) =~= Seq::<TaskView>::empty());
        ListingRequest { walk, directory }
    }

    /// Ends the traversal here with `failure`.
    fn fail(self, failure: WalkError) -> (step: Step)
        ensures
            step@ == self@.fail(failure@),
    {
        Step::Finished(Summary { written: self.written, failure: Some(failure) })
    }

    /// Takes the entries that wait, in their order, until one asks for
    /// something to be done, and gives that step.
    pub fn advance(self) -> (step: Step)
        ensures
            step@ == self@.advance(),
    {
        let ghost start = self@;
        let mut walk = self;
        loop
            invariant
                start == self@,
                walk@.advance() == start.advance(),
            decreases walk.pending.len(),
        {
            let ghost before = walk@;
            let task = match walk.pending.pop() {
                Some(task) => task,
                None => {
                    return Step::Finished(Summary { written: walk.written, failure: None });
                },
            };
            proof {
                assert(before.pending[0] == task@);
                assert(walk@.pending =~= before.pending.skip(1));
                assert(walk@ == before.rest());
            }
            let entry = match task.item.entry() {
                Some(entry) => entry,
                None => {
                    return walk.fail(
                        WalkError::UnknownEntryKind {
                            path: task.item.path,
                            content_type: task.item.content_type,
                        },
                    );
                },
            };
            let location = task.directory.join(entry.name.as_str());
            match entry.kind {
                EntryKind::File => {
                    match relative_path(
                        &entry.full_path,
                        walk.options.path_policy,
                        &walk.requested,
                    ) {
                        Ok(relative_path) => {
                            let raw_url = location.raw_url();
                            return Step::FetchFile(FileRequest { walk, raw_url, relative_path });
                        },
                        Err(_) => {
                            return walk.fail(WalkError::PrefixMismatch { path: task.item.path });
                        },
                    }
                },
                EntryKind::Directory => {
                    if !walk.options.ignore_subdirectories {
                        return Step::FetchListing(ListingRequest { walk, directory: location });
                    }
                },
                _ => {
                    let path = join_path(&location.path);
                    return Step::SkipSymlink(SymlinkNotice { walk, path });
                },
            }
        }
    }

    /// Puts the rows of the listing of `directory` before the entries that
    /// wait, in their order.
    fn enqueue(&mut self, directory: &GitHubUrl, items: Vec<ListingItem>)
        ensures
            final(self)@ == (WalkView {
                pending: tasks_for(directory@, item_views(items@)) + old(self)@.pending,
                ..old(self)@
            }),
    {
        let ghost all = item_views(items@);
        let ghost waiting = self@.pending;
        let mut rows = items;
        assert(tasks_for(directory@, all.skip(all.len() as int)) + waiting =~= waiting);
        assert(all.take(all.len() as int) =~= all);
        while rows.len() > 0
            invariant
                rows@.len() <= all.len(),
                item_views(rows@) == all.take(rows@.len() as int),
                self.requested == old(self).requested,
                self.options == old(self).options,
                self.written == old(self).written,
                stack_view(self.pending@) == tasks_for(directory@, all.skip(rows@.len() as int))
                    + waiting,
            decreases rows.len(),
        {
            let ghost n = rows@.len() as int;
            let ghost stack = self.pending@;
            let ghost before = rows@;
            let item = rows.pop().unwrap();
            let task = Task { directory: directory.clone(), item };
            self.pending.push(task);
            proof {
                assert(item@ == item_views(before)[n - 1]);
                assert(item_views(rows@) =~= all.take(n - 1)) by {
                    assert forall|j: int| 0 <= j < n - 1 implies item_views(rows@)[j] == all.take(
                        n - 1,
                    )[j] by {
                        assert(item_views(before)[j] == all.take(n)[j]);
                    }
                }
                assert(stack_view(self.pending@) =~= seq![task@] + stack_view(stack));
                assert(tasks_for(directory@, all.skip(n - 1)) =~= seq![task@] + tasks_for(
                    directory@,
                    all.skip(n),
                ));
                assert(stack_view(self.pending@) =~= tasks_for(directory@, all.skip(n - 1))
                    + waiting);
            }
        }
        assert(all.skip(0) =~= all);
    }
}

impl ListingRequest {
    /// The URL of the page to fetch.
    pub fn url(&self) -> (text: String)
        ensures
            text@ == self.directory@.listing_url(),
    {
        self.directory.url()
    }

    /// The step after the page was fetched and read, given what was read:
    /// the rows of the listing wait before all others. `None` says that the
    /// page carries no readable listing, which ends the traversal.
    pub fn listed(self, listing: Option<Vec<ListingItem>>) -> (step: Step)
        ensures
            self@.respond(Outcome::Listed(listing_view(listing))) == Some(step@),
    {
        let mut walk = self.walk;
        match listing {
            Some(items) => {
                walk.enqueue(&self.directory, items);
                walk.advance()
            },
            None => {
                let url = self.directory.url();
                walk.fail(WalkError::MalformedListingError { url })
            },
        }
    }

    /// The step after the page was fetched, given its text: the listing is
    /// read out of the page, and the traversal goes on as `listed` says.
    pub fn fetched(self, body: &str) -> (step: Step)
        ensures
            self@.respond(Outcome::Listed(page_items(body@))) == Some(step@),
    {
        let listing = read_listing(body);
        self.listed(listing)
    }

    /// The step after the page could not be fetched: the traversal ends.
    pub fn failed(self) -> (step: Step)
        ensures
            self@.respond(Outcome::FetchFailed) == Some(step@),
    {
        let url = self.directory.url();
        self.walk.fail(WalkError::FetchError { url })
    }

    /// The step after the output directory could not be made: the traversal
    /// ends with an `IoError` for the place without segments, which is the
    /// output directory itself.
    pub fn write_failed(self) -> (step: Step)
        ensures
            self@.respond(Outcome::WriteFailed) == Some(step@),
    {
        let place: Vec<String> = Vec::new();
        assert(texts(place@) =~= Seq::<Seq<char>>::empty());
        self.walk.fail(WalkError::IoError { place })
    }
}

impl FileRequest {
    /// The step after the file was written: it is counted, and the traversal
    /// goes on.
    pub fn written(self) -> (step: Step)
        ensures
            self@.respond(Outcome::Written) == Some(step@),
    {
        let mut walk = self.walk;
        if walk.written < u64::MAX {
            walk.written = walk.written + 1;
        }
        walk.advance()
    }

    /// The step after the file could not be fetched: the traversal ends.
    pub fn fetch_failed(self) -> (step: Step)
        ensures
            self@.respond(Outcome::FetchFailed) == Some(step@),
    {
        self.walk.fail(WalkError::FetchError { url: self.raw_url })
    }

    /// The step after the file could not be written: the traversal ends.
    pub fn write_failed(self) -> (step: Step)
        ensures
            self@.respond(Outcome::WriteFailed) == Some(step@),
    {
        self.walk.fail(WalkError::IoError { place: self.relative_path })
    }
}

/// The notice that the symbolic link at `path` is skipped.
pub open spec fn symlink_notice(path: Seq<char>) -> Seq<char> {
    warning_text("Skipping symlink '"@ + path + "'"@)
}

impl SymlinkNotice {
    /// The notice as a message for the terminal.
    pub fn message(&self) -> (text: String)
        ensures
            text@ == symlink_notice(self.path@),
    {
        make_warning_message(
            String::from_str("Skipping symlink '").concat(self.path.as_str()).concat("'"),
        )
    }

    /// The step after the notice was given: the traversal goes on.
    pub fn noted(self) -> (step: Step)
        ensures
            self@.respond(Outcome::Noted) == Some(step@),
    {
        self.walk.advance()
    }
}

} // verus!
