//! The traversal of a whole site on which every fetch succeeds: what is
//! fetched, written and reported is exactly what the site lists, in the
//! order of its listings, each subdirectory before the entry that follows
//! it.

use crate::listing::{EntryKind, ItemView};
use crate::options::OptionsView;
use crate::segments::join_segments;
use crate::traversal::saturated;
use crate::url::{lemma_relative_path_strips, relative_path_of, PathPolicy, UrlView};
use crate::walk::{counted, first_step, tasks_for, Outcome, StepView, TaskView, WalkView};
use vstd::prelude::*;

verus! {

/// One thing that a traversal got done.
pub enum Deed {
    /// The page of `directory` was fetched and its listing read.
    Listed { directory: UrlView },
    /// The file at `raw_url` was written to the place `relative_path`.
    Wrote { raw_url: Seq<char>, relative_path: Seq<Seq<char>> },
    /// The symbolic link at `path` was reported.
    Noticed { path: Seq<char> },
}

impl StepView {
    /// What got done when `outcome` came of this step, if anything did.
    pub open spec fn deed(self, outcome: Outcome) -> Option<Deed> {
        match (self, outcome) {
            (StepView::FetchListing { directory, .. }, Outcome::Listed(Some(_))) => Some(
                Deed::Listed { directory },
            ),
            (StepView::FetchFile { raw_url, relative_path, .. }, Outcome::Written) => Some(
                Deed::Wrote { raw_url, relative_path },
            ),
            (StepView::SkipSymlink { path, .. }, Outcome::Noted) => Some(Deed::Noticed { path }),
            _ => None,
        }
    }

    /// What got done from this step on while the given outcomes came, in
    /// order.
    pub open spec fn deeds(self, outcomes: Seq<Outcome>) -> Seq<Deed>
        decreases outcomes.len(),
    {
        if outcomes.len() == 0 {
            Seq::empty()
        } else {
            let done = self.deeds(outcomes.drop_last());
            match self.run(outcomes.drop_last()) {
                Some(step) => match step.deed(outcomes.last()) {
                    Some(deed) => done.push(deed),
                    None => done,
                },
                None => done,
            }
        }
    }
}

/// The number of files that the deeds wrote.
pub open spec fn wrote_count(deeds: Seq<Deed>) -> nat
    decreases deeds.len(),
{
    if deeds.len() == 0 {
        0
    } else {
        wrote_count(deeds.drop_last()) + if deeds.last() is Wrote {
            1nat
        } else {
            0nat
        }
    }
}

/// The number of symbolic links that the deeds reported.
pub open spec fn noticed_count(deeds: Seq<Deed>) -> nat
    decreases deeds.len(),
{
    if deeds.len() == 0 {
        0
    } else {
        noticed_count(deeds.drop_last()) + if deeds.last() is Noticed {
            1nat
        } else {
            0nat
        }
    }
}

/// A site and a request to it: the listing of every directory of the site,
/// the directory that is asked for, and the options of the traversal.
pub struct Visit {
    pub site: spec_fn(UrlView) -> Seq<ItemView>,
    pub requested: UrlView,
    pub options: OptionsView,
}

impl Visit {
    /// The directory that the traversal goes into for `item`, an entry of
    /// `directory`: the entry must be a directory, and subdirectories must
    /// not be ignored.
    pub open spec fn enters(self, directory: UrlView, item: ItemView) -> Option<UrlView> {
        match item.entry() {
            Some(entry) => if entry.kind == EntryKind::Directory
                && !self.options.ignore_subdirectories {
                Some(directory.join(entry.name))
            } else {
                None
            },
            None => None,
        }
    }

    /// What is due for `item` itself, an entry of `directory`: a file is
    /// written to its place, a symbolic link is reported, a directory is
    /// listed unless subdirectories are ignored.
    pub open spec fn due_for(self, directory: UrlView, item: ItemView) -> Seq<Deed> {
        match item.entry() {
            Some(entry) => {
                let location = directory.join(entry.name);
                match entry.kind {
                    EntryKind::File => match relative_path_of(
                        entry.full_path,
                        self.options.path_policy,
                        self.requested.path,
                    ) {
                        Ok(relative_path) => seq![
                            Deed::Wrote { raw_url: location.raw_url(), relative_path },
                        ],
                        Err(_) => Seq::empty(),
                    },
                    EntryKind::Directory => if self.options.ignore_subdirectories {
                        Seq::empty()
                    } else {
                        seq![Deed::Listed { directory: location }]
                    },
                    _ => seq![Deed::Noticed { path: join_segments(location.path) }],
                }
            },
            None => Seq::empty(),
        }
    }

    /// The outcome that comes of the step for `item`, an entry of
    /// `directory`, where every fetch succeeds; none for a directory that is
    /// passed over.
    pub open spec fn outcome_for(self, directory: UrlView, item: ItemView) -> Seq<Outcome> {
        match item.entry() {
            Some(entry) => match entry.kind {
                EntryKind::File => seq![Outcome::Written],
                EntryKind::Directory => match self.enters(directory, item) {
                    Some(inner) => seq![Outcome::Listed(Some((self.site)(inner)))],
                    None => Seq::empty(),
                },
                _ => seq![Outcome::Noted],
            },
            None => Seq::empty(),
        }
    }

    /// The traversal can go through the entries `items` of `directory` and
    /// all below them without a failure: every kind is known, every file
    /// has a place under the path policy, and the directories are nested at
    /// most `depth` deep.
    pub open spec fn sound(self, directory: UrlView, items: Seq<ItemView>, depth: nat) -> bool
        decreases depth, items.len(),
    {
        if items.len() == 0 {
            true
        } else {
            let item = items[0];
            &&& item.entry() matches Some(entry)
            &&& entry.kind == EntryKind::File ==> relative_path_of(
                entry.full_path,
                self.options.path_policy,
                self.requested.path,
            ) is Ok
            &&& self.enters(directory, item) matches Some(inner) ==> depth > 0 && self.sound(
                inner,
                (self.site)(inner),
                (depth - 1) as nat,
            )
            &&& self.sound(directory, items.skip(1), depth)
        }
    }

    /// The outcomes that come while the traversal goes through the entries
    /// `items` of `directory` and all below them, where every fetch
    /// succeeds.
    pub open spec fn outcomes(self, directory: UrlView, items: Seq<ItemView>, depth: nat) -> Seq<
        Outcome,
    >
        decreases depth, items.len(),
    {
        if items.len() == 0 {
            Seq::empty()
        } else {
            let item = items[0];
            let below = match self.enters(directory, item) {
                Some(inner) => if depth > 0 {
                    self.outcomes(inner, (self.site)(inner), (depth - 1) as nat)
                } else {
                    Seq::empty()
                },
                None => Seq::empty(),
            };
            self.outcome_for(directory, item) + below + self.outcomes(
                directory,
                items.skip(1),
                depth,
            )
        }
    }

    /// What is due for the entries `items` of `directory` and all below
    /// them: for each entry in the order of the listing what is due for
    /// itself, and after a directory that is gone into, what is due for its
    /// own entries.
    pub open spec fn due(self, directory: UrlView, items: Seq<ItemView>, depth: nat) -> Seq<Deed>
        decreases depth, items.len(),
    {
        if items.len() == 0 {
            Seq::empty()
        } else {
            let item = items[0];
            let below = match self.enters(directory, item) {
                Some(inner) => if depth > 0 {
                    self.due(inner, (self.site)(inner), (depth - 1) as nat)
                } else {
                    Seq::empty()
                },
                None => Seq::empty(),
            };
            self.due_for(directory, item) + below + self.due(directory, items.skip(1), depth)
        }
    }

    /// The number of files, or with `links` of symbolic links, among the
    /// entries `items` of `directory` and all below them that the traversal
    /// goes into.
    pub open spec fn count(
        self,
        directory: UrlView,
        items: Seq<ItemView>,
        depth: nat,
        links: bool,
    ) -> nat
        decreases depth, items.len(),
    {
        if items.len() == 0 {
            0
        } else {
            let item = items[0];
            let here = match item.entry() {
                Some(entry) => if links {
                    entry.kind.is_symlink()
                } else {
                    entry.kind == EntryKind::File
                },
                None => false,
            };
            let below = match self.enters(directory, item) {
                Some(inner) => if depth > 0 {
                    self.count(inner, (self.site)(inner), (depth - 1) as nat, links)
                } else {
                    0
                },
                None => 0,
            };
            (if here {
                1nat
            } else {
                0nat
            }) + below + self.count(directory, items.skip(1), depth, links)
        }
    }
}

/// Going on by `a` and then by `b` is going on by both.
pub proof fn lemma_run_concat(s: StepView, a: Seq<Outcome>, b: Seq<Outcome>)
    ensures
        s.run(a + b) == match s.run(a) {
            Some(t) => t.run(b),
            None => None,
        },
        s.run(a) matches Some(t) ==> s.deeds(a + b) == s.deeds(a) + t.deeds(b),
    decreases b.len(),
{
    if b.len() == 0 {
        assert(a + b =~= a);
        if let Some(t) = s.run(a) {
            assert(s.deeds(a) + t.deeds(b) =~= s.deeds(a));
        }
    } else {
        assert((a + b).drop_last() =~= a + b.drop_last());
        assert((a + b).last() == b.last());
        lemma_run_concat(s, a, b.drop_last());
        if let Some(t) = s.run(a) {
            let done = s.deeds(a) + t.deeds(b.drop_last());
            match t.run(b.drop_last()) {
                Some(step) => match step.deed(b.last()) {
                    Some(deed) => {
                        assert(done.push(deed) =~= s.deeds(a) + t.deeds(b.drop_last()).push(deed));
                    },
                    None => {},
                },
                None => {},
            }
        }
    }
}

/// One outcome leads to the step that answers it, and gets done what the
/// step stands for.
pub proof fn lemma_run_one(s: StepView, outcome: Outcome)
    ensures
        s.run(seq![outcome]) == s.respond(outcome),
        s.deeds(seq![outcome]) == match s.deed(outcome) {
            Some(deed) => seq![deed],
            None => Seq::empty(),
        },
{
    let one = seq![outcome];
    assert(one.drop_last() =~= Seq::<Outcome>::empty());
    assert(s.run(one.drop_last()) == Some(s));
    assert(s.deeds(one.drop_last()) =~= Seq::<Deed>::empty());
    if let Some(deed) = s.deed(outcome) {
        assert(Seq::<Deed>::empty().push(deed) =~= seq![deed]);
    }
}

/// Counting the deeds of two runs counts those of each.
pub proof fn lemma_count_concat(a: Seq<Deed>, b: Seq<Deed>)
    ensures
        wrote_count(a + b) == wrote_count(a) + wrote_count(b),
        noticed_count(a + b) == noticed_count(a) + noticed_count(b),
    decreases b.len(),
{
    if b.len() == 0 {
        assert(a + b =~= a);
    } else {
        assert((a + b).drop_last() =~= a + b.drop_last());
        lemma_count_concat(a, b.drop_last());
    }
}

/// What one deed counts for.
proof fn lemma_count_one(deed: Deed)
    ensures
        wrote_count(seq![deed]) == if deed is Wrote {
            1nat
        } else {
            0nat
        },
        noticed_count(seq![deed]) == if deed is Noticed {
            1nat
        } else {
            0nat
        },
        wrote_count(Seq::<Deed>::empty()) == 0,
        noticed_count(Seq::<Deed>::empty()) == 0,
{
    let none = Seq::<Deed>::empty();
    assert(seq![deed].drop_last() =~= none);
    assert(wrote_count(none) == 0);
    assert(noticed_count(none) == 0);
    assert(seq![deed].last() == deed);
}

/// On a sound site, the files written are the files listed and the links
/// reported are the links listed, one deed for each.
pub proof fn lemma_due_counts(v: Visit, directory: UrlView, items: Seq<ItemView>, depth: nat)
    requires
        v.sound(directory, items, depth),
    ensures
        wrote_count(v.due(directory, items, depth)) == v.count(directory, items, depth, false),
        noticed_count(v.due(directory, items, depth)) == v.count(directory, items, depth, true),
    decreases depth, items.len(),
{
    if items.len() > 0 {
        let item = items[0];
        let below = match v.enters(directory, item) {
            Some(inner) => v.due(inner, (v.site)(inner), (depth - 1) as nat),
            None => Seq::empty(),
        };
        if let Some(inner) = v.enters(directory, item) {
            lemma_due_counts(v, inner, (v.site)(inner), (depth - 1) as nat);
        }
        lemma_due_counts(v, directory, items.skip(1), depth);
        let own = v.due_for(directory, item);
        let rest = v.due(directory, items.skip(1), depth);
        lemma_count_concat(own, below);
        lemma_count_concat(own + below, rest);
        if own.len() > 0 {
            assert(own =~= seq![own[0]]);
            lemma_count_one(own[0]);
        }
    }
}

impl WalkView {
    /// The state after the traversal went through the entries at its front
    /// and `wrote` files of them: `waiting` is left, and the files count.
    pub open spec fn gone_through(self, waiting: Seq<TaskView>, wrote: nat) -> WalkView {
        WalkView { pending: waiting, written: saturated(self.written + wrote), ..self }
    }
}

/// Where the entries `items` of `directory` wait before `waiting`, on a
/// sound site, the outcomes of the site lead the traversal through these
/// entries and all below them: what gets done is exactly what is due, every
/// file written is counted, and the traversal goes on with `waiting`.
pub proof fn lemma_visit(
    v: Visit,
    w: WalkView,
    directory: UrlView,
    items: Seq<ItemView>,
    depth: nat,
    waiting: Seq<TaskView>,
)
    requires
        w.requested == v.requested,
        w.options == v.options,
        w.pending == tasks_for(directory, items) + waiting,
        w.written <= u64::MAX,
        v.sound(directory, items, depth),
    ensures
        w.advance().run(v.outcomes(directory, items, depth)) == Some(
            w.gone_through(waiting, wrote_count(v.due(directory, items, depth))).advance(),
        ),
        w.advance().deeds(v.outcomes(directory, items, depth)) == v.due(directory, items, depth),
    decreases depth, items.len(),
{
    let first = w.advance();
    let outs = v.outcomes(directory, items, depth);
    let due = v.due(directory, items, depth);
    let none = Seq::<Deed>::empty();
    assert(wrote_count(none) == 0);
    if items.len() == 0 {
        assert(w.pending =~= waiting);
        assert(w.gone_through(waiting, 0) == w);
    } else {
        let item = items[0];
        let later = items.skip(1);
        let entry = item.entry()->0;
        let r = w.rest();
        assert(w.pending[0] == TaskView { directory, item });
        assert(r.pending =~= tasks_for(directory, later) + waiting);
        let own_out = v.outcome_for(directory, item);
        let own_due = v.due_for(directory, item);
        let later_out = v.outcomes(directory, later, depth);
        let later_due = v.due(directory, later, depth);
        if let Some(inner) = v.enters(directory, item) {
            let children = (v.site)(inner);
            let below_out = v.outcomes(inner, children, (depth - 1) as nat);
            let below_due = v.due(inner, children, (depth - 1) as nat);
            let listed = Outcome::Listed(Some(children));
            let held = tasks_for(directory, later) + waiting;
            let w2 = WalkView { pending: tasks_for(inner, children) + r.pending, ..r };
            let w3 = w2.gone_through(held, wrote_count(below_due));
            assert(first == StepView::FetchListing { walk: r, directory: inner });
            lemma_run_one(first, listed);
            assert(first.run(own_out) == Some(w2.advance()));
            lemma_visit(v, w2, inner, children, (depth - 1) as nat, held);
            lemma_visit(v, w3, directory, later, depth, waiting);
            lemma_run_concat(first, own_out, below_out);
            lemma_run_concat(first, own_out + below_out, later_out);
            lemma_count_concat(own_due, below_due);
            lemma_count_concat(own_due + below_due, later_due);
            lemma_count_one(own_due[0]);
            assert(own_due =~= seq![own_due[0]]);
            assert(w3.gone_through(waiting, wrote_count(later_due)) == w.gone_through(
                waiting,
                wrote_count(due),
            ));
        } else {
            assert(own_out + Seq::<Outcome>::empty() =~= own_out);
            assert(own_due + none =~= own_due);
            if entry.kind == EntryKind::Directory {
                assert(first == r.advance());
                assert(Seq::<Outcome>::empty() + later_out =~= later_out);
                assert(none + later_due =~= later_due);
                lemma_visit(v, r, directory, later, depth, waiting);
            } else if entry.kind == EntryKind::File {
                let w1 = WalkView { written: counted(r.written), ..r };
                lemma_run_one(first, Outcome::Written);
                assert(first.run(own_out) == Some(w1.advance()));
                lemma_visit(v, w1, directory, later, depth, waiting);
                lemma_run_concat(first, own_out, later_out);
                lemma_count_concat(own_due, later_due);
                lemma_count_one(own_due[0]);
                assert(own_due =~= seq![own_due[0]]);
                assert(w1.gone_through(waiting, wrote_count(later_due)) == w.gone_through(
                    waiting,
                    wrote_count(due),
                ));
            } else {
                lemma_run_one(first, Outcome::Noted);
                assert(first.run(own_out) == Some(r.advance()));
                lemma_visit(v, r, directory, later, depth, waiting);
                lemma_run_concat(first, own_out, later_out);
                lemma_count_concat(own_due, later_due);
                lemma_count_one(own_due[0]);
                assert(own_due =~= seq![own_due[0]]);
            }
        }
    }
}

impl Visit {
    /// The listing of the requested directory.
    pub open spec fn listing(self) -> Seq<ItemView> {
        (self.site)(self.requested)
    }

    /// The outcomes of the whole traversal, where every fetch succeeds: the
    /// listing of the requested directory, and what comes while its
    /// entries are gone through.
    pub open spec fn all_outcomes(self, depth: nat) -> Seq<Outcome> {
        seq![Outcome::Listed(Some(self.listing()))] + self.outcomes(
            self.requested,
            self.listing(),
            depth,
        )
    }

    /// What is due for the whole traversal: the requested directory is
    /// listed, and then what is due for its entries and all below them.
    pub open spec fn all_due(self, depth: nat) -> Seq<Deed> {
        seq![Deed::Listed { directory: self.requested }] + self.due(
            self.requested,
            self.listing(),
            depth,
        )
    }

    /// The number of files that the traversal comes to.
    pub open spec fn file_count(self, depth: nat) -> nat {
        self.count(self.requested, self.listing(), depth, false)
    }

    /// The number of symbolic links that the traversal comes to.
    pub open spec fn link_count(self, depth: nat) -> nat {
        self.count(self.requested, self.listing(), depth, true)
    }
}

/// The traversal of a sound site, every fetch of which succeeds, ends
/// without a failure. What it got done is exactly what is due: every file
/// that it comes to is written once, to its place under the path policy, and
/// nothing else is written; every symbolic link that it comes to is reported
/// once, and nothing else is; and the count at the end is the number of
/// these files.
pub proof fn lemma_traversal_of_a_sound_site(v: Visit, depth: nat)
    requires
        v.sound(v.requested, v.listing(), depth),
    ensures
        first_step(v.requested, v.options).run(v.all_outcomes(depth)) == Some(
            StepView::Finished { written: saturated(v.file_count(depth)), failure: None },
        ),
        first_step(v.requested, v.options).deeds(v.all_outcomes(depth)) == v.all_due(depth),
        wrote_count(v.all_due(depth)) == v.file_count(depth),
        noticed_count(v.all_due(depth)) == v.link_count(depth),
{
    let first = first_step(v.requested, v.options);
    let items = v.listing();
    let listed = Outcome::Listed(Some(items));
    let outs = v.outcomes(v.requested, items, depth);
    let due = v.due(v.requested, items, depth);
    let nothing = Seq::<TaskView>::empty();
    let w0 = WalkView { requested: v.requested, options: v.options, pending: nothing, written: 0 };
    let w1 = WalkView { pending: tasks_for(v.requested, items) + nothing, ..w0 };
    lemma_run_one(first, listed);
    assert(first.run(seq![listed]) == Some(w1.advance()));
    lemma_visit(v, w1, v.requested, items, depth, nothing);
    lemma_run_concat(first, seq![listed], outs);
    lemma_due_counts(v, v.requested, items, depth);
    let opening = Deed::Listed { directory: v.requested };
    lemma_count_concat(seq![opening], due);
    lemma_count_one(opening);
}

/// What is due for a file is that it is written to the place of its path:
/// relative to the root the path without its first segment, relative to the
/// request the path without the path of the requested directory.
pub proof fn lemma_due_for_a_file(v: Visit, directory: UrlView, item: ItemView)
    requires
        item.entry() is Some,
        item.entry()->0.kind == EntryKind::File,
        relative_path_of(item.entry()->0.full_path, v.options.path_policy, v.requested.path) is Ok,
    ensures
        ({
            let entry = item.entry()->0;
            let place = relative_path_of(
                entry.full_path,
                v.options.path_policy,
                v.requested.path,
            )->Ok_0;
            &&& v.due_for(directory, item) == seq![
                Deed::Wrote { raw_url: directory.join(entry.name).raw_url(), relative_path: place },
            ]
            &&& v.options.path_policy == PathPolicy::RootRelative && entry.full_path.len() > 0
                ==> seq![entry.full_path[0]] + place == entry.full_path
            &&& v.options.path_policy == PathPolicy::RequestRelative ==> v.requested.path + place
                == entry.full_path
        }),
{
    lemma_relative_path_strips(
        item.entry()->0.full_path,
        v.options.path_policy,
        v.requested.path,
    );
}

} // verus!
