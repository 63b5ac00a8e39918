//! What holds of the session manager after any number of transitions.

use crate::vfs::Tree;
use crate::workspace::activity_panel::Session;
use vstd::prelude::*;

verus! {

/// One transition of the session manager.
pub enum Operation {
    OpenFile(usize),
    CloseTab(nat),
    CloseAllTabs,
    SplitTab(nat),
    Activate(nat),
}

impl Session {
    /// The state after one transition.
    pub open spec fn apply(self, operation: Operation) -> Session {
        match operation {
            Operation::OpenFile(file) => self.open_file(file),
            Operation::CloseTab(tab) => self.close_tab(tab),
            Operation::CloseAllTabs => self.close_all_tabs(),
            Operation::SplitTab(tab) => self.split_tab(tab),
            Operation::Activate(tab) => self.activate(tab),
        }
    }

    /// The state after a sequence of transitions, carried out first to last.
    pub open spec fn run(self, operations: Seq<Operation>) -> Session
        decreases operations.len(),
    {
        if operations.len() == 0 {
            self
        } else {
            self.run(operations.drop_last()).apply(operations.last())
        }
    }

    /// The open tabs that edit `file`, in display order.
    pub open spec fn editors_of(self, file: usize) -> Seq<nat> {
        self.open.filter(|tab: nat| self.edits(tab, file))
    }

    /// No two open tabs edit the same file.
    pub open spec fn deduplicated(self) -> bool {
        forall|i: int, j: int|
            0 <= i < j < self.open.len() && self.file_of(self.open[i]) is Some ==> self.file_of(
                #[trigger] self.open[i],
            ) != self.file_of(#[trigger] self.open[j])
    }

    /// The tab in front is never left dangling: whatever is opened, closed,
    /// split or clicked, and in whatever order, it is `None` or an open tab.
    pub proof fn lemma_run_wf(self, operations: Seq<Operation>)
        requires
            self.wf(),
        ensures
            self.run(operations).wf(),
            self.run(operations).active_is_open(),
        decreases operations.len(),
    {
        if operations.len() > 0 {
            self.lemma_run_wf(operations.drop_last());
            let before = self.run(operations.drop_last());
            match operations.last() {
                Operation::OpenFile(file) => before.lemma_open_file_wf(file),
                Operation::CloseTab(tab) => before.lemma_close_tab_wf(tab),
                Operation::CloseAllTabs => before.lemma_close_all_tabs_wf(),
                Operation::SplitTab(tab) => before.lemma_split_tab_wf(tab),
                Operation::Activate(tab) => before.lemma_activate_wf(tab),
            }
        }
    }

    /// The panel starts out well formed and without two editors on one file.
    pub proof fn lemma_initial()
        ensures
            Session::initial().wf(),
            Session::initial().deduplicated(),
    {
        assert(Session::initial().open[0] == 0);
    }

    /// Closing everything empties the panel, whatever it held.
    pub proof fn lemma_close_all_tabs_empties(self)
        ensures
            self.close_all_tabs().open.len() == 0,
            self.close_all_tabs().active is None,
    {
    }

    /// Opening a file never gives it a second editor, and leaves it with one.
    pub proof fn lemma_open_file_deduplicated(self, file: usize)
        requires
            self.wf(),
            self.deduplicated(),
        ensures
            self.open_file(file).deduplicated(),
            self.open_file(file).editors_of(file).len() == 1,
    {
        self.lemma_editor_from(file, 0);
        let next = self.open_file(file);
        let fresh = self.activities.len();
        assert forall|i: int| 0 <= i < self.open.len() implies next.file_of(
            #[trigger] self.open[i],
        ) == self.file_of(self.open[i]) by {
            assert(self.open[i] < fresh);
        }
        assert forall|i: int, j: int|
            0 <= i < j < next.open.len() && next.file_of(next.open[i]) is Some implies next.file_of(
            #[trigger] next.open[i],
        ) != next.file_of(#[trigger] next.open[j]) by {
            assert(next.open[i] == self.open[i]);
            if j < self.open.len() {
                assert(next.open[j] == self.open[j]);
            } else {
                assert(self.editor_of(file) is None);
                assert(!self.edits(self.open[i], file));
            }
        }
        next.lemma_one_editor(file);
        let editing = |tab: nat| next.edits(tab, file);
        match self.editor_of(file) {
            Some(tab) => {
                let k = choose|k: int| 0 <= k < self.open.len() && self.open[k] == tab;
                assert(editing(next.open[k]));
                next.open.lemma_filter_contains(editing, k);
            },
            None => {
                let k = next.open.len() - 1;
                assert(editing(next.open[k]));
                next.open.lemma_filter_contains(editing, k);
            },
        }
    }

    /// Where no two open tabs edit the same file, a file has at most one
    /// editor among the open tabs.
    pub proof fn lemma_one_editor(self, file: usize)
        requires
            self.deduplicated(),
        ensures
            self.editors_of(file).len() <= 1,
    {
        let editing = |tab: nat| self.edits(tab, file);
        assert forall|i: int, j: int| 0 <= i < j < self.open.len() && editing(
            self.open[i],
        ) implies !editing(self.open[j]) by {
            assert(self.file_of(self.open[i]) != self.file_of(self.open[j]));
        }
        lemma_filter_at_most_one(self.open, editing);
    }

    /// Closing a tab gives no file a second editor.
    pub proof fn lemma_close_tab_deduplicated(self, tab: nat)
        requires
            self.deduplicated(),
        ensures
            self.close_tab(tab).deduplicated(),
    {
        let next = self.close_tab(tab);
        let apart = |first: nat, second: nat|
            self.file_of(first) is Some ==> self.file_of(first) != self.file_of(second);
        assert forall|a: int, b: int| 0 <= a < b < self.open.len() implies apart(
            self.open[a],
            self.open[b],
        ) by {
            if self.file_of(self.open[a]) is Some {
                assert(self.file_of(self.open[a]) != self.file_of(self.open[b]));
            }
        }
        lemma_filter_keeps_pairs(self.open, crate::observable::other_than(tab), apart);
        assert forall|i: int, j: int|
            0 <= i < j < next.open.len() && next.file_of(next.open[i]) is Some implies next.file_of(
            #[trigger] next.open[i],
        ) != next.file_of(#[trigger] next.open[j]) by {
            assert(apart(next.open[i], next.open[j]));
        }
    }

    /// However often files are opened, and whatever is closed or clicked in
    /// between, no file has more than one editor among the open tabs, so
    /// long as no tab is split.
    pub proof fn lemma_run_deduplicated(self, operations: Seq<Operation>, file: usize)
        requires
            self.wf(),
            self.deduplicated(),
            forall|i: int| 0 <= i < operations.len() ==> !(#[trigger] operations[i] is SplitTab),
        ensures
            self.run(operations).deduplicated(),
            self.run(operations).editors_of(file).len() <= 1,
        decreases operations.len(),
    {
        if operations.len() > 0 {
            let earlier = operations.drop_last();
            assert forall|i: int| 0 <= i < earlier.len() implies !(#[trigger] earlier[i] is SplitTab) by {
                assert(earlier[i] == operations[i]);
            }
            self.lemma_run_deduplicated(earlier, file);
            self.lemma_run_wf(earlier);
            let before = self.run(earlier);
            assert(operations.last() == operations[operations.len() - 1]);
            let after = before.apply(operations.last());
            match operations.last() {
                Operation::OpenFile(opened) => before.lemma_open_file_deduplicated(opened),
                Operation::CloseTab(tab) => before.lemma_close_tab_deduplicated(tab),
                Operation::CloseAllTabs => {},
                Operation::SplitTab(tab) => {},
                Operation::Activate(tab) => {
                    assert(after.open == before.open && after.activities == before.activities);
                },
            }
        }
        self.run(operations).lemma_one_editor(file);
    }

    /// Splitting an editor's tab gives a second tab, distinct from the
    /// first, on the same file. Both are open if the first was.
    pub proof fn lemma_split_tab_shares_file(self, tab: nat, file: usize)
        requires
            self.wf(),
            self.edits(tab, file),
        ensures
            ({
                let fresh = self.activities.len();
                let next = self.split_tab(tab);
                &&& fresh != tab
                &&& !self.open.contains(fresh)
                &&& next.open == self.open.push(fresh)
                &&& next.edits(tab, file)
                &&& next.edits(fresh, file)
                &&& next.activities[fresh as int] == next.activities[tab as int]
                &&& next.active == self.active
            }),
    {
        let fresh = self.activities.len();
        if self.open.contains(fresh) {
            let k = choose|k: int| 0 <= k < self.open.len() && self.open[k] == fresh;
            assert(self.open[k] < fresh);
        }
    }
}

/// What tab `tab` of a session shows of a tree.
pub open spec fn seen_through(session: Session, tree: Tree, tab: nat) -> Option<Seq<u8>> {
    if tab < session.activities.len() {
        session.activities[tab as int].shows(tree)
    } else {
        None
    }
}

/// The two tabs of a split editor show the same content, and what is
/// written through either is seen through both.
pub proof fn lemma_split_tab_shares_content(
    session: Session,
    tree: Tree,
    tab: nat,
    file: usize,
    data: Seq<u8>,
)
    requires
        session.wf(),
        session.edits(tab, file),
        tree.has_file(file),
    ensures
        ({
            let fresh = session.activities.len();
            let split = session.split_tab(tab);
            let written = tree.written(file, data);
            &&& fresh != tab
            &&& seen_through(split, tree, fresh) == seen_through(split, tree, tab)
            &&& seen_through(split, written, tab) == Some(data)
            &&& seen_through(split, written, fresh) == Some(data)
        }),
{
}

/// A sequence in which no two positions pass a test keeps at most one value
/// when it is filtered by that test.
pub proof fn lemma_filter_at_most_one<T>(values: Seq<T>, test: spec_fn(T) -> bool)
    requires
        forall|i: int, j: int| 0 <= i < j < values.len() && test(values[i]) ==> !test(values[j]),
    ensures
        values.filter(test).len() <= 1,
    decreases values.len(),
{
    reveal(Seq::filter);
    if values.len() > 0 {
        let rest = values.drop_last();
        assert forall|i: int, j: int| 0 <= i < j < rest.len() && test(rest[i]) implies !test(
            rest[j],
        ) by {
            assert(rest[i] == values[i] && rest[j] == values[j]);
        }
        lemma_filter_at_most_one(rest, test);
        if test(values.last()) {
            assert forall|i: int| 0 <= i < rest.len() implies !test(rest[i]) by {
                assert(rest[i] == values[i]);
                assert(values.last() == values[values.len() - 1]);
            }
            let kept = rest.filter(test);
            if kept.len() > 0 {
                rest.lemma_filter_pred(test, 0);
                assert(kept.contains(kept[0]));
                rest.lemma_filter_contains_rev(test, kept[0]);
                let k = choose|k: int| 0 <= k < rest.len() && rest[k] == kept[0];
                assert(!test(rest[k]));
            }
        }
    }
}

/// Filtering keeps the order: whatever holds of every two values of a
/// sequence, the earlier against the later, holds of every two values that
/// the filter keeps.
pub proof fn lemma_filter_keeps_pairs<T>(
    values: Seq<T>,
    test: spec_fn(T) -> bool,
    holds: spec_fn(T, T) -> bool,
)
    requires
        forall|a: int, b: int| 0 <= a < b < values.len() ==> holds(values[a], values[b]),
    ensures
        forall|i: int, j: int|
            0 <= i < j < values.filter(test).len() ==> holds(
                #[trigger] values.filter(test)[i],
                #[trigger] values.filter(test)[j],
            ),
    decreases values.len(),
{
    reveal(Seq::filter);
    let out = values.filter(test);
    if values.len() > 0 {
        let rest = values.drop_last();
        let kept = rest.filter(test);
        assert forall|a: int, b: int| 0 <= a < b < rest.len() implies holds(rest[a], rest[b]) by {
            assert(rest[a] == values[a] && rest[b] == values[b]);
        }
        lemma_filter_keeps_pairs(rest, test, holds);
        assert forall|i: int, j: int| 0 <= i < j < out.len() implies holds(
            #[trigger] out[i],
            #[trigger] out[j],
        ) by {
            if j < kept.len() {
                assert(out[i] == kept[i] && out[j] == kept[j]);
            } else {
                assert(out[i] == kept[i]);
                assert(kept.contains(kept[i]));
                rest.lemma_filter_contains_rev(test, kept[i]);
                let a = choose|a: int| 0 <= a < rest.len() && rest[a] == kept[i];
                assert(holds(values[a], values[values.len() - 1]));
            }
        }
    }
}

} // verus!
