//! The session manager: which tabs are open, in what order, and which one is
//! in front.
//!
//! A tab's identity is the position at which its activity was created, so two
//! sessions on one file are two tabs. The transitions are total: a tab that
//! is not there is closed, split or brought to the front without effect.

pub mod editor;
pub mod sequences;
pub mod simulator;
pub mod welcome;

use crate::contextmenu::{ContextMenuState, MenuState};
use crate::observable::{
    choice_cell, choice_get, choice_in, choice_set, ids_of, list_clear, list_from, list_push,
    list_remove, list_snapshot, other_than,
};
use crate::vfs::{Tree, Vfs};
use crate::workspace::activity_panel::editor::Editor;
use crate::workspace::activity_panel::welcome::Welcome;
use crate::WorkspaceCommand;
use futures_signals::signal::Mutable;
use futures_signals::signal_vec::MutableVec;
use vstd::prelude::*;
use vstd::string::StringExecFns;

verus! {

/// One open session, by kind.
#[derive(Clone, Copy, Debug, PartialEq, Eq)]
pub enum Activity {
    Editor(Editor),
    Welcome(Welcome),
}

impl Activity {
    /// The file that the session edits, if it edits one.
    pub open spec fn file(self) -> Option<usize> {
        match self {
            Activity::Editor(editor) => Some(editor.file),
            Activity::Welcome(_) => None,
        }
    }

    /// What the session shows of a tree: the content of its file for an
    /// editor, nothing of the tree for the welcome page.
    pub open spec fn shows(self, tree: Tree) -> Option<Seq<u8>> {
        match self {
            Activity::Editor(editor) => editor.shows(tree),
            Activity::Welcome(_) => None,
        }
    }

    /// The text on the session's tab. An editor on a file that the tree
    /// does not have has none.
    pub fn label(&self, vfs: &Vfs) -> (label: Option<String>)
        ensures
            match self {
                Activity::Editor(editor) => match label {
                    Some(text) => vfs@.has_file(editor.file) && text@
                        == vfs@.files[editor.file as int].name,
                    None => !vfs@.has_file(editor.file),
                },
                Activity::Welcome(_) => label is Some && label->0@ == "Welcome"@,
            },
    {
        match self {
            Activity::Editor(editor) => editor.label(vfs),
            Activity::Welcome(welcome) => Some(String::from_str(welcome.label())),
        }
    }

    /// Whether this is an editing session on `file`.
    pub fn edits(&self, file: usize) -> (yes: bool)
        ensures
            yes == (self.file() == Some(file)),
    {
        match self {
            Activity::Editor(editor) => editor.file == file,
            Activity::Welcome(_) => false,
        }
    }

    /// Whether the tab offers a close button. The welcome page does not.
    pub fn closable(&self) -> (yes: bool)
        ensures
            yes == (self is Editor),
    {
        match self {
            Activity::Editor(_) => true,
            Activity::Welcome(_) => false,
        }
    }

    /// A second session of the same kind: on the same file for an editor, a
    /// fresh page for the welcome page.
    pub fn duplicate(&self) -> (copy: Activity)
        ensures
            copy == *self,
    {
        match self {
            Activity::Editor(editor) => Activity::Editor(Editor::new(editor.file)),
            Activity::Welcome(_) => Activity::Welcome(Welcome::new()),
        }
    }
}

/// What the context menu of a tab offers.
#[derive(Clone, Copy, Debug, PartialEq, Eq)]
pub enum MenuAction {
    CloseTab,
    CloseAllTabs,
    SplitTab,
}

/// The session manager's state, as mathematics.
pub struct Session {
    /// Every activity created so far. A tab is an index into this sequence.
    pub activities: Seq<Activity>,
    /// The open tabs, in display order.
    pub open: Seq<nat>,
    /// The tab in front, if any.
    pub active: Option<nat>,
    /// The context menu shared by the tabs.
    pub menu: MenuState,
}

impl Session {
    /// One welcome page, open and in front.
    pub open spec fn initial() -> Session {
        Session {
            activities: seq![Activity::Welcome(Welcome {})],
            open: seq![0nat],
            active: Some(0nat),
            menu: MenuState::initial(),
        }
    }

    /// The tab in front, if there is one, is among the open tabs.
    pub open spec fn active_is_open(self) -> bool {
        match self.active {
            Some(tab) => self.open.contains(tab),
            None => true,
        }
    }

    /// No tab is open twice, every open tab was created, and the tab in
    /// front is open.
    pub open spec fn wf(self) -> bool {
        &&& self.open.no_duplicates()
        &&& forall|i: int| 0 <= i < self.open.len() ==> #[trigger] self.open[i] < self.activities.len()
        &&& self.active_is_open()
    }

    /// The file that `tab` edits, if the tab was created and is an editor.
    pub open spec fn file_of(self, tab: nat) -> Option<usize> {
        if tab < self.activities.len() {
            self.activities[tab as int].file()
        } else {
            None
        }
    }

    /// Whether `tab` is an editing session on `file`.
    pub open spec fn edits(self, tab: nat, file: usize) -> bool {
        self.file_of(tab) == Some(file)
    }

    /// The first open tab at or after position `from` that edits `file`.
    pub open spec fn editor_from(self, file: usize, from: int) -> Option<nat>
        decreases self.open.len() - from,
    {
        if from < 0 || from >= self.open.len() {
            None
        } else if self.edits(self.open[from], file) {
            Some(self.open[from])
        } else {
            self.editor_from(file, from + 1)
        }
    }

    /// The first open tab, in display order, that edits `file`.
    pub open spec fn editor_of(self, file: usize) -> Option<nat> {
        self.editor_from(file, 0)
    }

    /// A file is opened: the tab that already edits it comes to the front, or
    /// a new editor is appended and comes to the front.
    pub open spec fn open_file(self, file: usize) -> Session {
        match self.editor_of(file) {
            Some(tab) => Session { active: Some(tab), ..self },
            None => Session {
                activities: self.activities.push(Activity::Editor(Editor { file })),
                open: self.open.push(self.activities.len()),
                active: Some(self.activities.len()),
                ..self
            },
        }
    }

    /// The tab in front once `tab` has left `open`: the first that remains
    /// if `tab` was in front, the same as before otherwise.
    pub open spec fn active_after_close(self, tab: nat) -> Option<nat> {
        let remaining = self.open.filter(other_than(tab));
        if self.active == Some(tab) {
            if remaining.len() > 0 {
                Some(remaining[0])
            } else {
                None
            }
        } else {
            self.active
        }
    }

    /// A tab is closed. The others keep their order, and the menu goes.
    pub open spec fn close_tab(self, tab: nat) -> Session {
        Session {
            open: self.open.filter(other_than(tab)),
            active: self.active_after_close(tab),
            menu: self.menu.dismissed(),
            ..self
        }
    }

    /// Every tab is closed, and the menu goes.
    pub open spec fn close_all_tabs(self) -> Session {
        Session { open: Seq::empty(), active: None, menu: self.menu.dismissed(), ..self }
    }

    /// A tab is split: a second session of its kind is appended. The tab in
    /// front stays in front.
    pub open spec fn split_tab(self, tab: nat) -> Session {
        if tab < self.activities.len() {
            Session {
                activities: self.activities.push(self.activities[tab as int]),
                open: self.open.push(self.activities.len()),
                ..self
            }
        } else {
            self
        }
    }

    /// A tab is clicked: it comes to the front, if it is open.
    pub open spec fn activate(self, tab: nat) -> Session {
        if self.open.contains(tab) {
            Session { active: Some(tab), ..self }
        } else {
            self
        }
    }

    /// A secondary click at `(x, y)` shows the menu there.
    pub open spec fn open_context_menu(self, x: i32, y: i32) -> Session {
        Session { menu: self.menu.opened_at(x, y), ..self }
    }

    /// An entry of the menu is chosen for `tab`: the transition happens and
    /// the menu goes.
    pub open spec fn select(self, action: MenuAction, tab: nat) -> Session {
        let next = match action {
            MenuAction::CloseTab => self.close_tab(tab),
            MenuAction::CloseAllTabs => self.close_all_tabs(),
            MenuAction::SplitTab => self.split_tab(tab),
        };
        Session { menu: next.menu.dismissed(), ..next }
    }
}


/// Taking one value out of a sequence without repeats leaves a sequence
/// without repeats, which holds exactly the other values.
pub proof fn lemma_filter_other_than(ids: Seq<nat>, gone: nat)
    requires
        ids.no_duplicates(),
    ensures
        ids.filter(other_than(gone)).no_duplicates(),
        !ids.filter(other_than(gone)).contains(gone),
        forall|id: nat| id != gone && ids.contains(id) ==> #[trigger] ids.filter(other_than(gone)).contains(id),
        forall|id: nat| #[trigger] ids.filter(other_than(gone)).contains(id) ==> ids.contains(id),
        !ids.contains(gone) ==> ids.filter(other_than(gone)) == ids,
    decreases ids.len(),
{
    reveal(Seq::filter);
    let pred = other_than(gone);
    if ids.len() > 0 {
        let rest = ids.drop_last();
        let last = ids.last();
        let kept = rest.filter(pred);
        let out = ids.filter(pred);
        lemma_filter_other_than(rest, gone);
        assert(pred(last) == (last != gone));
        assert(out == if last != gone {
            kept.push(last)
        } else {
            kept
        });
        assert(!rest.contains(last)) by {
            if rest.contains(last) {
                let k = choose|k: int| 0 <= k < rest.len() && rest[k] == last;
                assert(ids[k] == ids[ids.len() - 1]);
            }
        }
        assert(!kept.contains(last));
        assert forall|id: nat| id != gone && ids.contains(id) implies #[trigger] out.contains(
            id,
        ) by {
            let k = choose|k: int| 0 <= k < ids.len() && ids[k] == id;
            if k < rest.len() {
                assert(rest[k] == id);
                assert(rest.contains(id));
                assert(kept.contains(id));
                let j = choose|j: int| 0 <= j < kept.len() && kept[j] == id;
                assert(out[j] == id);
            } else {
                assert(out[out.len() - 1] == id);
            }
        }
        assert forall|id: nat| #[trigger] out.contains(id) implies ids.contains(id) by {
            let j = choose|j: int| 0 <= j < out.len() && out[j] == id;
            if j < kept.len() {
                assert(kept[j] == id);
                assert(kept.contains(id));
                assert(rest.contains(id));
                let k = choose|k: int| 0 <= k < rest.len() && rest[k] == id;
                assert(ids[k] == id);
            } else {
                assert(ids[ids.len() - 1] == id);
            }
        }
        assert(!out.contains(gone)) by {
            if out.contains(gone) {
                let j = choose|j: int| 0 <= j < out.len() && out[j] == gone;
                if j < kept.len() {
                    assert(kept[j] == gone);
                    assert(kept.contains(gone));
                }
            }
        }
        assert(out.no_duplicates()) by {
            assert forall|i: int, j: int| 0 <= i < out.len() && 0 <= j < out.len() && i
                != j implies out[i] != out[j] by {
                if i < kept.len() && j < kept.len() {
                    assert(kept[i] != kept[j]);
                } else if i < kept.len() {
                    assert(kept.contains(kept[i]));
                } else if j < kept.len() {
                    assert(kept.contains(kept[j]));
                }
            }
        }
        if !ids.contains(gone) {
            assert(!rest.contains(gone)) by {
                if rest.contains(gone) {
                    let k = choose|k: int| 0 <= k < rest.len() && rest[k] == gone;
                    assert(ids[k] == gone);
                }
            }
            assert(last != gone) by {
                assert(ids[ids.len() - 1] == last);
            }
            assert(out =~= ids);
        }
    }
}

impl Session {
    /// What `editor_from` finds is the first match, and it finds none only
    /// where there is none.
    pub proof fn lemma_editor_from(self, file: usize, from: int)
        requires
            0 <= from <= self.open.len(),
        ensures
            match self.editor_from(file, from) {
                Some(tab) => exists|k: int|
                    {
                        &&& from <= k < self.open.len()
                        &&& #[trigger] self.open[k] == tab
                        &&& self.edits(tab, file)
                        &&& forall|j: int| from <= j < k ==> !self.edits(#[trigger] self.open[j], file)
                    },
                None => forall|j: int|
                    from <= j < self.open.len() ==> !self.edits(#[trigger] self.open[j], file),
            },
        decreases self.open.len() - from,
    {
        if from < self.open.len() && !self.edits(self.open[from], file) {
            self.lemma_editor_from(file, from + 1);
            match self.editor_from(file, from + 1) {
                Some(tab) => {
                    let k = choose|k: int|
                        {
                            &&& from + 1 <= k < self.open.len()
                            &&& #[trigger] self.open[k] == tab
                            &&& self.edits(tab, file)
                            &&& forall|j: int|
                                from + 1 <= j < k ==> !self.edits(#[trigger] self.open[j], file)
                        };
                    assert(self.open[k] == tab);
                },
                None => {},
            }
        } else if from < self.open.len() {
            assert(self.open[from] == self.open[from]);
        }
    }

    /// Opening a file keeps the state well formed.
    pub proof fn lemma_open_file_wf(self, file: usize)
        requires
            self.wf(),
        ensures
            self.open_file(file).wf(),
    {
        self.lemma_editor_from(file, 0);
        let next = self.open_file(file);
        match self.editor_of(file) {
            Some(tab) => {},
            None => {
                let fresh = self.activities.len();
                assert(next.open.last() == fresh);
                assert(next.open.contains(fresh));
                assert forall|i: int, j: int|
                    0 <= i < next.open.len() && 0 <= j < next.open.len() && i != j implies next.open[i]
                    != next.open[j] by {
                    if i < self.open.len() {
                        assert(self.open[i] < fresh);
                    }
                    if j < self.open.len() {
                        assert(self.open[j] < fresh);
                    }
                }
                assert forall|i: int| 0 <= i < next.open.len() implies #[trigger] next.open[i]
                    < next.activities.len() by {
                    if i < self.open.len() {
                        assert(self.open[i] < fresh);
                    }
                }
            },
        }
    }

    /// Closing a tab keeps the state well formed.
    pub proof fn lemma_close_tab_wf(self, tab: nat)
        requires
            self.wf(),
        ensures
            self.close_tab(tab).wf(),
    {
        lemma_filter_other_than(self.open, tab);
        let next = self.close_tab(tab);
        assert forall|i: int| 0 <= i < next.open.len() implies #[trigger] next.open[i]
            < next.activities.len() by {
            assert(next.open.contains(next.open[i]));
            let k = choose|k: int| 0 <= k < self.open.len() && self.open[k] == next.open[i];
            assert(self.open[k] < self.activities.len());
        }
        if self.active == Some(tab) {
            if next.open.len() > 0 {
                assert(next.open.contains(next.open[0]));
            }
        }
    }

    /// Closing every tab keeps the state well formed.
    pub proof fn lemma_close_all_tabs_wf(self)
        ensures
            self.close_all_tabs().wf(),
    {
    }

    /// Splitting a tab keeps the state well formed.
    pub proof fn lemma_split_tab_wf(self, tab: nat)
        requires
            self.wf(),
        ensures
            self.split_tab(tab).wf(),
    {
        let next = self.split_tab(tab);
        if tab < self.activities.len() {
            let fresh = self.activities.len();
            assert forall|i: int, j: int|
                0 <= i < next.open.len() && 0 <= j < next.open.len() && i != j implies next.open[i]
                != next.open[j] by {
                if i < self.open.len() {
                    assert(self.open[i] < fresh);
                }
                if j < self.open.len() {
                    assert(self.open[j] < fresh);
                }
            }
            assert forall|i: int| 0 <= i < next.open.len() implies #[trigger] next.open[i]
                < next.activities.len() by {
                if i < self.open.len() {
                    assert(self.open[i] < fresh);
                }
            }
            match self.active {
                Some(front) => {
                    let k = choose|k: int| 0 <= k < self.open.len() && self.open[k] == front;
                    assert(next.open[k] == front);
                },
                None => {},
            }
        }
    }

    /// Bringing a tab to the front keeps the state well formed.
    pub proof fn lemma_activate_wf(self, tab: nat)
        requires
            self.wf(),
        ensures
            self.activate(tab).wf(),
    {
    }

    /// Choosing a menu entry keeps the state well formed.
    pub proof fn lemma_select_wf(self, action: MenuAction, tab: nat)
        requires
            self.wf(),
        ensures
            self.select(action, tab).wf(),
    {
        self.lemma_close_tab_wf(tab);
        self.lemma_split_tab_wf(tab);
    }
}


/// The tabs that a list of identifiers names.
pub open spec fn as_tabs(ids: Seq<usize>) -> Seq<nat> {
    ids.map_values(|id: usize| id as nat)
}

/// The tab that an identifier names, if there is one.
pub open spec fn as_tab(id: Option<usize>) -> Option<nat> {
    match id {
        Some(id) => Some(id as nat),
        None => None,
    }
}

proof fn lemma_as_tabs_filter(ids: Seq<usize>, gone: usize)
    ensures
        as_tabs(ids.filter(other_than(gone))) == as_tabs(ids).filter(other_than(gone as nat)),
    decreases ids.len(),
{
    reveal(Seq::filter);
    if ids.len() > 0 {
        let rest = ids.drop_last();
        lemma_as_tabs_filter(rest, gone);
        assert(as_tabs(ids).drop_last() =~= as_tabs(rest));
        assert(other_than(gone)(ids.last()) == other_than(gone as nat)(as_tabs(ids).last()));
        assert(as_tabs(rest.filter(other_than(gone)).push(ids.last())) =~= as_tabs(
            rest.filter(other_than(gone)),
        ).push(ids.last() as nat));
    } else {
        assert(as_tabs(ids.filter(other_than(gone))) =~= as_tabs(ids).filter(
            other_than(gone as nat),
        ));
    }
}

/// The session manager.
pub struct ActivityPanel {
    registry: Vec<Activity>,
    activities: MutableVec<usize>,
    active_activity: Mutable<Option<usize>>,
    context_menu_state: ContextMenuState,
}

impl View for ActivityPanel {
    type V = Session;

    closed spec fn view(&self) -> Session {
        Session {
            activities: self.registry@,
            open: as_tabs(ids_of(self.activities)),
            active: as_tab(choice_in(self.active_activity)),
            menu: self.context_menu_state@,
        }
    }
}

impl Default for ActivityPanel {
    /// A panel that shows the welcome page.
    fn default() -> (panel: ActivityPanel)
        ensures
            panel@ == Session::initial(),
            panel@.wf(),
    {
        let mut registry: Vec<Activity> = Vec::new();
        registry.push(Activity::Welcome(Welcome::new()));
        let mut open: Vec<usize> = Vec::new();
        open.push(0);
        let panel = ActivityPanel {
            registry,
            activities: list_from(open),
            active_activity: choice_cell(Some(0)),
            context_menu_state: ContextMenuState::new(),
        };
        proof {
            assert(panel@.activities =~= Session::initial().activities);
            assert(panel@.open =~= Session::initial().open);
            assert(panel@.open[0] == 0);
        }
        panel
    }
}

impl ActivityPanel {
    /// The open tabs, in display order.
    pub fn tabs(&self) -> (tabs: Vec<usize>)
        ensures
            as_tabs(tabs@) == self@.open,
    {
        list_snapshot(&self.activities)
    }

    /// The activity behind a tab, for every tab that was ever created.
    pub fn activity(&self, tab: usize) -> (activity: Option<Activity>)
        ensures
            activity == if tab < self@.activities.len() {
                Some(self@.activities[tab as int])
            } else {
                None
            },
    {
        if tab < self.registry.len() {
            Some(self.registry[tab])
        } else {
            None
        }
    }

    /// The tab in front, if any.
    pub fn active_activity(&self) -> (tab: Option<usize>)
        ensures
            as_tab(tab) == self@.active,
    {
        choice_get(&self.active_activity)
    }

    /// Whether `tab` is the tab in front.
    pub fn is_active(&self, tab: usize) -> (yes: bool)
        ensures
            yes == (self@.active == Some(tab as nat)),
    {
        match choice_get(&self.active_activity) {
            Some(front) => front == tab,
            None => false,
        }
    }

    /// Whether no tab is open, so that a placeholder is shown in place of
    /// the tab strip.
    pub fn is_empty(&self) -> (yes: bool)
        ensures
            yes == (self@.open.len() == 0),
    {
        list_snapshot(&self.activities).len() == 0
    }

    /// Whether `tab` is open.
    pub fn is_open(&self, tab: usize) -> (yes: bool)
        ensures
            yes == self@.open.contains(tab as nat),
    {
        let open = list_snapshot(&self.activities);
        let mut i: usize = 0;
        while i < open.len()
            invariant
                i <= open.len(),
                as_tabs(open@) == self@.open,
                forall|j: int| 0 <= j < i ==> open@[j] != tab,
            decreases open.len() - i,
        {
            if open[i] == tab {
                proof {
                    assert(as_tabs(open@)[i as int] == tab as nat);
                }
                return true;
            }
            i += 1;
        }
        proof {
            if as_tabs(open@).contains(tab as nat) {
                let k = choose|k: int| 0 <= k < open@.len() && as_tabs(open@)[k] == tab as nat;
                assert(open@[k] == tab);
            }
        }
        false
    }

    /// The context menu that the tabs share.
    pub fn context_menu(&self) -> (menu: &ContextMenuState)
        ensures
            menu@ == self@.menu,
    {
        &self.context_menu_state
    }

    /// The observable list of open tabs, for a view to subscribe to.
    pub fn tab_list(&self) -> (list: &MutableVec<usize>)
        ensures
            as_tabs(ids_of(*list)) == self@.open,
    {
        &self.activities
    }

    /// The observable cell of the tab in front, for a view to subscribe to.
    pub fn active_cell(&self) -> (cell: &Mutable<Option<usize>>)
        ensures
            as_tab(choice_in(*cell)) == self@.active,
    {
        &self.active_activity
    }

    /// Opens a file: the tab that already edits it comes to the front; if
    /// there is none, a new editor is appended and comes to the front.
    pub fn open_file(&mut self, file: usize)
        requires
            old(self)@.wf(),
        ensures
            final(self)@ == old(self)@.open_file(file),
            final(self)@.wf(),
    {
        let ghost before = self@;
        let open = list_snapshot(&self.activities);
        let mut found: Option<usize> = None;
        let mut i: usize = 0;
        while i < open.len() && found.is_none()
            invariant
                i <= open.len(),
                before.wf(),
                before.open == as_tabs(open@),
                before.activities == self.registry@,
                match found {
                    Some(tab) => 0 < i && tab == open@[i - 1] && before.edits(tab as nat, file),
                    None => true,
                },
                forall|j: int|
                    0 <= j < i - (if found is Some { 1int } else { 0int }) ==> !before.edits(
                        #[trigger] before.open[j],
                        file,
                    ),
            decreases open.len() - i,
        {
            let tab = open[i];
            proof {
                assert(before.open[i as int] == tab as nat);
            }
            if self.registry[tab].edits(file) {
                found = Some(tab);
            }
            i += 1;
        }
        proof {
            before.lemma_editor_from(file, 0);
            before.lemma_open_file_wf(file);
            match found {
                Some(tab) => {
                    assert(before.open[i - 1] == tab as nat);
                },
                None => {},
            }
        }
        match found {
            Some(tab) => {
                choice_set(&mut self.active_activity, Some(tab));
            },
            None => {
                let fresh = self.registry.len();
                self.registry.push(Activity::Editor(Editor::new(file)));
                list_push(&mut self.activities, fresh);
                choice_set(&mut self.active_activity, Some(fresh));
                proof {
                    assert(self@.open =~= before.open.push(fresh as nat));
                }
            },
        }
    }

    /// Carries out a request from another part of the shell.
    pub fn handle_command(&mut self, command: WorkspaceCommand)
        requires
            old(self)@.wf(),
        ensures
            final(self)@ == match command {
                WorkspaceCommand::OpenFile(file) => old(self)@.open_file(file),
            },
            final(self)@.wf(),
    {
        match command {
            WorkspaceCommand::OpenFile(file) => self.open_file(file),
        }
    }

    /// Closes a tab. If it was in front, the first tab that remains comes to
    /// the front. The context menu goes.
    pub fn close_tab(&mut self, tab: usize)
        requires
            old(self)@.wf(),
        ensures
            final(self)@ == old(self)@.close_tab(tab as nat),
            final(self)@.wf(),
    {
        let ghost before = self@;
        let ghost ids = ids_of(self.activities);
        let front = choice_get(&self.active_activity);
        list_remove(&mut self.activities, tab);
        proof {
            lemma_as_tabs_filter(ids, tab);
            before.lemma_close_tab_wf(tab as nat);
        }
        let was_front = match front {
            Some(front) => front == tab,
            None => false,
        };
        if was_front {
            let remaining = list_snapshot(&self.activities);
            let next = if remaining.len() > 0 {
                Some(remaining[0])
            } else {
                None
            };
            choice_set(&mut self.active_activity, next);
        }
        self.context_menu_state.dismiss();
    }

    /// Closes every tab. The context menu goes.
    pub fn close_all_tabs(&mut self)
        ensures
            final(self)@ == old(self)@.close_all_tabs(),
            final(self)@.wf(),
    {
        list_clear(&mut self.activities);
        choice_set(&mut self.active_activity, None);
        self.context_menu_state.dismiss();
        proof {
            assert(self@.open =~= Seq::<nat>::empty());
        }
    }

    /// Splits a tab: a second session of its kind is appended. The tab in
    /// front stays in front.
    pub fn split_tab(&mut self, tab: usize)
        requires
            old(self)@.wf(),
        ensures
            final(self)@ == old(self)@.split_tab(tab as nat),
            final(self)@.wf(),
    {
        let ghost before = self@;
        proof {
            before.lemma_split_tab_wf(tab as nat);
        }
        if tab < self.registry.len() {
            let fresh = self.registry.len();
            let copy = self.registry[tab].duplicate();
            self.registry.push(copy);
            list_push(&mut self.activities, fresh);
            proof {
                assert(self@.open =~= before.open.push(fresh as nat));
            }
        }
    }

    /// Brings a tab to the front, if it is open.
    pub fn activate(&mut self, tab: usize)
        requires
            old(self)@.wf(),
        ensures
            final(self)@ == old(self)@.activate(tab as nat),
            final(self)@.wf(),
    {
        if self.is_open(tab) {
            choice_set(&mut self.active_activity, Some(tab));
        }
    }

    /// Shows the context menu at the pointer's position.
    pub fn open_context_menu(&mut self, x: i32, y: i32)
        ensures
            final(self)@ == old(self)@.open_context_menu(x, y),
    {
        self.context_menu_state.open_at(x, y);
    }

    /// Carries out the menu entry chosen for `tab`, and takes the menu away.
    pub fn select_menu_action(&mut self, action: MenuAction, tab: usize)
        requires
            old(self)@.wf(),
        ensures
            final(self)@ == old(self)@.select(action, tab as nat),
            final(self)@.wf(),
    {
        proof {
            old(self)@.lemma_select_wf(action, tab as nat);
        }
        match action {
            MenuAction::CloseTab => self.close_tab(tab),
            MenuAction::CloseAllTabs => self.close_all_tabs(),
            MenuAction::SplitTab => self.split_tab(tab),
        }
        self.context_menu_state.dismiss();
    }
}

} // verus!
