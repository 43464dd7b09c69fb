//! The cron table controller: it owns the job list, the selection
//! cursor with wrap-around navigation, the scroll offset kept in
//! lock-step with the selection, and the modal job editor, and it asks
//! the caller to persist after every structural change.

use vstd::prelude::*;

use crate::config::Config;
use crate::editor::EditMode;
use crate::editor::Inputs;
use crate::event::Key;
use crate::event::KeyPress;
use crate::event::ScreenRequest;
use crate::job::CronJob;

verus! {

/// Terminal rows one table entry occupies, for the scrollbar position.
pub const ITEM_HEIGHT: usize = 4;

/// The scroll offset that keeps the scrollbar in lock-step with the
/// selection, saturating at the platform limit.
pub open spec fn scroll_target(sel: Option<usize>) -> int {
    match sel {
        None => 0,
        Some(i) => if ITEM_HEIGHT * i <= usize::MAX {
            ITEM_HEIGHT * i
        } else {
            usize::MAX as int
        },
    }
}

/// The editor form holds exactly the given job's three persisted
/// fields, typed into fresh buffers, with focus on the schedule field.
pub open spec fn form_filled_from(form: Inputs, j: CronJob) -> bool {
    &&& form.current_input is CronNotation
    &&& form.cron_notation.state() == crate::editor::type_text(
        (seq![Seq::<char>::empty()], 0int, 0int),
        j.cron_notation@,
    )
    &&& form.job.state() == crate::editor::type_text(
        (seq![Seq::<char>::empty()], 0int, 0int),
        j.job@,
    )
    &&& form.job_description.state() == crate::editor::type_text(
        (seq![Seq::<char>::empty()], 0int, 0int),
        j.job_description@,
    )
}

/// The keys the table acts on outside the modal.
pub open spec fn table_idle_acts(k: Key) -> bool {
    ||| k is Esc
    ||| k is Down
    ||| k is Up
    ||| k is Home
    ||| k is End
    ||| k is Enter
    ||| (k matches Key::Char(c) && (c == 'j' || c == 'k' || c == 'g' || c == 'G' || c == 'n' || c
        == 'd'))
}

pub struct CronTable {
    items: Vec<CronJob>,
    selected: Option<usize>,
    scroll: usize,
    mode: EditMode,
    inputs: Inputs,
}

impl CronTable {
    pub closed spec fn jobs_view(&self) -> Seq<CronJob> {
        self.items@
    }

    pub closed spec fn sel(&self) -> Option<usize> {
        self.selected
    }

    pub closed spec fn scroll_pos(&self) -> int {
        self.scroll as int
    }

    pub closed spec fn emode(&self) -> EditMode {
        self.mode
    }

    pub closed spec fn form(&self) -> Inputs {
        self.inputs
    }

    /// The selection points into the list, is cleared exactly when the
    /// list is empty, the scroll offset tracks it, a modal edit has a
    /// subject, and the editor's mirrors match its buffers.
    pub closed spec fn wf(&self) -> bool {
        &&& match self.selected {
            Some(i) => i < self.items@.len(),
            None => self.items@.len() == 0,
        }
        &&& self.scroll as int == scroll_target(self.selected)
        &&& self.mode is Editing ==> self.selected is Some
        &&& self.inputs.wf()
    }

    /// Restores the lock-step scroll offset after a selection change.
    fn fix_scroll(&mut self)
        ensures
            final(self).items == old(self).items,
            final(self).selected == old(self).selected,
            final(self).mode == old(self).mode,
            final(self).inputs == old(self).inputs,
            final(self).scroll as int == scroll_target(final(self).selected),
    {
        match self.selected {
            Some(i) => {
                if i <= usize::MAX / ITEM_HEIGHT {
                    self.scroll = i * ITEM_HEIGHT;
                } else {
                    self.scroll = usize::MAX;
                }
            },
            None => {
                self.scroll = 0;
            },
        }
    }

    /// Builds the table from one load of the scheduler: the loaded jobs,
    /// or a single row carrying the load error, with the first row
    /// selected when there is one.
    pub fn from_load(load: Result<Vec<CronJob>, String>) -> (r: CronTable)
        ensures
            r.wf(),
            r.emode() is Idle,
            load is Ok ==> r.jobs_view() == load->Ok_0@,
            load is Err ==> r.jobs_view().len() == 1 && r.jobs_view()[0].cron_notation@ == "Error: "@
                + load->Err_0@ && r.jobs_view()[0].job@ == Seq::<char>::empty() && r.jobs_view()[0].job_description@
                == Seq::<char>::empty() && r.jobs_view()[0].next_execution@ == Seq::<char>::empty(),
            r.jobs_view().len() > 0 ==> r.sel() == Some(0usize),
            r.jobs_view().len() == 0 ==> r.sel() is None,
    {
        let items: Vec<CronJob> = match load {
            Ok(v) => v,
            Err(e) => {
                let mut msg = String::from_str("Error: ");
                msg.append(e.as_str());
                let mut v: Vec<CronJob> = Vec::new();
                v.push(
                    CronJob {
                        cron_notation: msg,
                        job: String::new(),
                        job_description: String::new(),
                        next_execution: String::new(),
                    },
                );
                v
            },
        };
        let selected: Option<usize> = if items.len() > 0 {
            Some(0)
        } else {
            None
        };
        let mut r = CronTable { items, selected, scroll: 0, mode: EditMode::Idle, inputs: Inputs::new() };
        r.fix_scroll();
        r
    }

    pub fn jobs(&self) -> (r: &Vec<CronJob>)
        ensures
            r@ == self.jobs_view(),
    {
        &self.items
    }

    pub fn selected_index(&self) -> (r: Option<usize>)
        ensures
            r == self.sel(),
    {
        self.selected
    }

    pub fn scroll_position(&self) -> (r: usize)
        ensures
            r as int == self.scroll_pos(),
    {
        self.scroll
    }

    pub fn mode(&self) -> (r: EditMode)
        ensures
            r == self.emode(),
    {
        self.mode
    }

    /// The modal form, for rendering.
    pub fn form_ref(&self) -> (r: &Inputs)
        ensures
            *r == self.form(),
    {
        &self.inputs
    }

    /// Selects the next row, wrapping from the last row to the first.
    /// With nothing selected the first row is selected; an empty table
    /// is left untouched.
    pub fn next_row(&mut self)
        requires
            old(self).wf(),
        ensures
            final(self).wf(),
            final(self).jobs_view() == old(self).jobs_view(),
            final(self).emode() == old(self).emode(),
            final(self).form() == old(self).form(),
            old(self).jobs_view().len() == 0 ==> final(self).sel() is None,
            old(self).jobs_view().len() > 0 ==> final(self).sel() == Some(
                (match old(self).sel() {
                    None => 0,
                    Some(i) => if i + 1 >= old(self).jobs_view().len() {
                        0
                    } else {
                        i + 1
                    },
                }) as usize,
            ),
    {
        let n = self.items.len();
        if n == 0 {
            return;
        }
        let i: usize = match self.selected {
            Some(i) => if i >= n - 1 {
                0
            } else {
                i + 1
            },
            None => 0,
        };
        self.selected = Some(i);
        self.fix_scroll();
    }

    /// Selects the previous row, wrapping from the first row to the
    /// last. With nothing selected the first row is selected; an empty
    /// table is left untouched.
    pub fn previous_row(&mut self)
        requires
            old(self).wf(),
        ensures
            final(self).wf(),
            final(self).jobs_view() == old(self).jobs_view(),
            final(self).emode() == old(self).emode(),
            final(self).form() == old(self).form(),
            old(self).jobs_view().len() == 0 ==> final(self).sel() is None,
            old(self).jobs_view().len() > 0 ==> final(self).sel() == Some(
                (match old(self).sel() {
                    None => 0,
                    Some(i) => if i == 0 {
                        old(self).jobs_view().len() - 1
                    } else {
                        i - 1
                    },
                }) as usize,
            ),
    {
        let n = self.items.len();
        if n == 0 {
            return;
        }
        let i: usize = match self.selected {
            Some(i) => if i == 0 {
                n - 1
            } else {
                i - 1
            },
            None => 0,
        };
        self.selected = Some(i);
        self.fix_scroll();
    }

    /// Selects the first row; an empty table is left untouched.
    pub fn first_row(&mut self)
        requires
            old(self).wf(),
        ensures
            final(self).wf(),
            final(self).jobs_view() == old(self).jobs_view(),
            final(self).emode() == old(self).emode(),
            final(self).form() == old(self).form(),
            old(self).jobs_view().len() == 0 ==> final(self).sel() is None,
            old(self).jobs_view().len() > 0 ==> final(self).sel() == Some(0usize),
    {
        if self.items.len() > 0 {
            self.selected = Some(0);
            self.fix_scroll();
        }
    }

    /// Selects the last row; an empty table is left untouched.
    pub fn last_row(&mut self)
        requires
            old(self).wf(),
        ensures
            final(self).wf(),
            final(self).jobs_view() == old(self).jobs_view(),
            final(self).emode() == old(self).emode(),
            final(self).form() == old(self).form(),
            old(self).jobs_view().len() == 0 ==> final(self).sel() is None,
            old(self).jobs_view().len() > 0 ==> final(self).sel() == Some(
                (old(self).jobs_view().len() - 1) as usize,
            ),
    {
        let n = self.items.len();
        if n > 0 {
            self.selected = Some(n - 1);
            self.fix_scroll();
        }
    }

    /// Removes the selected row. Deleting the only remaining row leaves
    /// the table empty with the selection cleared; otherwise the
    /// selection stays at the same position, clamped to the new last
    /// row. Returns whether a row was removed, so the caller persists.
    pub fn delete_selected(&mut self) -> (deleted: bool)
        requires
            old(self).wf(),
            old(self).emode() is Idle,
        ensures
            final(self).wf(),
            final(self).emode() == old(self).emode(),
            final(self).form() == old(self).form(),
            old(self).sel() is None ==> final(self).jobs_view() == old(self).jobs_view() && final(self).sel() is None && !deleted,
            old(self).sel() matches Some(i) ==> deleted && final(self).jobs_view() == old(self).jobs_view().remove(i as int) && final(self).sel() == (if old(self).jobs_view().len()
                == 1 {
                Option::<usize>::None
            } else if i as int + 1 == old(self).jobs_view().len() {
                Some((i - 1) as usize)
            } else {
                Some(i)
            }),
    {
        match self.selected {
            Some(i) => {
                self.items.remove(i);
                let n = self.items.len();
                if n == 0 {
                    self.selected = None;
                } else if i >= n {
                    self.selected = Some(n - 1);
                } else {
                    self.selected = Some(i);
                }
                self.fix_scroll();
                true
            },
            None => false,
        }
    }

    /// Opens the editor empty, for creating a new job.
    pub fn open_new(&mut self)
        requires
            old(self).wf(),
            old(self).emode() is Idle,
        ensures
            final(self).wf(),
            final(self).jobs_view() == old(self).jobs_view(),
            final(self).sel() == old(self).sel(),
            final(self).emode() is Creating,
            final(self).form().cleared(),
            final(self).form().current_input is CronNotation,
    {
        self.mode = EditMode::Creating;
        self.inputs.init_empty();
    }

    /// Opens the editor pre-filled with the selected job, for editing
    /// it; with an empty table nothing happens.
    pub fn open_selected(&mut self)
        requires
            old(self).wf(),
            old(self).emode() is Idle,
        ensures
            final(self).wf(),
            final(self).jobs_view() == old(self).jobs_view(),
            final(self).sel() == old(self).sel(),
            old(self).sel() is None ==> *final(self) == *old(self),
            old(self).sel() matches Some(i) ==> final(self).emode() is Editing && form_filled_from(
                final(self).form(),
                old(self).jobs_view()[i as int],
            ),
    {
        if self.items.len() > 0 {
            match self.selected {
                Some(_) => {
                    self.mode = EditMode::Editing;
                    self.inputs.init(&self.items, &self.selected);
                },
                None => {
                    proof {
                        assert(false);
                    }
                },
            }
        }
    }

    /// Routes one key press. While the editor is open every key goes to
    /// it; otherwise Esc asks for the main menu, the navigation keys
    /// move the selection, `n` opens a new job, `d` deletes the
    /// selected row, and Enter edits the selected row. The second
    /// result asks the caller to persist the job list. The whole
    /// routing behavior is `table_step`.
    pub fn handle_key(&mut self, key: KeyPress, config: &Config) -> (r: (
        Option<ScreenRequest>,
        bool,
    ))
        requires
            old(self).wf(),
        ensures
            final(self).wf(),
            table_step(*old(self), key, *final(self), r.0, r.1),
    {
        match self.mode {
            EditMode::Idle => {
                match key.code {
                    Key::Esc => (Some(ScreenRequest::MainMenu), false),
                    Key::Down => {
                        self.next_row();
                        (None, false)
                    },
                    Key::Up => {
                        self.previous_row();
                        (None, false)
                    },
                    Key::Home => {
                        self.first_row();
                        (None, false)
                    },
                    Key::End => {
                        self.last_row();
                        (None, false)
                    },
                    Key::Enter => {
                        self.open_selected();
                        (None, false)
                    },
                    Key::Char(c) => {
                        if c == 'j' {
                            self.next_row();
                            (None, false)
                        } else if c == 'k' {
                            self.previous_row();
                            (None, false)
                        } else if c == 'g' {
                            self.first_row();
                            (None, false)
                        } else if c == 'G' {
                            self.last_row();
                            (None, false)
                        } else if c == 'n' {
                            self.open_new();
                            (None, false)
                        } else if c == 'd' {
                            let deleted = self.delete_selected();
                            (None, deleted)
                        } else {
                            (None, false)
                        }
                    },
                    _ => (None, false),
                }
            },
            _ => {
                let persist = self.inputs.handle_inputs(
                    key,
                    &mut self.mode,
                    &mut self.items,
                    &mut self.selected,
                    config,
                );
                self.fix_scroll();
                (None, persist)
            },
        }
    }
}

/// One key press on the cron table: the relation between the table
/// before, the table after, the transition asked for, and the persist
/// request.
pub open spec fn table_step(
    pre: CronTable,
    key: KeyPress,
    post: CronTable,
    req: Option<ScreenRequest>,
    persist: bool,
) -> bool {
    &&& (pre.emode() is Idle && key.code is Esc ==> post == pre && req == Some(
        ScreenRequest::MainMenu,
    ) && !persist)
    &&& (pre.emode() is Idle && !(key.code is Esc) ==> req is None)
    &&& (!(pre.emode() is Idle) ==> req is None)
    &&& (pre.emode() is Idle && !table_idle_acts(key.code) ==> post == pre && !persist)
    &&& (!(pre.emode() is Idle) && !(key.code is Enter) ==> post.jobs_view() == pre.jobs_view()
        && post.sel() == pre.sel() && !persist)
    &&& (!(pre.emode() is Idle) && key.code is Esc ==> post.emode() is Idle
        && post.form().cleared() && post.form().current_input is CronNotation)
    &&& (!(pre.emode() is Idle) && key.code is Tab ==> post.emode() == pre.emode()
        && post.form().current_input == crate::editor::next_of(pre.form().current_input))
    &&& (!(pre.emode() is Idle) && key.code is Enter && !crate::schedule::valid_schedule(
        pre.form().cron_notation_value@,
    ) ==> post.jobs_view() == pre.jobs_view() && post.sel() == pre.sel() && post.emode()
        == pre.emode() && !persist)
    &&& (pre.emode() is Creating && key.code is Enter && crate::schedule::valid_schedule(
        pre.form().cron_notation_value@,
    ) ==> post.jobs_view().len() == pre.jobs_view().len() + 1 && post.jobs_view().take(
        pre.jobs_view().len() as int,
    ) == pre.jobs_view() && crate::job::entry_of(post.jobs_view().last()) == (
        pre.form().cron_notation_value@,
        pre.form().job_value@,
        pre.form().job_description_value@,
    ) && post.sel() == Some(pre.jobs_view().len() as usize) && post.emode() is Idle && persist)
    &&& (pre.emode() is Editing && key.code is Enter && crate::schedule::valid_schedule(
        pre.form().cron_notation_value@,
    ) ==> post.jobs_view().len() == pre.jobs_view().len() && (forall|k: int|
        0 <= k < pre.jobs_view().len() && k != pre.sel()->0 ==> post.jobs_view()[k]
            == pre.jobs_view()[k]) && crate::job::entry_of(
        post.jobs_view()[pre.sel()->0 as int],
    ) == (
        pre.form().cron_notation_value@,
        pre.form().job_value@,
        pre.form().job_description_value@,
    ) && post.sel() == pre.sel() && post.emode() is Idle && persist)
    &&& (pre.emode() is Idle && (key.code is Down || (key.code matches Key::Char(c) && c == 'j'))
        ==> post.jobs_view() == pre.jobs_view() && (pre.jobs_view().len() > 0 ==> post.sel()
        == Some(
        (match pre.sel() {
            None => 0,
            Some(i) => if i + 1 >= pre.jobs_view().len() {
                0
            } else {
                i + 1
            },
        }) as usize,
    )) && !persist)
    &&& (pre.emode() is Idle && (key.code is Up || (key.code matches Key::Char(c) && c == 'k'))
        ==> post.jobs_view() == pre.jobs_view() && (pre.jobs_view().len() > 0 ==> post.sel()
        == Some(
        (match pre.sel() {
            None => 0,
            Some(i) => if i == 0 {
                pre.jobs_view().len() - 1
            } else {
                i - 1
            },
        }) as usize,
    )) && !persist)
    &&& (pre.emode() is Idle && (key.code is Home || (key.code matches Key::Char(c) && c == 'g'))
        ==> post.jobs_view() == pre.jobs_view() && (pre.jobs_view().len() > 0 ==> post.sel()
        == Some(0usize)) && !persist)
    &&& (pre.emode() is Idle && (key.code is End || (key.code matches Key::Char(c) && c == 'G'))
        ==> post.jobs_view() == pre.jobs_view() && (pre.jobs_view().len() > 0 ==> post.sel()
        == Some((pre.jobs_view().len() - 1) as usize)) && !persist)
    &&& (pre.emode() is Idle && (key.code matches Key::Char(c) && c == 'd') ==> (match pre.sel() {
        Some(i) => post.jobs_view() == pre.jobs_view().remove(i as int) && persist,
        None => post.jobs_view() == pre.jobs_view() && !persist,
    }))
    &&& (pre.emode() is Idle && (key.code matches Key::Char(c) && c == 'n') ==> post.jobs_view()
        == pre.jobs_view() && post.sel() == pre.sel() && post.emode() is Creating
        && post.form().cleared() && post.form().current_input is CronNotation && !persist)
    &&& (pre.emode() is Idle && key.code is Enter ==> post.jobs_view() == pre.jobs_view()
        && post.sel() == pre.sel() && !persist && (pre.sel() is None ==> post == pre) && (
    pre.sel() matches Some(i) ==> post.emode() is Editing && form_filled_from(
        post.form(),
        pre.jobs_view()[i as int],
    )))
}

} // verus!

