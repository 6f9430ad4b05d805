//! The launcher's state machine: key presses edit the query, move the
//! selection or the cursor, confirm an entry or close the launcher; every
//! edit re-resolves the query and rebuilds the list.

use vstd::prelude::*;
use crate::entry_box::{
    Action,
    Entrybox,
    EntryView,
    action_of,
    entries_match,
    folded_lanes,
    lemma_ordered_entries_same_lanes,
    order_results,
    ordered_entries,
    lane_entries,
    results_in_index,
    value_view,
};
use crate::input_box::InputBox;
use crate::results::{AppDescriptor, SprintResults, lemma_resolution_deterministic};
use crate::sprint_config::SprintConfig;

verus! {

/// A key press, as the launcher tells keys apart.
#[derive(Clone, Copy, Debug, PartialEq, Eq, Structural)]
pub enum Key {
    Escape,
    Return,
    BackSpace,
    Down,
    Up,
    Right,
    Left,
    Home,
    End,
    /// A key that types this character.
    Char(char),
    /// Any other key.
    Other,
}

/// The selection after the list changed to `len` entries: kept where it
/// still points into the list, else on the last entry (0 for an empty list).
pub open spec fn clamp_selection(selected: nat, len: nat) -> nat {
    if len == 0 {
        0
    } else if selected < len {
        selected
    } else {
        (len - 1) as nat
    }
}

/// The launcher: configuration, query, resolved lanes, the list and its
/// selection.
#[derive(Debug)]
pub struct Launcher {
    pub config: SprintConfig,
    pub filter: String,
    pub filter_results: SprintResults,
    pub selected: usize,
    pub filter_input: InputBox,
    pub filter_results_cache: Vec<Entrybox>,
    /// Set once the launcher is to exit.
    pub close: bool,
}

impl Launcher {
    /// The list holds what the current query resolves to.
    pub open spec fn fresh(&self) -> bool {
        &&& self.filter_results.resolves(self.filter@, self.config)
        &&& results_in_index(self.filter_results)
        &&& entries_match(
            self.filter_results_cache@,
            ordered_entries(self.filter_results, folded_lanes(self.config.result_order@)),
            self.filter_results.apps(),
        )
    }

    /// The selection points into the list, or is 0 on an empty list.
    pub open spec fn selection_valid(&self) -> bool {
        if self.filter_results_cache@.len() == 0 {
            self.selected == 0
        } else {
            self.selected < self.filter_results_cache@.len()
        }
    }

    pub open spec fn wf(&self) -> bool {
        &&& self.filter_input.wf()
        &&& self.filter@ == self.filter_input.text_view()
        &&& self.fresh()
        &&& self.selection_valid()
    }

    /// The launcher at start: empty query, its list built, first entry
    /// selected.
    pub fn new(config: SprintConfig, apps: Vec<AppDescriptor>, current_desktop: Option<Vec<String>>) -> (l: Self)
        ensures
            l.wf(),
            l.filter@.len() == 0,
            l.filter_input.cursor() == 0,
            l.selected == 0,
            !l.close,
            l.config == config,
            l.filter_results.apps() == apps@,
            l.filter_results.current() == current_desktop,
    {
        let mut l = Self {
            config,
            filter: String::new(),
            filter_results: SprintResults::new(apps, current_desktop),
            selected: 0,
            filter_input: InputBox::new("", "Search..."),
            filter_results_cache: Vec::new(),
            close: false,
        };
        proof {
            reveal_strlit("");
        }
        assert(l.filter@ =~= l.filter_input.text_view());
        l.recreate_results_cache();
        l
    }

    /// Re-resolves the query, rebuilds the list and clamps the selection.
    pub fn recreate_results_cache(&mut self)
        requires
            old(self).filter_input.wf(),
            old(self).filter@ == old(self).filter_input.text_view(),
        ensures
            final(self).wf(),
            final(self).filter == old(self).filter,
            final(self).filter_input == old(self).filter_input,
            final(self).config == old(self).config,
            final(self).close == old(self).close,
            final(self).filter_results.apps() == old(self).filter_results.apps(),
            final(self).filter_results.current() == old(self).filter_results.current(),
            final(self).selected == clamp_selection(
                old(self).selected as nat,
                final(self).filter_results_cache@.len(),
            ),
    {
        self.filter_results.refresh_results(self.filter.as_str(), &self.config);
        self.filter_results_cache = order_results(&self.filter_results, &self.config.result_order);
        let len = self.filter_results_cache.len();
        if len == 0 {
            self.selected = 0;
        } else if self.selected >= len {
            self.selected = len - 1;
        }
    }

    /// Handles one key press and returns what the system is to do.
    pub fn key_press_handle(&mut self, key: Key) -> (a: Action)
        requires
            old(self).wf(),
        ensures
            final(self).wf(),
            final(self).config == old(self).config,
            final(self).filter_results.apps() == old(self).filter_results.apps(),
            final(self).filter_results.current() == old(self).filter_results.current(),
            key != Key::Escape && key != Key::Return ==> final(self).close == old(self).close,
            key != Key::Return ==> a is Nothing,
            match key {
                Key::Escape => final(self).close && final(self).filter == old(self).filter
                    && final(self).selected == old(self).selected && final(self).filter_input == old(
                    self,
                ).filter_input,
                Key::Return => if old(self).filter_results_cache@.len() == 0 {
                    a is Nothing && final(self).close == old(self).close
                } else {
                    final(self).close && action_of(
                        value_view(old(self).filter_results_cache@[old(self).selected as int].value),
                        old(self).filter_results.apps(),
                        a,
                    )
                },
                Key::BackSpace => final(self).filter_input.cursor() == (if old(self).filter_input.cursor()
                    > 0 {
                    old(self).filter_input.cursor() - 1
                } else {
                    0
                }) && final(self).filter@ == (if old(self).filter_input.cursor() > 0 {
                    old(self).filter@.remove(old(self).filter_input.cursor() - 1)
                } else {
                    old(self).filter@
                }) && (if old(self).filter_input.cursor() > 0 {
                    final(self).selected == clamp_selection(
                        old(self).selected as nat,
                        final(self).filter_results_cache@.len(),
                    )
                } else {
                    final(self).selected == old(self).selected && final(self).filter_input == old(
                        self,
                    ).filter_input
                }),
                Key::Down => final(self).filter == old(self).filter && final(self).selected == (
                if old(self).selected + 1 < old(self).filter_results_cache@.len() {
                    old(self).selected + 1
                } else {
                    old(self).selected as int
                }) && final(self).filter_input == old(self).filter_input,
                Key::Up => final(self).filter == old(self).filter && final(self).selected == (
                if old(self).selected > 0 {
                    old(self).selected - 1
                } else {
                    0
                }) && final(self).filter_input == old(self).filter_input,
                Key::Right => final(self).filter == old(self).filter && final(self).filter_input.cursor()
                    == (if old(self).filter_input.cursor() < old(self).filter@.len() {
                    old(self).filter_input.cursor() + 1
                } else {
                    old(self).filter_input.cursor()
                }) && final(self).selected == old(self).selected,
                Key::Left => final(self).filter == old(self).filter && final(self).filter_input.cursor()
                    == (if old(self).filter_input.cursor() > 0 {
                    old(self).filter_input.cursor() - 1
                } else {
                    0
                }) && final(self).selected == old(self).selected,
                Key::Home => final(self).filter == old(self).filter && final(self).filter_input.cursor()
                    == 0 && final(self).selected == old(self).selected,
                Key::End => final(self).filter == old(self).filter && final(self).filter_input.cursor()
                    == old(self).filter@.len() && final(self).selected == old(self).selected,
                Key::Char(c) => final(self).filter@ == old(self).filter@.insert(
                    old(self).filter_input.cursor() as int,
                    c,
                ) && final(self).filter_input.cursor() == old(self).filter_input.cursor() + 1
                    && final(self).selected == clamp_selection(
                    old(self).selected as nat,
                    final(self).filter_results_cache@.len(),
                ),
                Key::Other => final(self).filter == old(self).filter && final(self).selected
                    == old(self).selected && final(self).filter_input == old(self).filter_input,
            },
    {
        match key {
            Key::Escape => {
                self.close = true;
                Action::Nothing
            },
            Key::Return => self.select(),
            Key::BackSpace => {
                if let Some(new_filter) = self.filter_input.pop_at_cursor() {
                    self.filter = new_filter;
                    self.recreate_results_cache();
                }
                Action::Nothing
            },
            Key::Down => {
                let len = self.filter_results_cache.len();
                if len > 0 && self.selected < len - 1 {
                    self.selected = self.selected + 1;
                }
                Action::Nothing
            },
            Key::Up => {
                if self.selected > 0 {
                    self.selected = self.selected - 1;
                }
                Action::Nothing
            },
            Key::Right => {
                self.filter_input.advance_cursor();
                Action::Nothing
            },
            Key::Left => {
                self.filter_input.reel_cursor();
                Action::Nothing
            },
            Key::Home => {
                self.filter_input.set_cursor_to_home();
                Action::Nothing
            },
            Key::End => {
                self.filter_input.set_cursor_to_end();
                Action::Nothing
            },
            Key::Char(c) => {
                self.filter = self.filter_input.push_at_cursor(c);
                self.recreate_results_cache();
                Action::Nothing
            },
            Key::Other => Action::Nothing,
        }
    }

    /// Confirms the selected entry: its action, and the launcher closes; on
    /// an empty list nothing happens.
    fn select(&mut self) -> (a: Action)
        requires
            old(self).wf(),
        ensures
            final(self).wf(),
            final(self).filter == old(self).filter,
            final(self).filter_input == old(self).filter_input,
            final(self).selected == old(self).selected,
            final(self).config == old(self).config,
            final(self).filter_results.apps() == old(self).filter_results.apps(),
            final(self).filter_results.current() == old(self).filter_results.current(),
            old(self).filter_results_cache@.len() == 0 ==> a is Nothing && final(self).close
                == old(self).close,
            old(self).filter_results_cache@.len() > 0 ==> final(self).close && action_of(
                value_view(old(self).filter_results_cache@[old(self).selected as int].value),
                old(self).filter_results.apps(),
                a,
            ),
    {
        if self.filter_results_cache.len() == 0 {
            return Action::Nothing;
        }
        let ghost k = self.selected as int;
        assert(value_view(self.filter_results_cache@[k].value) == ordered_entries(
            self.filter_results,
            folded_lanes(self.config.result_order@),
        )[k]);
        proof {
            lemma_ordered_in_index(self.filter_results, folded_lanes(self.config.result_order@));
        }
        let a = self.filter_results_cache[self.selected].select(&self.filter_results.desktop_file_cache);
        self.close = true;
        a
    }
}

/// Re-resolving an unchanged query gives the same list: two launchers whose
/// lists are up to date for the same query, configuration and application
/// index show the same entries, row by row.
pub proof fn lemma_list_deterministic(a: Launcher, b: Launcher)
    requires
        a.fresh(),
        b.fresh(),
        a.filter@ == b.filter@,
        a.config == b.config,
        a.filter_results.apps() == b.filter_results.apps(),
        a.filter_results.current() == b.filter_results.current(),
    ensures
        a.filter_results_cache@.len() == b.filter_results_cache@.len(),
        forall|k: int|
            0 <= k < a.filter_results_cache@.len() ==> value_view(
                #[trigger] a.filter_results_cache@[k].value,
            ) == value_view(b.filter_results_cache@[k].value) && a.filter_results_cache@[k].slot
                == b.filter_results_cache@[k].slot && a.filter_results_cache@[k].label@
                == b.filter_results_cache@[k].label@,
{
    lemma_resolution_deterministic(a.filter_results, b.filter_results, a.filter@, a.config);
    lemma_ordered_entries_same_lanes(
        a.filter_results,
        b.filter_results,
        folded_lanes(a.config.result_order@),
    );
}

/// The clamped selection lies in `[0, len - 1]`, and is 0 on an empty list.
pub proof fn lemma_clamp_selection_in_range(selected: nat, len: nat)
    ensures
        len == 0 ==> clamp_selection(selected, len) == 0,
        len > 0 ==> clamp_selection(selected, len) < len,
{
}

/// Every application entry of the list points into the index.
proof fn lemma_ordered_in_index(rs: SprintResults, order: Seq<Seq<char>>)
    requires
        results_in_index(rs),
    ensures
        forall|k: int|
            0 <= k < ordered_entries(rs, order).len() ==> (#[trigger] ordered_entries(rs, order)[k] matches EntryView::Desktop(
                i,
            ) ==> i < rs.apps().len()),
    decreases order.len(),
{
    if order.len() > 0 {
        lemma_ordered_in_index(rs, order.drop_last());
        let a = ordered_entries(rs, order.drop_last());
        let b = lane_entries(rs, order.last());
        assert forall|k: int|
            0 <= k < (a + b).len() implies (#[trigger] (a + b)[k] matches EntryView::Desktop(i) ==> i
                < rs.apps().len()) by {
            if k >= a.len() {
                if (a + b)[k] matches EntryView::Desktop(i) {
                    assert(b[k - a.len()] == (a + b)[k]);
                }
            }
        }
    }
}

} // verus!
