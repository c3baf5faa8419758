//! A submenu: either a table of toggles or a slider, and the input that
//! one or the other takes.

use crate::grid::Grid;
use crate::settings::{find_setting, lookup, settings_view};
use crate::slider::Slider;
use crate::table::StatefulTable;
use crate::toggle::Toggle;
use crate::{Input, InputControl};
use vstd::prelude::*;

verus! {

/// What a submenu holds, and so what its input acts on.
#[derive(Debug, Eq, PartialEq, Clone, Copy, Structural)]
pub enum SubMenuType {
    /// Toggles of which at most one is set.
    ToggleSingle,
    /// Toggles that are set one by one.
    ToggleMultiple,
    /// A slider.
    Slider,
    /// Nothing that takes input.
    Empty,
}

/// A titled entry of a tab. Its `id` is the key under which its value is
/// stored; its type decides whether the toggles or the slider are in use.
#[derive(Debug, Eq, PartialEq, Clone)]
pub struct SubMenu<'a> {
    pub title: &'a str,
    pub id: &'a str,
    pub help_text: &'a str,
    pub submenu_type: SubMenuType,
    pub toggles: StatefulTable<Toggle<'a>>,
    pub slider: Slider,
}

/// What a submenu is, mathematically.
pub struct SubMenuView<'a> {
    pub title: Seq<char>,
    pub id: Seq<char>,
    pub help_text: Seq<char>,
    pub submenu_type: SubMenuType,
    pub toggles: Grid<Toggle<'a>>,
    pub slider: Slider,
}

/// The value of a submenu as it is stored: the values of its toggles in
/// row-major order, or the range and the bounds of its slider.
#[derive(Debug, Eq, PartialEq, Clone)]
pub enum SubMenuValue {
    /// The value of each toggle, in row-major order.
    Toggles(Vec<u8>),
    /// The range that is selected and the bounds within which it can move.
    Slider { selected_min: u32, selected_max: u32, abs_min: u32, abs_max: u32 },
}

/// What a stored value is, mathematically.
pub enum SubMenuValueView {
    /// The value of each toggle, in row-major order.
    Toggles(Seq<u8>),
    /// The range that is selected and the bounds within which it can move.
    Slider { selected_min: u32, selected_max: u32, abs_min: u32, abs_max: u32 },
}

impl View for SubMenuValue {
    type V = SubMenuValueView;

    open spec fn view(&self) -> SubMenuValueView {
        match *self {
            SubMenuValue::Toggles(values) => SubMenuValueView::Toggles(values@),
            SubMenuValue::Slider { selected_min, selected_max, abs_min, abs_max } => SubMenuValueView::Slider {
                selected_min,
                selected_max,
                abs_min,
                abs_max,
            },
        }
    }
}

/// Whether at most one of `toggles` has a value other than 0.
pub open spec fn at_most_one_set(toggles: Seq<Toggle<'_>>) -> bool {
    forall|i: int, j: int|
        0 <= i < toggles.len() && 0 <= j < toggles.len() && (#[trigger] toggles[i]).value != 0 && (
        #[trigger] toggles[j]).value != 0 ==> i == j
}

impl<'a> SubMenuView<'a> {
    /// Whether the submenu holds toggles.
    pub open spec fn is_toggle(self) -> bool {
        self.submenu_type == SubMenuType::ToggleSingle || self.submenu_type == SubMenuType::ToggleMultiple
    }

    /// The table of toggles is well formed and, where the toggles are in
    /// use, its cursor is on a toggle.
    pub open spec fn ready(self) -> bool {
        &&& self.toggles.wf()
        &&& self.is_toggle() ==> self.toggles.selected() is Some
    }

    /// Whether what `input` looks up is there: the confirm button looks up
    /// the toggle under the cursor, where the toggles are in use.
    pub open spec fn takes(self, input: Input) -> bool {
        input == Input::A && self.is_toggle() ==> self.toggles.selected() is Some
    }

    /// A submenu that is ready has whatever any input looks up.
    pub proof fn lemma_ready_takes(self, input: Input)
        requires
            self.ready(),
        ensures
            self.takes(input),
    {
    }

    /// The toggles after a confirm that allows one set toggle only: all of
    /// them cleared, and then the one under the cursor counted one step
    /// further.
    pub open spec fn single_confirmed(self) -> Grid<Toggle<'a>> {
        let cleared = self.toggles.map_items(|t: Toggle<'a>| t.cleared());
        match cleared.selected() {
            Some(t) => cleared.with_selected(t.incremented()),
            None => cleared,
        }
    }

    /// The toggles after a confirm that leaves the other toggles alone: the
    /// one under the cursor counted one step further.
    pub open spec fn multiple_confirmed(self) -> Grid<Toggle<'a>> {
        match self.toggles.selected() {
            Some(t) => self.toggles.with_selected(t.incremented()),
            None => self.toggles,
        }
    }

    /// The submenu after the confirm button.
    pub open spec fn on_a(self) -> SubMenuView<'a> {
        match self.submenu_type {
            SubMenuType::ToggleSingle => SubMenuView { toggles: self.single_confirmed(), ..self },
            SubMenuType::ToggleMultiple => SubMenuView { toggles: self.multiple_confirmed(), ..self },
            SubMenuType::Slider => SubMenuView { slider: self.slider.select_toggled(), ..self },
            SubMenuType::Empty => self,
        }
    }

    /// The submenu after the cancel button: a selected slider handle is
    /// released.
    pub open spec fn on_b(self) -> SubMenuView<'a> {
        match self.submenu_type {
            SubMenuType::Slider => SubMenuView { slider: self.slider.deselected(), ..self },
            _ => self,
        }
    }

    /// The submenu after the direction up.
    pub open spec fn on_up(self) -> SubMenuView<'a> {
        if self.is_toggle() {
            SubMenuView { toggles: self.toggles.prev_row_checked(), ..self }
        } else {
            self
        }
    }

    /// The submenu after the direction down.
    pub open spec fn on_down(self) -> SubMenuView<'a> {
        if self.is_toggle() {
            SubMenuView { toggles: self.toggles.next_row_checked(), ..self }
        } else {
            self
        }
    }

    /// The submenu after the direction left: the toggle cursor moves; a
    /// selected slider handle moves one step down; with no handle selected,
    /// the other handle is hovered.
    pub open spec fn on_left(self) -> SubMenuView<'a> {
        match self.submenu_type {
            SubMenuType::ToggleSingle | SubMenuType::ToggleMultiple => SubMenuView {
                toggles: self.toggles.prev_col_checked(),
                ..self
            },
            SubMenuType::Slider => SubMenuView {
                slider: if self.slider.handle_selected {
                    self.slider.decremented()
                } else {
                    self.slider.hover_switched()
                },
                ..self
            },
            SubMenuType::Empty => self,
        }
    }

    /// The submenu after the direction right: the toggle cursor moves; a
    /// selected slider handle moves one step up; with no handle selected,
    /// the other handle is hovered.
    pub open spec fn on_right(self) -> SubMenuView<'a> {
        match self.submenu_type {
            SubMenuType::ToggleSingle | SubMenuType::ToggleMultiple => SubMenuView {
                toggles: self.toggles.next_col_checked(),
                ..self
            },
            SubMenuType::Slider => SubMenuView {
                slider: if self.slider.handle_selected {
                    self.slider.incremented()
                } else {
                    self.slider.hover_switched()
                },
                ..self
            },
            SubMenuType::Empty => self,
        }
    }

    /// The value under which the submenu is stored. A submenu that holds
    /// nothing has none.
    pub open spec fn value(self) -> SubMenuValueView
        recommends
            self.submenu_type != SubMenuType::Empty,
    {
        if self.submenu_type == SubMenuType::Slider {
            SubMenuValueView::Slider {
                selected_min: self.slider.selected_min,
                selected_max: self.slider.selected_max,
                abs_min: self.slider.abs_min,
                abs_max: self.slider.abs_max,
            }
        } else {
            SubMenuValueView::Toggles(self.toggles.items.map_values(|t: Toggle<'a>| t.value))
        }
    }

    /// The submenu with stored values taken over. Toggle `i` takes
    /// `values[i]` where there is such a value and the toggle can have it;
    /// a submenu without toggles stays as it is.
    pub open spec fn updated(self, values: Seq<u8>) -> SubMenuView<'a> {
        if self.is_toggle() {
            SubMenuView {
                toggles: Grid {
                    items: Seq::new(
                        self.toggles.items.len(),
                        |i: int|
                            if i < values.len() {
                                self.toggles.items[i].assigned(values[i])
                            } else {
                                self.toggles.items[i]
                            },
                    ),
                    ..self.toggles
                },
                ..self
            }
        } else {
            self
        }
    }

    /// The submenu with the values taken over that `settings` hold for its
    /// id; the submenu as it is where they hold none.
    pub open spec fn applied(self, settings: Seq<(Seq<char>, Seq<u8>)>) -> SubMenuView<'a> {
        match find_setting(settings, self.id) {
            Some(values) => self.updated(values),
            None => self,
        }
    }

    /// The submenu after `n` presses of the confirm button.
    pub open spec fn confirmed(self, n: nat) -> SubMenuView<'a>
        decreases n,
    {
        if n == 0 {
            self
        } else {
            self.confirmed((n - 1) as nat).on_a()
        }
    }

    /// After a confirm that allows one set toggle only, at most one toggle
    /// is set, whatever was set before.
    pub proof fn lemma_single_confirm_exclusive(self)
        requires
            self.toggles.wf(),
        ensures
            at_most_one_set(self.single_confirmed().items),
    {
    }

    /// No input but the confirm button changes a toggle: what is set stays
    /// set, and what is not stays so.
    pub proof fn lemma_only_confirm_sets_toggles(self)
        ensures
            self.on_b().toggles.items == self.toggles.items,
            self.on_up().toggles.items == self.toggles.items,
            self.on_down().toggles.items == self.toggles.items,
            self.on_left().toggles.items == self.toggles.items,
            self.on_right().toggles.items == self.toggles.items,
    {
    }

    /// A submenu that is ready is ready again after the confirm button,
    /// and keeps its type.
    pub proof fn lemma_confirm_keeps_ready(self)
        requires
            self.ready(),
        ensures
            self.on_a().ready(),
            self.on_a().submenu_type == self.submenu_type,
    {
    }

    /// However often the confirm button is pressed on a submenu that allows
    /// one set toggle only, and whatever was set before: from the first
    /// press on, at most one toggle is set.
    pub proof fn lemma_confirms_exclusive(self, n: nat)
        requires
            self.ready(),
            self.submenu_type == SubMenuType::ToggleSingle,
            0 < n,
        ensures
            at_most_one_set(self.confirmed(n).toggles.items),
    {
        let before = self.confirmed((n - 1) as nat);
        self.lemma_confirms_keep_ready((n - 1) as nat);
        before.lemma_single_confirm_exclusive();
    }

    /// A submenu that is ready is ready again after any number of presses
    /// of the confirm button, and keeps its type.
    pub proof fn lemma_confirms_keep_ready(self, n: nat)
        requires
            self.ready(),
        ensures
            self.confirmed(n).ready(),
            self.confirmed(n).submenu_type == self.submenu_type,
        decreases n,
    {
        if n > 0 {
            self.lemma_confirms_keep_ready((n - 1) as nat);
            self.confirmed((n - 1) as nat).lemma_confirm_keeps_ready();
        }
    }
}

impl<'a> View for SubMenu<'a> {
    type V = SubMenuView<'a>;

    open spec fn view(&self) -> SubMenuView<'a> {
        SubMenuView {
            title: self.title@,
            id: self.id@,
            help_text: self.help_text@,
            submenu_type: self.submenu_type,
            toggles: self.toggles@,
            slider: self.slider,
        }
    }
}

impl<'a> SubMenu<'a> {
    /// The table of toggles is well formed.
    pub open spec fn wf(&self) -> bool {
        self.toggles.wf()
    }

    /// Whether the table of toggles is well formed, found out by looking at it.
    pub fn is_wf(&self) -> (ok: bool)
        ensures
            ok == self.wf(),
    {
        self.toggles.is_wf()
    }

    /// The submenu can take every input, now and after any input: the table
    /// of toggles is well formed and, where the toggles are in use, its
    /// cursor is on a toggle.
    pub open spec fn ready(&self) -> bool {
        &&& self.wf()
        &&& self@.ready()
    }

    /// Whether the submenu can take `input`, found out by looking at it.
    pub fn can_take(&self, input: Input) -> (ok: bool)
        ensures
            ok == self.takes(input),
    {
        if !self.toggles.is_wf() {
            return false;
        }
        match input {
            Input::A => match self.submenu_type {
                SubMenuType::ToggleSingle | SubMenuType::ToggleMultiple => self.toggles.get_selected().is_some(),
                SubMenuType::Slider => true,
                SubMenuType::Empty => true,
            },
            _ => true,
        }
    }

    /// Whether the submenu can take every input, found out by looking at it.
    pub fn is_ready(&self) -> (ok: bool)
        ensures
            ok == self.ready(),
    {
        if !self.toggles.is_wf() {
            return false;
        }
        match self.submenu_type {
            SubMenuType::ToggleSingle | SubMenuType::ToggleMultiple => self.toggles.get_selected().is_some(),
            SubMenuType::Slider => true,
            SubMenuType::Empty => true,
        }
    }

    /// Takes over stored values: toggle `i` takes `values[i]`, unless that
    /// is beyond what the toggle can have. Values without a toggle are left
    /// out, and so is every value where the submenu holds no toggles.
    pub fn update_from_vec(&mut self, values: &Vec<u8>)
        requires
            old(self).wf(),
        ensures
            final(self).wf(),
            final(self)@ == old(self)@.updated(values@),
            old(self).ready() ==> final(self).ready(),
    {
        match self.submenu_type {
            SubMenuType::ToggleSingle | SubMenuType::ToggleMultiple => {
                let n: usize = self.toggles.len();
                let mut i: usize = 0;
                while i < values.len() && i < n
                    invariant
                        n == old(self)@.toggles.items.len(),
                        self.toggles.wf(),
                        self@ == (SubMenuView { toggles: self@.toggles, ..old(self)@ }),
                        self@.toggles == (Grid { items: self@.toggles.items, ..old(self)@.toggles }),
                        self@.toggles.items.len() == n,
                        forall|j: int|
                            0 <= j < n ==> #[trigger] self@.toggles.items[j] == if j < i && j < values@.len() {
                                old(self)@.toggles.items[j].assigned(values@[j])
                            } else {
                                old(self)@.toggles.items[j]
                            },
                    decreases values.len() - i,
                {
                    match self.toggles.get_by_idx_mut(i) {
                        Some(toggle) => toggle.assign(values[i]),
                        None => {},
                    }
                    i += 1;
                }
                proof {
                    assert(self@.toggles.items =~= old(self)@.updated(values@).toggles.items);
                }
            },
            SubMenuType::Slider => {},
            SubMenuType::Empty => {},
        }
    }

    /// Takes over the values that `settings` hold for the id of this
    /// submenu, if they hold any.
    pub fn update(&mut self, settings: &Vec<(String, Vec<u8>)>)
        requires
            old(self).wf(),
        ensures
            final(self).wf(),
            final(self)@ == old(self)@.applied(settings_view(settings@)),
            old(self).ready() ==> final(self).ready(),
    {
        match lookup(settings, self.id) {
            Some(values) => self.update_from_vec(values),
            None => {},
        }
    }

    /// The toggle under the cursor, to be changed in place.
    fn selected_toggle(&mut self) -> (toggle: &mut Toggle<'a>)
        requires
            old(self).toggles.wf(),
            old(self)@.toggles.selected() is Some,
        ensures
            final(self).toggles.wf(),
            old(self)@.toggles.selected() == Some(*toggle),
            final(self)@ == (SubMenuView {
                toggles: old(self)@.toggles.with_selected(*final(toggle)),
                ..old(self)@
            }),
    {
        self.toggles.get_selected_mut().unwrap()
    }

    /// Clears every toggle.
    fn reset_toggles(&mut self)
        requires
            old(self).toggles.wf(),
        ensures
            final(self).toggles.wf(),
            final(self)@ == (SubMenuView {
                toggles: old(self)@.toggles.map_items(|t: Toggle<'a>| t.cleared()),
                ..old(self)@
            }),
    {
        let n: usize = self.toggles.len();
        let mut i: usize = 0;
        while i < n
            invariant
                i <= n,
                n == old(self)@.toggles.items.len(),
                self.toggles.wf(),
                self@ == (SubMenuView { toggles: self@.toggles, ..old(self)@ }),
                self@.toggles == (Grid { items: self@.toggles.items, ..old(self)@.toggles }),
                self@.toggles.items.len() == n,
                forall|j: int|
                    0 <= j < n ==> #[trigger] self@.toggles.items[j] == if j < i {
                        old(self)@.toggles.items[j].cleared()
                    } else {
                        old(self)@.toggles.items[j]
                    },
            decreases n - i,
        {
            match self.toggles.get_by_idx_mut(i) {
                Some(toggle) => toggle.reset(),
                None => {},
            }
            i += 1;
        }
        proof {
            assert(self@.toggles.items =~= old(self)@.toggles.items.map_values(|t: Toggle<'a>| t.cleared()));
        }
    }

    /// The value under which the submenu is stored.
    pub fn value(&self) -> (value: SubMenuValue)
        requires
            self.toggles.wf(),
            self@.submenu_type != SubMenuType::Empty,
        ensures
            value@ == self@.value(),
    {
        match self.submenu_type {
            SubMenuType::Slider => SubMenuValue::Slider {
                selected_min: self.slider.selected_min,
                selected_max: self.slider.selected_max,
                abs_min: self.slider.abs_min,
                abs_max: self.slider.abs_max,
            },
            _ => {
                let toggles: Vec<Toggle<'a>> = self.toggles.as_vec();
                let mut values: Vec<u8> = Vec::new();
                let mut i: usize = 0;
                while i < toggles.len()
                    invariant
                        i <= toggles.len(),
                        values@.len() == i,
                        forall|j: int| 0 <= j < i ==> #[trigger] values@[j] == toggles@[j].value,
                    decreases toggles.len() - i,
                {
                    values.push(toggles[i].value);
                    i += 1;
                }
                proof {
                    assert(values@ =~= self@.toggles.items.map_values(|t: Toggle<'a>| t.value));
                }
                SubMenuValue::Toggles(values)
            },
        }
    }
}

impl<'a> InputControl for SubMenu<'a> {
    open spec fn takes(&self, input: Input) -> bool {
        &&& self.wf()
        &&& self@.takes(input)
    }

    /// Confirm sets toggles and takes or releases the slider handle.
    fn on_a(&mut self)
        ensures
            final(self).wf(),
            old(self).ready() ==> final(self).ready(),
            final(self)@ == old(self)@.on_a(),
            old(self)@.submenu_type == SubMenuType::ToggleSingle ==> at_most_one_set(final(self)@.toggles.items),
            old(self).slider.wf() ==> final(self).slider.wf(),
    {
        match self.submenu_type {
            SubMenuType::ToggleSingle => {
                // Clear all toggles before counting the selected one: this
                // way at most one toggle is set.
                self.reset_toggles();
                self.selected_toggle().increment();
                proof {
                    old(self)@.lemma_single_confirm_exclusive();
                }
            },
            SubMenuType::ToggleMultiple => self.selected_toggle().increment(),
            SubMenuType::Slider => self.slider.select_deselect(),
            SubMenuType::Empty => {},
        }
    }

    /// Cancel releases a selected slider handle.
    fn on_b(&mut self)
        ensures
            final(self).wf(),
            old(self).ready() ==> final(self).ready(),
            final(self)@ == old(self)@.on_b(),
            old(self).slider.wf() ==> final(self).slider.wf(),
    {
        match self.submenu_type {
            SubMenuType::ToggleSingle => {},
            SubMenuType::ToggleMultiple => {},
            SubMenuType::Slider => {
                if self.slider.is_handle_selected() {
                    self.slider.deselect()
                }
            },
            SubMenuType::Empty => {},
        }
    }

    /// The first auxiliary button does nothing.
    fn on_x(&mut self)
        ensures
            *final(self) == *old(self),
    {
    }

    /// The second auxiliary button does nothing.
    fn on_y(&mut self)
        ensures
            *final(self) == *old(self),
    {
    }

    /// Up moves the toggle cursor to the next toggle above.
    fn on_up(&mut self)
        ensures
            final(self).wf(),
            old(self).ready() ==> final(self).ready(),
            final(self)@ == old(self)@.on_up(),
    {
        proof {
            if self@.is_toggle() && self.ready() {
                self@.toggles.lemma_occupied_earlier(
                    self@.toggles.row as int,
                    self@.toggles.column as int,
                    0,
                    self@.toggles.column as int,
                );
            }
        }
        match self.submenu_type {
            SubMenuType::ToggleSingle => {
                let _ = self.toggles.prev_row_checked();
            },
            SubMenuType::ToggleMultiple => {
                let _ = self.toggles.prev_row_checked();
            },
            SubMenuType::Slider => {},
            SubMenuType::Empty => {},
        }
    }

    /// Down moves the toggle cursor to the next toggle below.
    fn on_down(&mut self)
        ensures
            final(self).wf(),
            old(self).ready() ==> final(self).ready(),
            final(self)@ == old(self)@.on_down(),
    {
        proof {
            if self@.is_toggle() && self.ready() {
                self@.toggles.lemma_occupied_earlier(
                    self@.toggles.row as int,
                    self@.toggles.column as int,
                    0,
                    self@.toggles.column as int,
                );
            }
        }
        match self.submenu_type {
            SubMenuType::ToggleSingle => {
                let _ = self.toggles.next_row_checked();
            },
            SubMenuType::ToggleMultiple => {
                let _ = self.toggles.next_row_checked();
            },
            SubMenuType::Slider => {},
            SubMenuType::Empty => {},
        }
    }

    /// Left moves the toggle cursor, or the slider.
    fn on_left(&mut self)
        ensures
            final(self).wf(),
            old(self).ready() ==> final(self).ready(),
            final(self)@ == old(self)@.on_left(),
            old(self).slider.wf() ==> final(self).slider.wf(),
    {
        proof {
            if self@.is_toggle() && self.ready() {
                self@.toggles.lemma_occupied_earlier(
                    self@.toggles.row as int,
                    self@.toggles.column as int,
                    self@.toggles.row as int,
                    0,
                );
            }
        }
        match self.submenu_type {
            SubMenuType::ToggleSingle => {
                let _ = self.toggles.prev_col_checked();
            },
            SubMenuType::ToggleMultiple => {
                let _ = self.toggles.prev_col_checked();
            },
            SubMenuType::Slider => {
                if self.slider.is_handle_selected() {
                    self.slider.decrement_selected_slow();
                } else {
                    self.slider.switch_hover();
                }
            },
            SubMenuType::Empty => {},
        }
    }

    /// Right moves the toggle cursor, or the slider.
    fn on_right(&mut self)
        ensures
            final(self).wf(),
            old(self).ready() ==> final(self).ready(),
            final(self)@ == old(self)@.on_right(),
            old(self).slider.wf() ==> final(self).slider.wf(),
    {
        proof {
            if self@.is_toggle() && self.ready() {
                self@.toggles.lemma_occupied_earlier(
                    self@.toggles.row as int,
                    self@.toggles.column as int,
                    self@.toggles.row as int,
                    0,
                );
            }
        }
        match self.submenu_type {
            SubMenuType::ToggleSingle => self.toggles.next_col_checked(),
            SubMenuType::ToggleMultiple => self.toggles.next_col_checked(),
            SubMenuType::Slider => {
                if self.slider.is_handle_selected() {
                    self.slider.increment_selected_slow();
                } else {
                    self.slider.switch_hover();
                }
            },
            SubMenuType::Empty => {},
        }
    }

    /// Start does nothing.
    fn on_start(&mut self)
        ensures
            *final(self) == *old(self),
    {
    }

    /// The left shoulder button does nothing.
    fn on_l(&mut self)
        ensures
            *final(self) == *old(self),
    {
    }

    /// The right shoulder button does nothing.
    fn on_r(&mut self)
        ensures
            *final(self) == *old(self),
    {
    }

    /// The left trigger does nothing.
    fn on_zl(&mut self)
        ensures
            *final(self) == *old(self),
    {
    }

    /// The right trigger does nothing.
    fn on_zr(&mut self)
        ensures
            *final(self) == *old(self),
    {
    }
}

} // verus!
