//! A tab: a table of submenus. Directions move its cursor; the buttons go
//! to the submenu under the cursor.

use crate::grid::Grid;
use crate::settings::settings_view;
use crate::submenu::{SubMenu, SubMenuType, SubMenuValue, SubMenuValueView, SubMenuView};
use crate::table::StatefulTable;
use crate::{Input, InputControl};
use vstd::prelude::*;

verus! {

/// A titled table of submenus.
#[derive(Debug, Eq, PartialEq, Clone)]
pub struct Tab<'a> {
    pub title: &'a str,
    pub id: &'a str,
    pub submenus: StatefulTable<SubMenu<'a>>,
}

/// What a tab is, mathematically.
pub struct TabView<'a> {
    pub title: Seq<char>,
    pub id: Seq<char>,
    pub submenus: Grid<SubMenuView<'a>>,
}

impl<'a> TabView<'a> {
    /// The table of submenus is well formed, its cursor is on a submenu, and
    /// every submenu is ready.
    pub open spec fn ready(self) -> bool {
        &&& self.submenus.wf()
        &&& self.submenus.selected() is Some
        &&& forall|i: int| 0 <= i < self.submenus.items.len() ==> (#[trigger] self.submenus.items[i]).ready()
    }

    /// Whether what `input` looks up is there. A direction looks nothing
    /// up. Every other input goes to the submenu under the cursor, which
    /// has to be there and to have what the input looks up in it.
    pub open spec fn takes(self, input: Input) -> bool {
        !input.is_direction() ==> self.submenus.selected() is Some && self.selected_submenu().takes(input)
    }

    /// A tab that is ready has whatever any input looks up.
    pub proof fn lemma_ready_takes(self, input: Input)
        requires
            self.ready(),
        ensures
            self.takes(input),
    {
        assert(self.submenus.items[self.submenus.selected_index()].ready());
    }

    /// The submenu under the cursor.
    pub open spec fn selected_submenu(self) -> SubMenuView<'a>
        recommends
            self.submenus.selected() is Some,
    {
        self.submenus.selected()->0
    }

    /// The tab with the submenu under the cursor replaced by `submenu`.
    pub open spec fn with_selected_submenu(self, submenu: SubMenuView<'a>) -> TabView<'a> {
        TabView { submenus: self.submenus.with_selected(submenu), ..self }
    }

    /// Whether every submenu has a value to store: none holds nothing.
    pub open spec fn storable(self) -> bool {
        forall|i: int|
            0 <= i < self.submenus.items.len() ==> (#[trigger] self.submenus.items[i]).submenu_type
                != SubMenuType::Empty
    }

    /// The id and the value of every submenu, in row-major order.
    pub open spec fn values(self) -> Seq<(Seq<char>, SubMenuValueView)> {
        self.submenus.items.map_values(|submenu: SubMenuView<'a>| (submenu.id, submenu.value()))
    }

    /// The tab with the values of `settings` taken over by every submenu for
    /// whose id they hold any.
    pub open spec fn applied(self, settings: Seq<(Seq<char>, Seq<u8>)>) -> TabView<'a> {
        TabView {
            submenus: self.submenus.map_items(|submenu: SubMenuView<'a>| submenu.applied(settings)),
            ..self
        }
    }

    /// The tab after the confirm button: the submenu under the cursor takes it.
    pub open spec fn on_a(self) -> TabView<'a> {
        self.with_selected_submenu(self.selected_submenu().on_a())
    }

    /// The tab after the cancel button: the submenu under the cursor takes it.
    pub open spec fn on_b(self) -> TabView<'a> {
        self.with_selected_submenu(self.selected_submenu().on_b())
    }

    /// The tab after the direction up.
    pub open spec fn on_up(self) -> TabView<'a> {
        TabView { submenus: self.submenus.prev_row_checked(), ..self }
    }

    /// The tab after the direction down.
    pub open spec fn on_down(self) -> TabView<'a> {
        TabView { submenus: self.submenus.next_row_checked(), ..self }
    }

    /// The tab after the direction left.
    pub open spec fn on_left(self) -> TabView<'a> {
        TabView { submenus: self.submenus.prev_col_checked(), ..self }
    }

    /// The tab after the direction right.
    pub open spec fn on_right(self) -> TabView<'a> {
        TabView { submenus: self.submenus.next_col_checked(), ..self }
    }
}

impl<'a> View for Tab<'a> {
    type V = TabView<'a>;

    open spec fn view(&self) -> TabView<'a> {
        TabView {
            title: self.title@,
            id: self.id@,
            submenus: self.submenus@.map_items(|submenu: SubMenu<'a>| submenu@),
        }
    }
}

/// What a list of ids and values is, mathematically.
pub open spec fn values_view(values: Seq<(&str, SubMenuValue)>) -> Seq<(Seq<char>, SubMenuValueView)> {
    values.map_values(|entry: (&str, SubMenuValue)| (entry.0@, entry.1@))
}

impl<'a> Tab<'a> {
    /// The table of submenus and every table of toggles in it are well formed.
    pub open spec fn wf(&self) -> bool {
        &&& self.submenus.wf()
        &&& forall|i: int| 0 <= i < self.submenus@.items.len() ==> (#[trigger] self.submenus@.items[i]).wf()
    }

    /// The tab can take every input, now and after any input: its tables
    /// are well formed, its cursor is on a submenu, and every submenu can
    /// take every input.
    pub open spec fn ready(&self) -> bool {
        &&& self.wf()
        &&& self@.ready()
    }

    /// Whether the tab can take `input`, found out by looking at it.
    pub fn can_take(&self, input: Input) -> (ok: bool)
        ensures
            ok == self.takes(input),
    {
        if !self.is_wf() {
            return false;
        }
        if input.direction() {
            return true;
        }
        proof {
            self.submenus@.lemma_map_items(|submenu: SubMenu<'a>| submenu@);
        }
        match self.submenus.get_selected() {
            Some(submenu) => submenu.can_take(input),
            None => false,
        }
    }

    /// A tab can take every input exactly if its tables are well formed,
    /// its cursor is on a submenu and each of its submenus can take every
    /// input.
    pub proof fn lemma_ready(&self)
        ensures
            self.ready() <==> {
                &&& self.submenus.wf()
                &&& self.submenus@.selected() is Some
                &&& forall|i: int|
                    0 <= i < self.submenus@.items.len() ==> (#[trigger] self.submenus@.items[i]).ready()
            },
    {
        self.submenus@.lemma_map_items(|submenu: SubMenu<'a>| submenu@);
        assert forall|i: int| 0 <= i < self.submenus@.items.len() implies (#[trigger] self@.submenus.items[i])
            == self.submenus@.items[i]@ by {}
        assert forall|i: int| 0 <= i < self.submenus@.items.len() implies (#[trigger] self.submenus@.items[i])@
            == self@.submenus.items[i] by {}
    }

    /// Whether the tables of the tab are well formed, found out by looking
    /// at them.
    pub fn is_wf(&self) -> (ok: bool)
        ensures
            ok == self.wf(),
    {
        if !self.submenus.is_wf() {
            return false;
        }
        let n: usize = self.submenus.len();
        let mut i: usize = 0;
        while i < n
            invariant
                self.submenus.wf(),
                n == self.submenus@.items.len(),
                i <= n,
                forall|j: int| 0 <= j < i ==> (#[trigger] self.submenus@.items[j]).wf(),
            decreases n - i,
        {
            if !self.submenus.get_by_idx(i).unwrap().is_wf() {
                return false;
            }
            i += 1;
        }
        true
    }

    /// Whether the tab can take every input, found out by looking at it.
    pub fn is_ready(&self) -> (ok: bool)
        ensures
            ok == self.ready(),
    {
        proof {
            self.lemma_ready();
        }
        if !self.submenus.is_wf() || self.submenus.get_selected().is_none() {
            return false;
        }
        let n: usize = self.submenus.len();
        let mut i: usize = 0;
        while i < n
            invariant
                self.submenus.wf(),
                n == self.submenus@.items.len(),
                i <= n,
                forall|j: int| 0 <= j < i ==> (#[trigger] self.submenus@.items[j]).ready(),
            decreases n - i,
        {
            if !self.submenus.get_by_idx(i).unwrap().is_ready() {
                proof {
                    self.lemma_ready();
                }
                return false;
            }
            i += 1;
        }
        proof {
            self.lemma_ready();
        }
        true
    }

    /// Whether every submenu has a value to store, found out by looking at
    /// them.
    pub fn is_storable(&self) -> (ok: bool)
        requires
            self.submenus.wf(),
        ensures
            ok == self@.storable(),
    {
        let n: usize = self.submenus.len();
        let mut i: usize = 0;
        while i < n
            invariant
                self.submenus.wf(),
                n == self.submenus@.items.len(),
                i <= n,
                forall|j: int| 0 <= j < i ==> (#[trigger] self@.submenus.items[j]).submenu_type != SubMenuType::Empty,
            decreases n - i,
        {
            let submenu: &SubMenu<'a> = self.submenus.get_by_idx(i).unwrap();
            proof {
                assert(self@.submenus.items[i as int] == submenu@);
            }
            match submenu.submenu_type {
                SubMenuType::Empty => {
                    return false;
                },
                _ => {},
            }
            i += 1;
        }
        true
    }

    /// The id and the value of every submenu, in row-major order.
    pub fn values(&self) -> (values: Vec<(&'a str, SubMenuValue)>)
        requires
            self.wf(),
            self@.storable(),
        ensures
            values_view(values@) == self@.values(),
    {
        let mut values: Vec<(&'a str, SubMenuValue)> = Vec::new();
        let n: usize = self.submenus.len();
        let mut i: usize = 0;
        while i < n
            invariant
                self.wf(),
                self@.storable(),
                n == self.submenus@.items.len(),
                i <= n,
                values@.len() == i,
                forall|j: int|
                    0 <= j < i ==> (#[trigger] values@[j]).0@ == self.submenus@.items[j]@.id && values@[j].1@
                        == self.submenus@.items[j]@.value(),
            decreases n - i,
        {
            let submenu: &SubMenu<'a> = self.submenus.get_by_idx(i).unwrap();
            proof {
                assert(self@.submenus.items[i as int] == submenu@);
            }
            values.push((submenu.id, submenu.value()));
            i += 1;
        }
        values
    }

    /// Takes over the values that `settings` hold for the ids of the
    /// submenus of this tab.
    pub fn update(&mut self, settings: &Vec<(String, Vec<u8>)>)
        requires
            old(self).wf(),
        ensures
            final(self).wf(),
            final(self)@ == old(self)@.applied(settings_view(settings@)),
            old(self).ready() ==> final(self).ready(),
    {
        let ghost view = |submenu: SubMenu<'a>| submenu@;
        let n: usize = self.submenus.len();
        let mut i: usize = 0;
        proof {
            self.lemma_ready();
        }
        while i < n
            invariant
                n == old(self).submenus@.items.len(),
                i <= n,
                self.wf(),
                view == |submenu: SubMenu<'a>| submenu@,
                self@ == (TabView { submenus: self@.submenus, ..old(self)@ }),
                self@.submenus == (Grid { items: self@.submenus.items, ..old(self)@.submenus }),
                self@.submenus.items.len() == n,
                forall|j: int|
                    0 <= j < n ==> #[trigger] self@.submenus.items[j] == if j < i {
                        old(self)@.submenus.items[j].applied(settings_view(settings@))
                    } else {
                        old(self)@.submenus.items[j]
                    },
                old(self).ready() ==> forall|j: int| 0 <= j < n ==> (#[trigger] self.submenus@.items[j]).ready(),
            decreases n - i,
        {
            let ghost before = self.submenus@;
            let ghost views = self@.submenus.items;
            match self.submenus.get_by_idx_mut(i) {
                Some(submenu) => submenu.update(settings),
                None => {},
            }
            proof {
                before.lemma_map_with_item(view, i as int, self.submenus@.items[i as int]);
                assert forall|j: int| 0 <= j < n implies #[trigger] self@.submenus.items[j] == if j < i + 1 {
                    old(self)@.submenus.items[j].applied(settings_view(settings@))
                } else {
                    old(self)@.submenus.items[j]
                } by {
                    if j == i {
                        assert(views[j] == before.items[j]@);
                    }
                }
            }
            i += 1;
        }
        proof {
            assert(self@.submenus.items =~= old(self)@.applied(settings_view(settings@)).submenus.items);
            self.lemma_ready();
        }
    }

    /// The submenu under the cursor, to be changed in place.
    pub fn selected_submenu(&mut self) -> (submenu: &mut SubMenu<'a>)
        requires
            old(self).wf(),
            old(self)@.submenus.selected() is Some,
        ensures
            submenu.wf(),
            old(self).ready() ==> submenu.ready(),
            old(self)@.selected_submenu() == submenu@,
            final(submenu).wf() ==> final(self).wf(),
            old(self).ready() && final(submenu).ready() ==> final(self).ready(),
            final(self)@ == old(self)@.with_selected_submenu(final(submenu)@),
    {
        proof {
            self.lemma_ready();
        }
        let ghost i = self.submenus@.selected_index();
        let submenu = self.submenus.get_selected_mut().unwrap();
        proof {
            let before = old(self).submenus@;
            let view = |submenu: SubMenu<'a>| submenu@;
            before.lemma_map_items(view);
            before.lemma_map_with_item(view, i, *final(submenu));
        }
        submenu
    }
}

impl<'a> InputControl for Tab<'a> {
    open spec fn takes(&self, input: Input) -> bool {
        &&& self.wf()
        &&& self@.takes(input)
    }

    /// Confirm goes to the submenu under the cursor.
    fn on_a(&mut self)
        ensures
            final(self).wf(),
            old(self).ready() ==> final(self).ready(),
            final(self)@ == old(self)@.on_a(),
    {
        self.selected_submenu().on_a()
    }

    /// Cancel goes to the submenu under the cursor.
    fn on_b(&mut self)
        ensures
            final(self).wf(),
            old(self).ready() ==> final(self).ready(),
            final(self)@ == old(self)@.on_b(),
    {
        self.selected_submenu().on_b()
    }

    /// The first auxiliary button goes to the submenu under the cursor,
    /// which does nothing with it.
    fn on_x(&mut self)
        ensures
            final(self).wf(),
            old(self).ready() ==> final(self).ready(),
            final(self)@ == old(self)@,
    {
        self.selected_submenu().on_x();
        proof {
            old(self)@.submenus.lemma_with_selected_same();
        }
    }

    /// The second auxiliary button goes to the submenu under the cursor,
    /// which does nothing with it.
    fn on_y(&mut self)
        ensures
            final(self).wf(),
            old(self).ready() ==> final(self).ready(),
            final(self)@ == old(self)@,
    {
        self.selected_submenu().on_y();
        proof {
            old(self)@.submenus.lemma_with_selected_same();
        }
    }

    /// Up moves the cursor to the next submenu above.
    fn on_up(&mut self)
        ensures
            final(self).wf(),
            old(self).ready() ==> final(self).ready(),
            final(self)@ == old(self)@.on_up(),
    {
        proof {
            let g = self.submenus@;
            g.lemma_map_items(|submenu: SubMenu<'a>| submenu@);
            if g.selected() is Some {
                g.lemma_occupied_earlier(g.row as int, g.column as int, 0, g.column as int);
            }
        }
        let _ = self.submenus.prev_row_checked();
    }

    /// Down moves the cursor to the next submenu below.
    fn on_down(&mut self)
        ensures
            final(self).wf(),
            old(self).ready() ==> final(self).ready(),
            final(self)@ == old(self)@.on_down(),
    {
        proof {
            let g = self.submenus@;
            g.lemma_map_items(|submenu: SubMenu<'a>| submenu@);
            if g.selected() is Some {
                g.lemma_occupied_earlier(g.row as int, g.column as int, 0, g.column as int);
            }
        }
        let _ = self.submenus.next_row_checked();
    }

    /// Left moves the cursor to the next submenu on the left.
    fn on_left(&mut self)
        ensures
            final(self).wf(),
            old(self).ready() ==> final(self).ready(),
            final(self)@ == old(self)@.on_left(),
    {
        proof {
            let g = self.submenus@;
            g.lemma_map_items(|submenu: SubMenu<'a>| submenu@);
            if g.selected() is Some {
                g.lemma_occupied_earlier(g.row as int, g.column as int, g.row as int, 0);
            }
        }
        let _ = self.submenus.prev_col_checked();
    }

    /// Right moves the cursor to the next submenu on the right.
    fn on_right(&mut self)
        ensures
            final(self).wf(),
            old(self).ready() ==> final(self).ready(),
            final(self)@ == old(self)@.on_right(),
    {
        proof {
            let g = self.submenus@;
            g.lemma_map_items(|submenu: SubMenu<'a>| submenu@);
            if g.selected() is Some {
                g.lemma_occupied_earlier(g.row as int, g.column as int, g.row as int, 0);
            }
        }
        self.submenus.next_col_checked();
    }

    /// Start goes to the submenu under the cursor, which does nothing with it.
    fn on_start(&mut self)
        ensures
            final(self).wf(),
            old(self).ready() ==> final(self).ready(),
            final(self)@ == old(self)@,
    {
        self.selected_submenu().on_start();
        proof {
            old(self)@.submenus.lemma_with_selected_same();
        }
    }

    /// The left shoulder button goes to the submenu under the cursor, which
    /// does nothing with it.
    fn on_l(&mut self)
        ensures
            final(self).wf(),
            old(self).ready() ==> final(self).ready(),
            final(self)@ == old(self)@,
    {
        self.selected_submenu().on_l();
        proof {
            old(self)@.submenus.lemma_with_selected_same();
        }
    }

    /// The right shoulder button goes to the submenu under the cursor, which
    /// does nothing with it.
    fn on_r(&mut self)
        ensures
            final(self).wf(),
            old(self).ready() ==> final(self).ready(),
            final(self)@ == old(self)@,
    {
        self.selected_submenu().on_r();
        proof {
            old(self)@.submenus.lemma_with_selected_same();
        }
    }

    /// The left trigger goes to the submenu under the cursor, which does
    /// nothing with it.
    fn on_zl(&mut self)
        ensures
            final(self).wf(),
            old(self).ready() ==> final(self).ready(),
            final(self)@ == old(self)@,
    {
        self.selected_submenu().on_zl();
        proof {
            old(self)@.submenus.lemma_with_selected_same();
        }
    }

    /// The right trigger goes to the submenu under the cursor, which does
    /// nothing with it.
    fn on_zr(&mut self)
        ensures
            final(self).wf(),
            old(self).ready() ==> final(self).ready(),
            final(self)@ == old(self)@,
    {
        self.selected_submenu().on_zr();
        proof {
            old(self)@.submenus.lemma_with_selected_same();
        }
    }
}

} // verus!
