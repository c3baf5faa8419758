//! The app: a table of tabs and the page that is shown. It takes every
//! input and hands it to the tab or the submenu that the page puts in
//! charge.
//!
//! App <StatefulTable<Tab>>
//! └─ Tab <StatefulTable<SubMenu>>
//!    └─ SubMenu
//!       ├─ StatefulTable<Toggle>
//!       └─ Slider

use crate::grid::Grid;
use crate::settings::{json_settings, parse_settings, settings_view, SettingsError};
use crate::submenu::{SubMenu, SubMenuType, SubMenuValue, SubMenuValueView, SubMenuView};
use crate::tab::{values_view, Tab, TabView};
use crate::table::StatefulTable;
use crate::{Input, InputControl};
use vstd::prelude::*;

verus! {

/// What the app shows, and so where its input goes.
#[derive(Debug, Eq, PartialEq, Clone, Copy, Structural)]
pub enum AppPage {
    /// The submenus of the selected tab.
    Submenu,
    /// The toggles of the selected submenu.
    Toggle,
    /// The slider of the selected submenu.
    Slider,
    /// A question that waits for an answer.
    Confirmation,
    /// Nothing any more: the menu is closed.
    Close,
}

/// The whole menu.
#[derive(Debug, Eq, PartialEq, Clone)]
pub struct App<'a> {
    pub tabs: StatefulTable<Tab<'a>>,
    pub page: AppPage,
}

/// What the app is, mathematically.
pub struct AppView<'a> {
    pub tabs: Grid<TabView<'a>>,
    pub page: AppPage,
}

/// The page on which a submenu of type `submenu_type` is worked on; the
/// page of the submenus itself for a submenu that holds nothing.
pub open spec fn page_of(submenu_type: SubMenuType) -> AppPage {
    match submenu_type {
        SubMenuType::ToggleSingle => AppPage::Toggle,
        SubMenuType::ToggleMultiple => AppPage::Toggle,
        SubMenuType::Slider => AppPage::Slider,
        SubMenuType::Empty => AppPage::Submenu,
    }
}

/// The ids and the values of the submenus of `tabs`, tab after tab.
pub open spec fn tabs_values(tabs: Seq<TabView<'_>>) -> Seq<(Seq<char>, SubMenuValueView)>
    decreases tabs.len(),
{
    if tabs.len() == 0 {
        Seq::empty()
    } else {
        tabs_values(tabs.drop_last()) + tabs.last().values()
    }
}

impl<'a> AppView<'a> {
    /// The table of tabs is well formed and every tab can take every input.
    pub open spec fn tabs_ready(self) -> bool {
        &&& self.tabs.wf()
        &&& forall|i: int| 0 <= i < self.tabs.items.len() ==> (#[trigger] self.tabs.items[i]).ready()
    }

    /// Every tab can take every input, and the cursor is on a tab.
    pub open spec fn ready(self) -> bool {
        &&& self.tabs_ready()
        &&& self.tabs.selected() is Some
    }

    /// Whether the two cursors lead to a submenu: a tab is under the cursor
    /// of the app and a submenu under the cursor of that tab.
    pub open spec fn has_selected_submenu(self) -> bool {
        self.tabs.selected() is Some && self.selected_tab().submenus.selected() is Some
    }

    /// Whether what `input` looks up is there.
    ///
    /// On the page of the submenus, the cancel button and the two triggers
    /// look nothing up; every other input goes to the tab under the cursor.
    /// On the page of the toggles, the cancel button looks nothing up. Every
    /// other input on that page, and every input on the page of the slider,
    /// goes to the submenu under the two cursors. The other pages take any
    /// input and look nothing up.
    pub open spec fn takes(self, input: Input) -> bool {
        match self.page {
            AppPage::Submenu => input == Input::B || input == Input::Zl || input == Input::Zr || (
            self.tabs.selected() is Some && self.selected_tab().takes(input)),
            AppPage::Toggle => input == Input::B || (self.has_selected_submenu()
                && self.selected_submenu().takes(input)),
            AppPage::Slider => self.has_selected_submenu() && self.selected_submenu().takes(input),
            AppPage::Confirmation | AppPage::Close => true,
        }
    }

    /// Whether every submenu of every tab has a value to store.
    pub open spec fn storable(self) -> bool {
        forall|i: int| 0 <= i < self.tabs.items.len() ==> (#[trigger] self.tabs.items[i]).storable()
    }

    /// The flat list of what the app stores: the id and the value of every
    /// submenu, tab after tab and in row-major order within a tab.
    pub open spec fn values(self) -> Seq<(Seq<char>, SubMenuValueView)> {
        tabs_values(self.tabs.items)
    }

    /// The app with the values of `settings` taken over by every submenu for
    /// whose id they hold any.
    pub open spec fn applied(self, settings: Seq<(Seq<char>, Seq<u8>)>) -> AppView<'a> {
        AppView { tabs: self.tabs.map_items(|tab: TabView<'a>| tab.applied(settings)), ..self }
    }

    /// The tab under the cursor.
    pub open spec fn selected_tab(self) -> TabView<'a>
        recommends
            self.tabs.selected() is Some,
    {
        self.tabs.selected()->0
    }

    /// The submenu under the cursor of the tab under the cursor.
    pub open spec fn selected_submenu(self) -> SubMenuView<'a>
        recommends
            self.has_selected_submenu(),
    {
        self.selected_tab().selected_submenu()
    }

    /// The app with the tab under the cursor replaced by `tab`.
    pub open spec fn with_selected_tab(self, tab: TabView<'a>) -> AppView<'a> {
        AppView { tabs: self.tabs.with_selected(tab), ..self }
    }

    /// The app with the submenu under the two cursors replaced by `submenu`.
    pub open spec fn with_selected_submenu(self, submenu: SubMenuView<'a>) -> AppView<'a> {
        self.with_selected_tab(self.selected_tab().with_selected_submenu(submenu))
    }

    /// The app on page `page`.
    pub open spec fn with_page(self, page: AppPage) -> AppView<'a> {
        AppView { page, ..self }
    }

    /// The app after the confirm button. On the page of the submenus, the
    /// app turns to the page of the selected submenu and the tab takes the
    /// confirm; on the page of the toggles or the slider, the submenu takes
    /// it.
    pub open spec fn on_a(self) -> AppView<'a> {
        match self.page {
            AppPage::Submenu => self.with_page(page_of(self.selected_submenu().submenu_type)).with_selected_tab(
                self.selected_tab().on_a(),
            ),
            AppPage::Toggle | AppPage::Slider => self.with_selected_submenu(self.selected_submenu().on_a()),
            AppPage::Confirmation | AppPage::Close => self,
        }
    }

    /// The app after the cancel button. The page of the submenus closes the
    /// menu. The page of the toggles goes back to the submenus, and so does
    /// the page of the slider, unless a handle is selected: then the submenu
    /// takes the cancel and the page stays.
    pub open spec fn on_b(self) -> AppView<'a> {
        match self.page {
            AppPage::Submenu => self.with_page(AppPage::Close),
            AppPage::Toggle => self.with_page(AppPage::Submenu),
            AppPage::Slider => if self.selected_submenu().slider.handle_selected {
                self.with_selected_submenu(self.selected_submenu().on_b())
            } else {
                self.with_page(AppPage::Submenu)
            },
            AppPage::Confirmation => self.with_page(AppPage::Submenu),
            AppPage::Close => self,
        }
    }

    /// The app after the direction up.
    pub open spec fn on_up(self) -> AppView<'a> {
        match self.page {
            AppPage::Submenu => self.with_selected_tab(self.selected_tab().on_up()),
            AppPage::Toggle | AppPage::Slider => self.with_selected_submenu(self.selected_submenu().on_up()),
            AppPage::Confirmation | AppPage::Close => self,
        }
    }

    /// The app after the direction down.
    pub open spec fn on_down(self) -> AppView<'a> {
        match self.page {
            AppPage::Submenu => self.with_selected_tab(self.selected_tab().on_down()),
            AppPage::Toggle | AppPage::Slider => self.with_selected_submenu(self.selected_submenu().on_down()),
            AppPage::Confirmation | AppPage::Close => self,
        }
    }

    /// The app after the direction left.
    pub open spec fn on_left(self) -> AppView<'a> {
        match self.page {
            AppPage::Submenu => self.with_selected_tab(self.selected_tab().on_left()),
            AppPage::Toggle | AppPage::Slider => self.with_selected_submenu(self.selected_submenu().on_left()),
            AppPage::Confirmation | AppPage::Close => self,
        }
    }

    /// The app after the direction right.
    pub open spec fn on_right(self) -> AppView<'a> {
        match self.page {
            AppPage::Submenu => self.with_selected_tab(self.selected_tab().on_right()),
            AppPage::Toggle | AppPage::Slider => self.with_selected_submenu(self.selected_submenu().on_right()),
            AppPage::Confirmation | AppPage::Close => self,
        }
    }

    /// An app that is ready has whatever any input looks up.
    pub proof fn lemma_ready_takes(self, input: Input)
        requires
            self.ready(),
        ensures
            self.takes(input),
    {
        let tab = self.tabs.items[self.tabs.selected_index()];
        assert(tab.ready());
        tab.lemma_ready_takes(input);
        assert(tab.submenus.items[tab.submenus.selected_index()].ready());
    }

    /// The app after `n` presses of the right trigger.
    pub open spec fn right_triggers(self, n: nat) -> AppView<'a>
        decreases n,
    {
        if n == 0 {
            self
        } else {
            self.right_triggers((n - 1) as nat).on_zr()
        }
    }

    /// The app after `n` presses of the left trigger.
    pub open spec fn left_triggers(self, n: nat) -> AppView<'a>
        decreases n,
    {
        if n == 0 {
            self
        } else {
            self.left_triggers((n - 1) as nat).on_zl()
        }
    }

    /// A trigger moves the cursor of the tabs and nothing else: no tab, no
    /// submenu and no toggle changes, and the page stays.
    pub proof fn lemma_trigger_moves_cursor_only(self)
        ensures
            self.on_zr().tabs.items == self.tabs.items,
            self.on_zr().tabs.row == self.tabs.row,
            self.on_zr().page == self.page,
            self.on_zl().tabs.items == self.tabs.items,
            self.on_zl().tabs.row == self.tabs.row,
            self.on_zl().page == self.page,
    {
    }

    /// The left trigger undoes the right trigger and the right trigger the
    /// left one, whether or not the cell in between holds a tab.
    pub proof fn lemma_triggers_inverse(self)
        requires
            self.tabs.wf(),
        ensures
            self.on_zr().on_zl() == self,
            self.on_zl().on_zr() == self,
    {
        self.tabs.lemma_col_moves_inverse();
    }

    /// On the page of the submenus, `n` presses of a trigger are `n` moves
    /// of the cursor of the tabs; on any other page they change nothing.
    pub proof fn lemma_triggers_are_moves(self, n: nat)
        ensures
            self.right_triggers(n) == if self.page == AppPage::Submenu {
                AppView { tabs: self.tabs.next_cols(n), ..self }
            } else {
                self
            },
            self.left_triggers(n) == if self.page == AppPage::Submenu {
                AppView { tabs: self.tabs.prev_cols(n), ..self }
            } else {
                self
            },
        decreases n,
    {
        if n > 0 {
            self.lemma_triggers_are_moves((n - 1) as nat);
        }
    }

    /// As many presses of a trigger as the tabs have columns bring the
    /// cursor back to the tab it was on.
    pub proof fn lemma_trigger_cycle(self)
        requires
            self.tabs.wf(),
        ensures
            self.right_triggers(self.tabs.cols) == self,
            self.left_triggers(self.tabs.cols) == self,
    {
        self.lemma_triggers_are_moves(self.tabs.cols);
        self.tabs.lemma_next_col_cycle();
        self.tabs.lemma_prev_col_cycle();
    }

    /// The closed menu stays closed and as it is, whatever the input; a
    /// question that waits for an answer takes none but the cancel button,
    /// which goes back to the submenus.
    pub proof fn lemma_pages_without_input(self)
        ensures
            self.page == AppPage::Close ==> self.on_b() == self,
            self.page == AppPage::Confirmation ==> self.on_b() == self.with_page(AppPage::Submenu),
            self.page == AppPage::Close || self.page == AppPage::Confirmation ==> {
                &&& self.on_a() == self
                &&& self.on_up() == self
                &&& self.on_down() == self
                &&& self.on_left() == self
                &&& self.on_right() == self
                &&& self.on_zl() == self
                &&& self.on_zr() == self
            },
    {
    }

    /// The app after the left trigger: on the page of the submenus, the
    /// cursor is on the tab before.
    pub open spec fn on_zl(self) -> AppView<'a> {
        match self.page {
            AppPage::Submenu => AppView { tabs: self.tabs.prev_col(), ..self },
            _ => self,
        }
    }

    /// The app after the right trigger: on the page of the submenus, the
    /// cursor is on the tab behind.
    pub open spec fn on_zr(self) -> AppView<'a> {
        match self.page {
            AppPage::Submenu => AppView { tabs: self.tabs.next_col(), ..self },
            _ => self,
        }
    }
}

impl<'a> View for App<'a> {
    type V = AppView<'a>;

    open spec fn view(&self) -> AppView<'a> {
        AppView { tabs: self.tabs@.map_items(|tab: Tab<'a>| tab@), page: self.page }
    }
}

impl<'a> App<'a> {
    /// The table of tabs and every table within it are well formed.
    pub open spec fn wf(&self) -> bool {
        &&& self.tabs.wf()
        &&& forall|i: int| 0 <= i < self.tabs@.items.len() ==> (#[trigger] self.tabs@.items[i]).wf()
    }

    /// The app can take every input, now and after any input but a trigger:
    /// its tables are well formed, its cursor is on a tab, and every tab can
    /// take every input.
    pub open spec fn ready(&self) -> bool {
        &&& self.wf()
        &&& self@.ready()
    }

    /// An app without tabs, laid out in `rows` by `cols` cells, on the page
    /// of the submenus.
    pub fn new(rows: usize, cols: usize) -> (app: App<'a>)
        requires
            0 < rows,
            0 < cols,
            rows * cols <= usize::MAX,
        ensures
            app.wf(),
            app@.tabs == Grid::<TabView<'a>>::empty(rows as nat, cols as nat),
            app@.page == AppPage::Submenu,
    {
        let app = App { tabs: StatefulTable::new(rows, cols), page: AppPage::Submenu };
        proof {
            assert(app@.tabs.items =~= Seq::empty());
        }
        app
    }

    /// An app can take every input exactly if its tables are well formed,
    /// its cursor is on a tab and each of its tabs can take every input.
    pub proof fn lemma_ready(&self)
        ensures
            self.ready() <==> {
                &&& self.tabs.wf()
                &&& self.tabs@.selected() is Some
                &&& forall|i: int| 0 <= i < self.tabs@.items.len() ==> (#[trigger] self.tabs@.items[i]).ready()
            },
    {
        self.tabs@.lemma_map_items(|tab: Tab<'a>| tab@);
        assert forall|i: int| 0 <= i < self.tabs@.items.len() implies (#[trigger] self@.tabs.items[i])
            == self.tabs@.items[i]@ by {}
        assert forall|i: int| 0 <= i < self.tabs@.items.len() implies (#[trigger] self.tabs@.items[i])@
            == self@.tabs.items[i] by {}
    }

    /// Whether the tables of the app are well formed, found out by looking
    /// at them.
    pub fn is_wf(&self) -> (ok: bool)
        ensures
            ok == self.wf(),
    {
        if !self.tabs.is_wf() {
            return false;
        }
        let n: usize = self.tabs.len();
        let mut i: usize = 0;
        while i < n
            invariant
                self.tabs.wf(),
                n == self.tabs@.items.len(),
                i <= n,
                forall|j: int| 0 <= j < i ==> (#[trigger] self.tabs@.items[j]).wf(),
            decreases n - i,
        {
            if !self.tabs.get_by_idx(i).unwrap().is_wf() {
                return false;
            }
            i += 1;
        }
        true
    }

    /// Whether the app can take `input`, found out by looking at it.
    pub fn can_take(&self, input: Input) -> (ok: bool)
        ensures
            ok == self.takes(input),
    {
        if !self.is_wf() {
            return false;
        }
        let to_tab: bool = match self.page {
            AppPage::Submenu => match input {
                Input::B => {
                    return true;
                },
                Input::Zl => {
                    return true;
                },
                Input::Zr => {
                    return true;
                },
                _ => true,
            },
            AppPage::Toggle => match input {
                Input::B => {
                    return true;
                },
                _ => false,
            },
            AppPage::Slider => false,
            AppPage::Confirmation => {
                return true;
            },
            AppPage::Close => {
                return true;
            },
        };
        proof {
            self.tabs@.lemma_map_items(|tab: Tab<'a>| tab@);
        }
        match self.tabs.get_selected() {
            Some(tab) => {
                if to_tab {
                    tab.can_take(input)
                } else {
                    proof {
                        tab.submenus@.lemma_map_items(|submenu: SubMenu<'a>| submenu@);
                    }
                    match tab.submenus.get_selected() {
                        Some(submenu) => submenu.can_take(input),
                        None => false,
                    }
                }
            },
            None => false,
        }
    }

    /// Whether the app can take every input, found out by looking at it.
    pub fn is_ready(&self) -> (ok: bool)
        ensures
            ok == self.ready(),
    {
        proof {
            self.lemma_ready();
        }
        if !self.tabs.is_wf() || self.tabs.get_selected().is_none() {
            return false;
        }
        let n: usize = self.tabs.len();
        let mut i: usize = 0;
        while i < n
            invariant
                self.tabs.wf(),
                n == self.tabs@.items.len(),
                i <= n,
                forall|j: int| 0 <= j < i ==> (#[trigger] self.tabs@.items[j]).ready(),
            decreases n - i,
        {
            if !self.tabs.get_by_idx(i).unwrap().is_ready() {
                proof {
                    self.lemma_ready();
                }
                return false;
            }
            i += 1;
        }
        proof {
            self.lemma_ready();
        }
        true
    }

    /// Whether every submenu of every tab has a value to store, found out
    /// by looking at them.
    pub fn is_storable(&self) -> (ok: bool)
        requires
            self.wf(),
        ensures
            ok == self@.storable(),
    {
        let n: usize = self.tabs.len();
        let mut i: usize = 0;
        while i < n
            invariant
                self.wf(),
                n == self.tabs@.items.len(),
                i <= n,
                forall|j: int| 0 <= j < i ==> (#[trigger] self@.tabs.items[j]).storable(),
            decreases n - i,
        {
            let tab: &Tab<'a> = self.tabs.get_by_idx(i).unwrap();
            proof {
                assert(self@.tabs.items[i as int] == tab@);
            }
            if !tab.is_storable() {
                return false;
            }
            i += 1;
        }
        true
    }

    /// The flat list of what the app stores: the id and the value of every
    /// submenu, tab after tab and in row-major order within a tab.
    pub fn values(&self) -> (values: Vec<(&'a str, SubMenuValue)>)
        requires
            self.wf(),
            self@.storable(),
        ensures
            values_view(values@) == self@.values(),
    {
        let mut values: Vec<(&'a str, SubMenuValue)> = Vec::new();
        let n: usize = self.tabs.len();
        let mut i: usize = 0;
        while i < n
            invariant
                self.wf(),
                self@.storable(),
                n == self.tabs@.items.len(),
                i <= n,
                values_view(values@) == tabs_values(self@.tabs.items.take(i as int)),
            decreases n - i,
        {
            let tab: &Tab<'a> = self.tabs.get_by_idx(i).unwrap();
            proof {
                assert(self@.tabs.items[i as int] == tab@);
            }
            let mut part: Vec<(&'a str, SubMenuValue)> = tab.values();
            values.append(&mut part);
            proof {
                let tabs = self@.tabs.items;
                assert(tabs.take(i + 1).drop_last() =~= tabs.take(i as int));
            }
            i += 1;
        }
        proof {
            assert(self@.tabs.items.take(n as int) =~= self@.tabs.items);
        }
        values
    }

    /// Takes over the values that `settings` hold for the ids of the
    /// submenus; ids that no submenu has are passed over.
    pub fn update(&mut self, settings: &Vec<(String, Vec<u8>)>)
        requires
            old(self).wf(),
        ensures
            final(self).wf(),
            final(self)@ == old(self)@.applied(settings_view(settings@)),
            old(self).ready() ==> final(self).ready(),
    {
        let ghost view = |tab: Tab<'a>| tab@;
        let n: usize = self.tabs.len();
        let mut i: usize = 0;
        proof {
            self.lemma_ready();
        }
        while i < n
            invariant
                n == old(self).tabs@.items.len(),
                i <= n,
                self.wf(),
                view == |tab: Tab<'a>| tab@,
                self@ == (AppView { tabs: self@.tabs, ..old(self)@ }),
                self@.tabs == (Grid { items: self@.tabs.items, ..old(self)@.tabs }),
                self@.tabs.items.len() == n,
                forall|j: int|
                    0 <= j < n ==> #[trigger] self@.tabs.items[j] == if j < i {
                        old(self)@.tabs.items[j].applied(settings_view(settings@))
                    } else {
                        old(self)@.tabs.items[j]
                    },
                old(self).ready() ==> forall|j: int| 0 <= j < n ==> (#[trigger] self.tabs@.items[j]).ready(),
            decreases n - i,
        {
            let ghost before = self.tabs@;
            let ghost views = self@.tabs.items;
            match self.tabs.get_by_idx_mut(i) {
                Some(tab) => tab.update(settings),
                None => {},
            }
            proof {
                before.lemma_map_with_item(view, i as int, self.tabs@.items[i as int]);
                assert forall|j: int| 0 <= j < n implies #[trigger] self@.tabs.items[j] == if j < i + 1 {
                    old(self)@.tabs.items[j].applied(settings_view(settings@))
                } else {
                    old(self)@.tabs.items[j]
                } by {
                    if j == i {
                        assert(views[j] == before.items[j]@);
                    }
                }
            }
            i += 1;
        }
        proof {
            assert(self@.tabs.items =~= old(self)@.applied(settings_view(settings@)).tabs.items);
            self.lemma_ready();
        }
    }

    /// Reads `json` as settings and takes them over. A text that does not
    /// hold settings is refused, and the app stays as it is.
    pub fn update_from_json(&mut self, json: &str) -> (result: Result<(), SettingsError>)
        requires
            old(self).wf(),
        ensures
            final(self).wf(),
            old(self).ready() ==> final(self).ready(),
            match json_settings(json@) {
                Some(settings) => result is Ok && final(self)@ == old(self)@.applied(settings),
                None => result == Err::<(), SettingsError>(SettingsError::Json) && final(self)@ == old(self)@,
            },
    {
        match parse_settings(json) {
            Ok(settings) => {
                self.update(&settings);
                Ok(())
            },
            Err(error) => Err(error),
        }
    }

    /// The tab under the cursor, to be changed in place.
    pub fn selected_tab(&mut self) -> (tab: &mut Tab<'a>)
        requires
            old(self).wf(),
            old(self)@.tabs.selected() is Some,
        ensures
            tab.wf(),
            old(self).ready() ==> tab.ready(),
            old(self)@.selected_tab() == tab@,
            final(tab).wf() ==> final(self).wf(),
            old(self).ready() && final(tab).ready() ==> final(self).ready(),
            final(self)@ == old(self)@.with_selected_tab(final(tab)@),
    {
        proof {
            self.lemma_ready();
        }
        let ghost i = self.tabs@.selected_index();
        let tab = self.tabs.get_selected_mut().unwrap();
        proof {
            let before = old(self).tabs@;
            let view = |tab: Tab<'a>| tab@;
            before.lemma_map_items(view);
            before.lemma_map_with_item(view, i, *final(tab));
        }
        tab
    }

    /// The submenu under the cursor of the tab under the cursor, to be
    /// changed in place.
    pub fn selected_submenu(&mut self) -> (submenu: &mut SubMenu<'a>)
        requires
            old(self).wf(),
            old(self)@.has_selected_submenu(),
        ensures
            submenu.wf(),
            old(self).ready() ==> submenu.ready(),
            old(self)@.selected_submenu() == submenu@,
            final(submenu).wf() ==> final(self).wf(),
            old(self).ready() && final(submenu).ready() ==> final(self).ready(),
            final(self)@ == old(self)@.with_selected_submenu(final(submenu)@),
    {
        self.selected_tab().selected_submenu()
    }
}

impl<'a> App<'a> {
    /// The type of the submenu under the two cursors.
    fn selected_type(&self) -> (submenu_type: SubMenuType)
        requires
            self.wf(),
            self@.has_selected_submenu(),
        ensures
            submenu_type == self@.selected_submenu().submenu_type,
    {
        proof {
            self.tabs@.lemma_map_items(|tab: Tab<'a>| tab@);
        }
        let tab: &Tab<'a> = self.tabs.get_selected().unwrap();
        proof {
            tab.submenus@.lemma_map_items(|submenu: SubMenu<'a>| submenu@);
        }
        tab.submenus.get_selected().unwrap().submenu_type
    }

    /// Whether the slider of the submenu under the two cursors has a handle
    /// selected.
    fn slider_handle_selected(&self) -> (selected: bool)
        requires
            self.wf(),
            self@.has_selected_submenu(),
        ensures
            selected == self@.selected_submenu().slider.handle_selected,
    {
        proof {
            self.tabs@.lemma_map_items(|tab: Tab<'a>| tab@);
        }
        let tab: &Tab<'a> = self.tabs.get_selected().unwrap();
        proof {
            tab.submenus@.lemma_map_items(|submenu: SubMenu<'a>| submenu@);
        }
        tab.submenus.get_selected().unwrap().slider.is_handle_selected()
    }

    /// Replacing the submenu under the two cursors by itself changes nothing.
    proof fn lemma_same_submenu(self)
        requires
            self@.has_selected_submenu(),
        ensures
            self@.with_selected_submenu(self@.selected_submenu()) == self@,
    {
        self@.tabs.lemma_with_selected_same();
        self@.selected_tab().submenus.lemma_with_selected_same();
    }
}

impl<'a> InputControl for App<'a> {
    open spec fn takes(&self, input: Input) -> bool {
        &&& self.wf()
        &&& self@.takes(input)
    }

    /// Confirm opens the selected submenu, or acts on the opened one.
    fn on_a(&mut self)
        ensures
            final(self).wf(),
            old(self).ready() ==> final(self).ready(),
            final(self)@ == old(self)@.on_a(),
    {
        match self.page {
            AppPage::Submenu => {
                self.page =
                match self.selected_type() {
                    SubMenuType::ToggleSingle => AppPage::Toggle,
                    SubMenuType::ToggleMultiple => AppPage::Toggle,
                    SubMenuType::Slider => AppPage::Slider,
                    SubMenuType::Empty => AppPage::Submenu,
                };
                self.selected_tab().on_a()
            },
            AppPage::Toggle => self.selected_submenu().on_a(),
            AppPage::Slider => self.selected_submenu().on_a(),
            AppPage::Confirmation => {},
            AppPage::Close => {},
        }
    }

    /// Cancel leaves the page, or releases the slider handle.
    fn on_b(&mut self)
        ensures
            final(self).wf(),
            old(self).ready() ==> final(self).ready(),
            final(self)@ == old(self)@.on_b(),
    {
        match self.page {
            AppPage::Submenu => {
                // Leave the menu.
                self.page = AppPage::Close;
            },
            AppPage::Toggle => {
                // Back to the submenus.
                self.page = AppPage::Submenu;
            },
            AppPage::Slider => {
                // Back to the submenus, unless a handle is selected.
                if !self.slider_handle_selected() {
                    self.page = AppPage::Submenu;
                } else {
                    self.selected_submenu().on_b();
                }
            },
            AppPage::Confirmation => {
                // Back to the submenus.
                self.page = AppPage::Submenu;
            },
            AppPage::Close => {},
        }
    }

    /// The first auxiliary button goes to the tab or the submenu in charge,
    /// which do nothing with it.
    fn on_x(&mut self)
        ensures
            final(self).wf(),
            old(self).ready() ==> final(self).ready(),
            final(self)@ == old(self)@,
    {
        match self.page {
            AppPage::Submenu => {
                self.selected_tab().on_x();
                proof {
                    old(self)@.tabs.lemma_with_selected_same();
                }
            },
            AppPage::Toggle => {
                self.selected_submenu().on_x();
                proof {
                    old(self).lemma_same_submenu();
                }
            },
            AppPage::Slider => {
                self.selected_submenu().on_x();
                proof {
                    old(self).lemma_same_submenu();
                }
            },
            AppPage::Confirmation => {},
            AppPage::Close => {},
        }
    }

    /// The second auxiliary button goes to the tab or the submenu in charge,
    /// which do nothing with it.
    fn on_y(&mut self)
        ensures
            final(self).wf(),
            old(self).ready() ==> final(self).ready(),
            final(self)@ == old(self)@,
    {
        match self.page {
            AppPage::Submenu => {
                self.selected_tab().on_y();
                proof {
                    old(self)@.tabs.lemma_with_selected_same();
                }
            },
            AppPage::Toggle => {
                self.selected_submenu().on_y();
                proof {
                    old(self).lemma_same_submenu();
                }
            },
            AppPage::Slider => {
                self.selected_submenu().on_y();
                proof {
                    old(self).lemma_same_submenu();
                }
            },
            AppPage::Confirmation => {},
            AppPage::Close => {},
        }
    }

    /// Up goes to the tab on the page of the submenus, and to the submenu on
    /// the page of the toggles or the slider.
    fn on_up(&mut self)
        ensures
            final(self).wf(),
            old(self).ready() ==> final(self).ready(),
            final(self)@ == old(self)@.on_up(),
    {
        match self.page {
            AppPage::Submenu => self.selected_tab().on_up(),
            AppPage::Toggle => self.selected_submenu().on_up(),
            AppPage::Slider => self.selected_submenu().on_up(),
            AppPage::Confirmation => {},
            AppPage::Close => {},
        }
    }

    /// Down goes to the tab on the page of the submenus, and to the submenu
    /// on the page of the toggles or the slider.
    fn on_down(&mut self)
        ensures
            final(self).wf(),
            old(self).ready() ==> final(self).ready(),
            final(self)@ == old(self)@.on_down(),
    {
        match self.page {
            AppPage::Submenu => self.selected_tab().on_down(),
            AppPage::Toggle => self.selected_submenu().on_down(),
            AppPage::Slider => self.selected_submenu().on_down(),
            AppPage::Confirmation => {},
            AppPage::Close => {},
        }
    }

    /// Left goes to the tab on the page of the submenus, and to the submenu
    /// on the page of the toggles or the slider.
    fn on_left(&mut self)
        ensures
            final(self).wf(),
            old(self).ready() ==> final(self).ready(),
            final(self)@ == old(self)@.on_left(),
    {
        match self.page {
            AppPage::Submenu => self.selected_tab().on_left(),
            AppPage::Toggle => self.selected_submenu().on_left(),
            AppPage::Slider => self.selected_submenu().on_left(),
            AppPage::Confirmation => {},
            AppPage::Close => {},
        }
    }

    /// Right goes to the tab on the page of the submenus, and to the submenu
    /// on the page of the toggles or the slider.
    fn on_right(&mut self)
        ensures
            final(self).wf(),
            old(self).ready() ==> final(self).ready(),
            final(self)@ == old(self)@.on_right(),
    {
        match self.page {
            AppPage::Submenu => self.selected_tab().on_right(),
            AppPage::Toggle => self.selected_submenu().on_right(),
            AppPage::Slider => self.selected_submenu().on_right(),
            AppPage::Confirmation => {},
            AppPage::Close => {},
        }
    }

    /// Start goes to the tab or the submenu in charge, which do nothing
    /// with it.
    fn on_start(&mut self)
        ensures
            final(self).wf(),
            old(self).ready() ==> final(self).ready(),
            final(self)@ == old(self)@,
    {
        match self.page {
            AppPage::Submenu => {
                self.selected_tab().on_start();
                proof {
                    old(self)@.tabs.lemma_with_selected_same();
                }
            },
            AppPage::Toggle => {
                self.selected_submenu().on_start();
                proof {
                    old(self).lemma_same_submenu();
                }
            },
            AppPage::Slider => {
                self.selected_submenu().on_start();
                proof {
                    old(self).lemma_same_submenu();
                }
            },
            AppPage::Confirmation => {},
            AppPage::Close => {},
        }
    }

    /// The left shoulder button goes to the tab or the submenu in charge,
    /// which do nothing with it.
    fn on_l(&mut self)
        ensures
            final(self).wf(),
            old(self).ready() ==> final(self).ready(),
            final(self)@ == old(self)@,
    {
        match self.page {
            AppPage::Submenu => {
                self.selected_tab().on_l();
                proof {
                    old(self)@.tabs.lemma_with_selected_same();
                }
            },
            AppPage::Toggle => {
                self.selected_submenu().on_l();
                proof {
                    old(self).lemma_same_submenu();
                }
            },
            AppPage::Slider => {
                self.selected_submenu().on_l();
                proof {
                    old(self).lemma_same_submenu();
                }
            },
            AppPage::Confirmation => {},
            AppPage::Close => {},
        }
    }

    /// The right shoulder button goes to the tab or the submenu in charge,
    /// which do nothing with it.
    fn on_r(&mut self)
        ensures
            final(self).wf(),
            old(self).ready() ==> final(self).ready(),
            final(self)@ == old(self)@,
    {
        match self.page {
            AppPage::Submenu => {
                self.selected_tab().on_r();
                proof {
                    old(self)@.tabs.lemma_with_selected_same();
                }
            },
            AppPage::Toggle => {
                self.selected_submenu().on_r();
                proof {
                    old(self).lemma_same_submenu();
                }
            },
            AppPage::Slider => {
                self.selected_submenu().on_r();
                proof {
                    old(self).lemma_same_submenu();
                }
            },
            AppPage::Confirmation => {},
            AppPage::Close => {},
        }
    }

    /// On the page of the submenus, the left trigger moves on to the tab
    /// before, whether or not there is one in that cell.
    fn on_zl(&mut self)
        ensures
            final(self).wf(),
            final(self)@ == old(self)@.on_zl(),
            final(self).ready() <==> old(self)@.tabs_ready() && final(self)@.tabs.selected() is Some,
    {
        match self.page {
            AppPage::Submenu => {
                proof {
                    self.tabs@.lemma_map_items(|tab: Tab<'a>| tab@);
                }
                self.tabs.prev_col();
            },
            AppPage::Toggle => {
                self.selected_submenu().on_zl();
                proof {
                    old(self).lemma_same_submenu();
                }
            },
            AppPage::Slider => {
                self.selected_submenu().on_zl();
                proof {
                    old(self).lemma_same_submenu();
                }
            },
            AppPage::Confirmation => {},
            AppPage::Close => {},
        }
    }

    /// On the page of the submenus, the right trigger moves on to the tab
    /// behind, whether or not there is one in that cell.
    fn on_zr(&mut self)
        ensures
            final(self).wf(),
            final(self)@ == old(self)@.on_zr(),
            final(self).ready() <==> old(self)@.tabs_ready() && final(self)@.tabs.selected() is Some,
    {
        match self.page {
            AppPage::Submenu => {
                proof {
                    self.tabs@.lemma_map_items(|tab: Tab<'a>| tab@);
                }
                self.tabs.next_col();
            },
            AppPage::Toggle => {
                self.selected_submenu().on_zr();
                proof {
                    old(self).lemma_same_submenu();
                }
            },
            AppPage::Slider => {
                self.selected_submenu().on_zr();
                proof {
                    old(self).lemma_same_submenu();
                }
            },
            AppPage::Confirmation => {},
            AppPage::Close => {},
        }
    }
}

} // verus!
