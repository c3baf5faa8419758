use training_mod_tui_2::{
    App, AppPage, Input, Slider, SliderHandle, StatefulTable, SubMenu, SubMenuType, Tab, TableState,
    Toggle,
};

fn table(items: Vec<Vec<Option<u8>>>, rows: usize, cols: usize) -> StatefulTable<u8> {
    StatefulTable { state: TableState::new(), items, rows, cols }
}

fn slider() -> Slider {
    Slider {
        selected_min: 1,
        selected_max: 2,
        abs_min: 0,
        abs_max: 3,
        handle_hover: SliderHandle::Max,
        handle_selected: false,
    }
}

fn submenu(kind: SubMenuType, toggles: usize) -> SubMenu<'static> {
    let items = vec![Toggle { title: "toggle", value: 0, max: 1 }; toggles];
    SubMenu {
        title: "Title",
        id: "id",
        help_text: "Help",
        submenu_type: kind,
        toggles: StatefulTable::with_items(2, 2, items).unwrap(),
        slider: slider(),
    }
}

fn tab(submenus: Vec<SubMenu<'static>>) -> Tab<'static> {
    Tab { title: "Tab", id: "tab", submenus: StatefulTable::with_items(2, 2, submenus).unwrap() }
}

fn app(tabs: Vec<Tab<'static>>) -> App<'static> {
    App { tabs: StatefulTable::with_items(1, 2, tabs).unwrap(), page: AppPage::Submenu }
}

#[test]
fn tables_made_by_the_library_are_well_formed() {
    assert!(StatefulTable::<u8>::new(1, 1).is_wf());
    assert!(StatefulTable::<u8>::new(8, 4).is_wf());
    for n in 0..=6u8 {
        let mut t = StatefulTable::with_items(2, 3, (0..n).collect()).unwrap();
        assert!(t.is_wf());
        t.select(1, 2).unwrap();
        assert!(t.is_wf());
    }
}

#[test]
fn a_table_with_a_gap_is_not_well_formed() {
    assert!(table(vec![vec![Some(0), None], vec![Some(1), None]], 2, 2).is_wf() == false);
    assert!(table(vec![vec![None, Some(0)], vec![None, None]], 2, 2).is_wf() == false);
    assert!(table(vec![vec![Some(0), Some(1)], vec![None, Some(2)]], 2, 2).is_wf() == false);
    assert!(table(vec![vec![Some(0), Some(1)], vec![Some(2), None]], 2, 2).is_wf());
}

#[test]
fn a_table_of_another_shape_is_not_well_formed() {
    assert!(!table(vec![vec![None, None]], 2, 2).is_wf());
    assert!(!table(vec![vec![None, None], vec![None]], 2, 2).is_wf());
    assert!(!table(vec![vec![None, None], vec![None, None, None]], 2, 2).is_wf());
    assert!(!table(vec![], 0, 2).is_wf());
    assert!(!table(vec![vec![], vec![]], 2, 0).is_wf());
    assert!(!table(vec![], usize::MAX, 2).is_wf());
}

#[test]
fn a_cursor_outside_is_not_well_formed() {
    let mut t = StatefulTable::with_items(2, 2, vec![0u8, 1]).unwrap();
    t.state = TableState::new_with(2, 0);
    assert!(!t.is_wf());
    t.state = TableState::new_with(0, 2);
    assert!(!t.is_wf());
    t.state = TableState::new_with(1, 1);
    assert!(t.is_wf());
}

#[test]
fn submenu_is_ready_with_a_selected_toggle() {
    assert!(submenu(SubMenuType::ToggleSingle, 2).is_ready());
    assert!(submenu(SubMenuType::ToggleMultiple, 1).is_ready());
    assert!(!submenu(SubMenuType::ToggleSingle, 0).is_ready());
    assert!(!submenu(SubMenuType::ToggleMultiple, 0).is_ready());
    assert!(submenu(SubMenuType::Slider, 0).is_ready());
    assert!(submenu(SubMenuType::Empty, 0).is_ready());
    let mut s = submenu(SubMenuType::ToggleMultiple, 2);
    s.toggles.select(1, 0).unwrap();
    assert!(!s.is_ready());
    assert!(s.is_wf());
    s.toggles.rows = 3;
    assert!(!s.is_wf());
    assert!(!s.is_ready());
}

#[test]
fn tab_is_ready_with_ready_submenus_and_one_selected() {
    let good = tab(vec![submenu(SubMenuType::ToggleSingle, 2), submenu(SubMenuType::Slider, 0)]);
    assert!(good.is_wf());
    assert!(good.is_ready());
    assert!(good.is_storable());

    assert!(!tab(vec![]).is_ready());
    assert!(tab(vec![]).is_wf());
    assert!(tab(vec![]).is_storable());

    let unready = tab(vec![submenu(SubMenuType::Slider, 0), submenu(SubMenuType::ToggleSingle, 0)]);
    assert!(unready.is_wf());
    assert!(!unready.is_ready());

    let mut off = good.clone();
    off.submenus.select(1, 1).unwrap();
    assert!(off.is_wf());
    assert!(!off.is_ready());

    let mut broken = good.clone();
    broken.submenus.get_mut(0, 1).unwrap().toggles.cols = 5;
    assert!(!broken.is_wf());
    assert!(!broken.is_ready());

    let unstorable = tab(vec![submenu(SubMenuType::Slider, 0), submenu(SubMenuType::Empty, 0)]);
    assert!(unstorable.is_ready());
    assert!(!unstorable.is_storable());
}

#[test]
fn app_is_ready_with_ready_tabs_and_one_selected() {
    let good = tab(vec![submenu(SubMenuType::ToggleSingle, 2)]);
    assert!(app(vec![good.clone(), good.clone()]).is_ready());
    assert!(app(vec![good.clone()]).is_ready());
    assert!(app(vec![good.clone()]).is_wf());
    assert!(app(vec![good.clone()]).is_storable());
    assert!(!app(vec![]).is_ready());
    assert!(app(vec![]).is_wf());
    assert!(app(vec![]).is_storable());
    assert!(!App::new(1, 15).is_ready());
    assert!(App::new(1, 15).is_wf());

    let mut off = app(vec![good.clone()]);
    off.tabs.select(0, 1).unwrap();
    assert!(off.is_wf());
    assert!(!off.is_ready());

    assert!(!app(vec![good.clone(), tab(vec![])]).is_ready());
    assert!(app(vec![good.clone(), tab(vec![])]).is_wf());

    let unstorable = tab(vec![submenu(SubMenuType::Empty, 0)]);
    assert!(app(vec![good.clone(), unstorable.clone()]).is_ready());
    assert!(!app(vec![good.clone(), unstorable]).is_storable());

    let mut broken = app(vec![good.clone(), good]);
    broken.tabs.get_mut(0, 1).unwrap().submenus.items.pop();
    assert!(!broken.is_wf());
    assert!(!broken.is_ready());
}

const INPUTS: [Input; 13] = [
    Input::A,
    Input::B,
    Input::X,
    Input::Y,
    Input::Up,
    Input::Down,
    Input::Left,
    Input::Right,
    Input::Start,
    Input::L,
    Input::R,
    Input::Zl,
    Input::Zr,
];

#[test]
fn directions_are_the_four_directions() {
    let directions: Vec<Input> = INPUTS.iter().copied().filter(|input| input.direction()).collect();
    assert_eq!(directions, vec![Input::Up, Input::Down, Input::Left, Input::Right]);
}

#[test]
fn what_is_ready_takes_every_input() {
    let s = submenu(SubMenuType::ToggleSingle, 2);
    let t = tab(vec![s.clone(), submenu(SubMenuType::Slider, 0)]);
    for page in [
        AppPage::Submenu,
        AppPage::Toggle,
        AppPage::Slider,
        AppPage::Confirmation,
        AppPage::Close,
    ] {
        let mut a = app(vec![t.clone()]);
        a.page = page;
        assert!(a.is_ready());
        for input in INPUTS {
            assert!(s.can_take(input));
            assert!(t.can_take(input));
            assert!(a.can_take(input));
        }
    }
}

#[test]
fn submenu_takes_all_but_confirm_without_a_selected_toggle() {
    let s = submenu(SubMenuType::ToggleMultiple, 0);
    for input in INPUTS {
        assert_eq!(s.can_take(input), input != Input::A);
    }
    for kind in [SubMenuType::Slider, SubMenuType::Empty] {
        let s = submenu(kind, 0);
        for input in INPUTS {
            assert!(s.can_take(input));
        }
    }
    let mut broken = submenu(SubMenuType::Slider, 0);
    broken.toggles.cols = 7;
    for input in INPUTS {
        assert!(!broken.can_take(input));
    }
}

#[test]
fn tab_takes_directions_without_a_selected_submenu() {
    let none = tab(vec![]);
    for input in INPUTS {
        assert_eq!(none.can_take(input), input.direction());
    }
    let unready = tab(vec![submenu(SubMenuType::ToggleSingle, 0)]);
    for input in INPUTS {
        assert_eq!(unready.can_take(input), input != Input::A);
    }
    let mut broken = tab(vec![submenu(SubMenuType::Slider, 0), submenu(SubMenuType::Slider, 0)]);
    broken.submenus.get_mut(0, 1).unwrap().toggles.rows = 0;
    for input in INPUTS {
        assert!(!broken.can_take(input));
    }
}

#[test]
fn app_takes_by_page_what_looks_nothing_up() {
    let good = tab(vec![submenu(SubMenuType::ToggleSingle, 2)]);
    let mut off = app(vec![good.clone()]);
    off.tabs.select(0, 1).unwrap();
    for input in INPUTS {
        off.page = AppPage::Submenu;
        assert_eq!(
            off.can_take(input),
            input == Input::B || input == Input::Zl || input == Input::Zr
        );
        off.page = AppPage::Toggle;
        assert_eq!(off.can_take(input), input == Input::B);
        off.page = AppPage::Slider;
        assert!(!off.can_take(input));
        off.page = AppPage::Confirmation;
        assert!(off.can_take(input));
        off.page = AppPage::Close;
        assert!(off.can_take(input));
    }

    let mut no_submenu = app(vec![tab(vec![])]);
    for input in INPUTS {
        no_submenu.page = AppPage::Submenu;
        assert_eq!(
            no_submenu.can_take(input),
            input.direction() || input == Input::B || input == Input::Zl || input == Input::Zr
        );
        no_submenu.page = AppPage::Toggle;
        assert_eq!(no_submenu.can_take(input), input == Input::B);
        no_submenu.page = AppPage::Slider;
        assert!(!no_submenu.can_take(input));
    }

    let mut no_toggle = app(vec![tab(vec![submenu(SubMenuType::ToggleMultiple, 0)])]);
    for input in INPUTS {
        for page in [AppPage::Submenu, AppPage::Toggle, AppPage::Slider] {
            no_toggle.page = page;
            assert_eq!(no_toggle.can_take(input), input != Input::A);
        }
    }

    let mut broken = app(vec![good.clone(), good]);
    broken.tabs.get_mut(0, 1).unwrap().submenus.items.pop();
    for page in [AppPage::Submenu, AppPage::Close] {
        broken.page = page;
        for input in INPUTS {
            assert!(!broken.can_take(input));
        }
    }
}
