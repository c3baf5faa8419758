//! A navigable menu model for a terminal interface: a grid of selectable
//! items with a cursor, toggles, a slider, and the submenus, tabs and app
//! that route input to them.

pub mod app;
pub mod grid;
pub mod settings;
pub mod slider;
pub mod submenu;
pub mod tab;
pub mod table;
pub mod toggle;

pub use crate::app::{App, AppPage, AppView};
pub use crate::grid::Grid;
pub use crate::settings::{parse_settings, SettingsError};
pub use crate::slider::{Slider, SliderHandle};
pub use crate::submenu::{SubMenu, SubMenuType, SubMenuValue, SubMenuValueView, SubMenuView};
pub use crate::tab::{Tab, TabView};
pub use crate::table::{StatefulTable, TableError, TableState};
pub use crate::toggle::Toggle;

use vstd::prelude::*;

verus! {

/// The number of rows in which the tabs are laid out.
pub const NX_TAB_ROWS: usize = 1;

/// The number of columns in which the tabs are laid out.
pub const NX_TAB_COLUMNS: usize = 15;

/// The number of rows in which the submenus of a tab are laid out.
pub const NX_SUBMENU_ROWS: usize = 8;

/// The number of columns in which the submenus of a tab are laid out.
pub const NX_SUBMENU_COLUMNS: usize = 4;

/// One of the thirteen signals of a controller.
#[derive(Debug, Eq, PartialEq, Clone, Copy, Structural)]
pub enum Input {
    /// The confirm button.
    A,
    /// The cancel button.
    B,
    /// The first auxiliary button.
    X,
    /// The second auxiliary button.
    Y,
    /// The direction up.
    Up,
    /// The direction down.
    Down,
    /// The direction left.
    Left,
    /// The direction right.
    Right,
    /// The start button.
    Start,
    /// The left shoulder button.
    L,
    /// The right shoulder button.
    R,
    /// The left trigger.
    Zl,
    /// The right trigger.
    Zr,
}

impl Input {
    /// Whether the signal is one of the four directions.
    pub open spec fn is_direction(self) -> bool {
        self == Input::Up || self == Input::Down || self == Input::Left || self == Input::Right
    }

    /// Whether the signal is one of the four directions.
    pub fn direction(self) -> (yes: bool)
        ensures
            yes == self.is_direction(),
    {
        match self {
            Input::Up => true,
            Input::Down => true,
            Input::Left => true,
            Input::Right => true,
            _ => false,
        }
    }
}

/// What takes the input of a controller: one handler for each of its
/// thirteen signals.
pub trait InputControl {
    /// Whether the value can take `input`: it is well formed, and whatever
    /// this input looks up in it is there.
    spec fn takes(&self, input: Input) -> bool;

    /// The confirm button.
    fn on_a(&mut self)
        requires
            old(self).takes(Input::A),
    ;

    /// The cancel button.
    fn on_b(&mut self)
        requires
            old(self).takes(Input::B),
    ;

    /// The first auxiliary button.
    fn on_x(&mut self)
        requires
            old(self).takes(Input::X),
    ;

    /// The second auxiliary button.
    fn on_y(&mut self)
        requires
            old(self).takes(Input::Y),
    ;

    /// The direction up.
    fn on_up(&mut self)
        requires
            old(self).takes(Input::Up),
    ;

    /// The direction down.
    fn on_down(&mut self)
        requires
            old(self).takes(Input::Down),
    ;

    /// The direction left.
    fn on_left(&mut self)
        requires
            old(self).takes(Input::Left),
    ;

    /// The direction right.
    fn on_right(&mut self)
        requires
            old(self).takes(Input::Right),
    ;

    /// The start button.
    fn on_start(&mut self)
        requires
            old(self).takes(Input::Start),
    ;

    /// The left shoulder button.
    fn on_l(&mut self)
        requires
            old(self).takes(Input::L),
    ;

    /// The right shoulder button.
    fn on_r(&mut self)
        requires
            old(self).takes(Input::R),
    ;

    /// The left trigger.
    fn on_zl(&mut self)
        requires
            old(self).takes(Input::Zl),
    ;

    /// The right trigger.
    fn on_zr(&mut self)
        requires
            old(self).takes(Input::Zr),
    ;
}

} // verus!
