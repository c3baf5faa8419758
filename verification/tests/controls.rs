use training_mod_tui_2::{Slider, SliderHandle, Toggle};

fn slider(min: u32, max: u32, hover: SliderHandle, selected: bool) -> Slider {
    Slider {
        selected_min: min,
        selected_max: max,
        abs_min: 0,
        abs_max: 10,
        handle_hover: hover,
        handle_selected: selected,
    }
}

#[test]
fn toggle_counts_up_and_wraps() {
    let mut t = Toggle { title: "Shield", value: 0, max: 2 };
    t.increment();
    assert_eq!(t.value, 1);
    t.increment();
    assert_eq!(t.value, 2);
    t.increment();
    assert_eq!(t.value, 0);
    assert_eq!(t.title, "Shield");
    assert_eq!(t.max, 2);
}

#[test]
fn toggle_with_max_zero_stays_zero() {
    let mut t = Toggle { title: "Off", value: 0, max: 0 };
    t.increment();
    assert_eq!(t.value, 0);
}

#[test]
fn toggle_with_largest_max_wraps() {
    let mut t = Toggle { title: "All", value: 254, max: 255 };
    t.increment();
    assert_eq!(t.value, 255);
    t.increment();
    assert_eq!(t.value, 0);
}

#[test]
fn toggle_reset() {
    let mut t = Toggle { title: "Shield", value: 2, max: 2 };
    t.reset();
    assert_eq!(t, Toggle { title: "Shield", value: 0, max: 2 });
}

#[test]
fn toggle_assign_within_range_only() {
    let mut t = Toggle { title: "Shield", value: 1, max: 2 };
    t.assign(2);
    assert_eq!(t.value, 2);
    t.assign(3);
    assert_eq!(t.value, 2);
    t.assign(0);
    assert_eq!(t.value, 0);
}

#[test]
fn slider_switch_hover() {
    let mut s = slider(2, 5, SliderHandle::Min, false);
    s.switch_hover();
    assert_eq!(s.handle_hover, SliderHandle::Max);
    s.switch_hover();
    assert_eq!(s.handle_hover, SliderHandle::Min);
}

#[test]
fn slider_switch_hover_with_selected_handle_does_nothing() {
    let mut s = slider(2, 5, SliderHandle::Min, true);
    s.switch_hover();
    assert_eq!(s, slider(2, 5, SliderHandle::Min, true));
}

#[test]
fn slider_select_and_deselect() {
    let mut s = slider(2, 5, SliderHandle::Max, false);
    assert!(!s.is_handle_selected());
    s.select_deselect();
    assert!(s.is_handle_selected());
    s.select_deselect();
    assert!(!s.is_handle_selected());
    s.select_deselect();
    s.deselect();
    assert!(!s.is_handle_selected());
    s.deselect();
    assert_eq!(s, slider(2, 5, SliderHandle::Max, false));
}

#[test]
fn slider_lower_handle_moves_between_bound_and_upper_handle() {
    let mut s = slider(4, 5, SliderHandle::Min, true);
    s.increment_selected_slow();
    assert_eq!((s.selected_min, s.selected_max), (5, 5));
    s.increment_selected_slow();
    assert_eq!((s.selected_min, s.selected_max), (5, 5));
    for _ in 0..5 {
        s.decrement_selected_slow();
    }
    assert_eq!((s.selected_min, s.selected_max), (0, 5));
    s.decrement_selected_slow();
    assert_eq!((s.selected_min, s.selected_max), (0, 5));
}

#[test]
fn slider_upper_handle_moves_between_lower_handle_and_bound() {
    let mut s = slider(4, 9, SliderHandle::Max, true);
    s.increment_selected_slow();
    assert_eq!((s.selected_min, s.selected_max), (4, 10));
    s.increment_selected_slow();
    assert_eq!((s.selected_min, s.selected_max), (4, 10));
    for _ in 0..6 {
        s.decrement_selected_slow();
    }
    assert_eq!((s.selected_min, s.selected_max), (4, 4));
    s.decrement_selected_slow();
    assert_eq!((s.selected_min, s.selected_max), (4, 4));
}

#[test]
fn slider_without_selected_handle_does_not_move() {
    let mut s = slider(4, 9, SliderHandle::Max, false);
    s.increment_selected_slow();
    s.decrement_selected_slow();
    s.decrement_selected_slow();
    assert_eq!(s, slider(4, 9, SliderHandle::Max, false));
}

#[test]
fn slider_at_the_largest_bound_does_not_overflow() {
    let mut s = Slider {
        selected_min: u32::MAX,
        selected_max: u32::MAX,
        abs_min: 0,
        abs_max: u32::MAX,
        handle_hover: SliderHandle::Max,
        handle_selected: true,
    };
    s.increment_selected_slow();
    assert_eq!(s.selected_max, u32::MAX);
    s.handle_hover = SliderHandle::Min;
    s.increment_selected_slow();
    assert_eq!(s.selected_min, u32::MAX);
}

#[test]
fn slider_stays_within_bounds_over_any_run_of_steps() {
    for hover in [SliderHandle::Min, SliderHandle::Max] {
        for pattern in 0u32..256 {
            let mut s = Slider {
                selected_min: 3,
                selected_max: 4,
                abs_min: 2,
                abs_max: 6,
                handle_hover: hover,
                handle_selected: true,
            };
            for bit in 0..8 {
                if pattern & (1 << bit) != 0 {
                    s.increment_selected_slow();
                } else {
                    s.decrement_selected_slow();
                }
                assert!(s.abs_min <= s.selected_min);
                assert!(s.selected_min <= s.selected_max);
                assert!(s.selected_max <= s.abs_max);
            }
        }
    }
}
