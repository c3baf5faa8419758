//! A slider: a range between two handles that stays within fixed bounds.

use vstd::prelude::*;

verus! {

/// One of the two handles of a slider.
#[derive(Debug, Eq, PartialEq, Clone, Copy, Structural)]
pub enum SliderHandle {
    /// The handle at the lower end of the range.
    Min,
    /// The handle at the upper end of the range.
    Max,
}

/// A range `selected_min..=selected_max` within `abs_min..=abs_max`. One of
/// its handles is hovered; while that handle is selected, it can be moved.
#[derive(Debug, Eq, PartialEq, Clone, Copy, Structural)]
pub struct Slider {
    pub selected_min: u32,
    pub selected_max: u32,
    pub abs_min: u32,
    pub abs_max: u32,
    pub handle_hover: SliderHandle,
    pub handle_selected: bool,
}

impl Slider {
    /// The handles are in order and within the bounds.
    pub open spec fn wf(self) -> bool {
        self.abs_min <= self.selected_min <= self.selected_max <= self.abs_max
    }

    /// The slider with the other handle hovered, unless a handle is selected.
    pub open spec fn hover_switched(self) -> Slider {
        if self.handle_selected {
            self
        } else {
            Slider {
                handle_hover: match self.handle_hover {
                    SliderHandle::Min => SliderHandle::Max,
                    SliderHandle::Max => SliderHandle::Min,
                },
                ..self
            }
        }
    }

    /// The slider with the hovered handle selected if it was not, and
    /// released if it was.
    pub open spec fn select_toggled(self) -> Slider {
        Slider { handle_selected: !self.handle_selected, ..self }
    }

    /// The slider with no handle selected.
    pub open spec fn deselected(self) -> Slider {
        Slider { handle_selected: false, ..self }
    }

    /// The slider with the selected handle one step up: the lower handle at
    /// most up to the upper one, the upper handle at most up to `abs_max`.
    /// With no handle selected, the slider as it is.
    pub open spec fn incremented(self) -> Slider {
        if !self.handle_selected {
            self
        } else {
            match self.handle_hover {
                SliderHandle::Min => Slider {
                    selected_min: if self.selected_min < self.selected_max {
                        (self.selected_min + 1) as u32
                    } else {
                        self.selected_max
                    },
                    ..self
                },
                SliderHandle::Max => Slider {
                    selected_max: if self.selected_max < self.abs_max {
                        (self.selected_max + 1) as u32
                    } else {
                        self.abs_max
                    },
                    ..self
                },
            }
        }
    }

    /// The slider with the selected handle one step down: the lower handle
    /// at most down to `abs_min`, the upper handle at most down to the lower
    /// one. With no handle selected, the slider as it is.
    pub open spec fn decremented(self) -> Slider {
        if !self.handle_selected {
            self
        } else {
            match self.handle_hover {
                SliderHandle::Min => Slider {
                    selected_min: if self.selected_min > self.abs_min {
                        (self.selected_min - 1) as u32
                    } else {
                        self.abs_min
                    },
                    ..self
                },
                SliderHandle::Max => Slider {
                    selected_max: if self.selected_max > self.selected_min {
                        (self.selected_max - 1) as u32
                    } else {
                        self.selected_min
                    },
                    ..self
                },
            }
        }
    }

    /// The slider after a run of steps, `true` for a step up and `false` for
    /// a step down.
    pub open spec fn stepped(self, steps: Seq<bool>) -> Slider
        decreases steps.len(),
    {
        if steps.len() == 0 {
            self
        } else if steps.last() {
            self.stepped(steps.drop_last()).incremented()
        } else {
            self.stepped(steps.drop_last()).decremented()
        }
    }

    /// No run of steps up and down takes the handles out of order or out of
    /// the bounds.
    pub proof fn lemma_steps_keep_bounds(self, steps: Seq<bool>)
        requires
            self.wf(),
        ensures
            self.stepped(steps).wf(),
            self.stepped(steps).abs_min == self.abs_min,
            self.stepped(steps).abs_max == self.abs_max,
        decreases steps.len(),
    {
        if steps.len() > 0 {
            self.lemma_steps_keep_bounds(steps.drop_last());
        }
    }

    /// Hovers the other handle, unless a handle is selected.
    pub fn switch_hover(&mut self)
        ensures
            *final(self) == old(self).hover_switched(),
            old(self).wf() ==> final(self).wf(),
    {
        if !self.handle_selected {
            self.handle_hover = match self.handle_hover {
                SliderHandle::Min => SliderHandle::Max,
                SliderHandle::Max => SliderHandle::Min,
            };
        }
    }

    /// Selects the hovered handle, or releases it if it is selected.
    pub fn select_deselect(&mut self)
        ensures
            *final(self) == old(self).select_toggled(),
            old(self).wf() ==> final(self).wf(),
    {
        self.handle_selected = !self.handle_selected;
    }

    /// Releases the handle.
    pub fn deselect(&mut self)
        ensures
            *final(self) == old(self).deselected(),
            old(self).wf() ==> final(self).wf(),
    {
        self.handle_selected = false;
    }

    /// Whether a handle is selected.
    pub fn is_handle_selected(&self) -> (selected: bool)
        ensures
            selected == self.handle_selected,
    {
        self.handle_selected
    }

    /// Moves the selected handle one step up, as far as the other handle
    /// and the upper bound allow.
    pub fn increment_selected_slow(&mut self)
        ensures
            *final(self) == old(self).incremented(),
            old(self).wf() ==> final(self).wf(),
    {
        if self.handle_selected {
            match self.handle_hover {
                SliderHandle::Min => {
                    if self.selected_min < self.selected_max {
                        self.selected_min += 1;
                    } else {
                        self.selected_min = self.selected_max;
                    }
                },
                SliderHandle::Max => {
                    if self.selected_max < self.abs_max {
                        self.selected_max += 1;
                    } else {
                        self.selected_max = self.abs_max;
                    }
                },
            }
        }
    }

    /// Moves the selected handle one step down, as far as the other handle
    /// and the lower bound allow.
    pub fn decrement_selected_slow(&mut self)
        ensures
            *final(self) == old(self).decremented(),
            old(self).wf() ==> final(self).wf(),
    {
        if self.handle_selected {
            match self.handle_hover {
                SliderHandle::Min => {
                    if self.selected_min > self.abs_min {
                        self.selected_min -= 1;
                    } else {
                        self.selected_min = self.abs_min;
                    }
                },
                SliderHandle::Max => {
                    if self.selected_max > self.selected_min {
                        self.selected_max -= 1;
                    } else {
                        self.selected_max = self.selected_min;
                    }
                },
            }
        }
    }
}

} // verus!
