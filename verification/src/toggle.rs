//! A toggle: a small counter that starts over behind its largest value.

use vstd::prelude::*;

verus! {

/// A titled counter that runs from 0 to `max`.
#[derive(Debug, Eq, PartialEq, Clone, Copy)]
pub struct Toggle<'a> {
    pub title: &'a str,
    pub value: u8,
    pub max: u8,
}

impl<'a> Toggle<'a> {
    /// The value is within its range.
    pub open spec fn wf(self) -> bool {
        self.value <= self.max
    }

    /// The toggle one step further: the next value, or 0 behind `max`.
    pub open spec fn incremented(self) -> Toggle<'a> {
        Toggle { value: ((self.value + 1) % (self.max + 1)) as u8, ..self }
    }

    /// The toggle set back to 0.
    pub open spec fn cleared(self) -> Toggle<'a> {
        Toggle { value: 0, ..self }
    }

    /// The toggle with the value `value`, where the toggle can have it; the
    /// toggle as it is for a value beyond `max`.
    pub open spec fn assigned(self, value: u8) -> Toggle<'a> {
        if value <= self.max {
            Toggle { value, ..self }
        } else {
            self
        }
    }

    /// Counts one step further, from `max` back to 0.
    pub fn increment(&mut self)
        ensures
            *final(self) == old(self).incremented(),
            final(self).wf(),
    {
        let next: u16 = (self.value as u16 + 1) % (self.max as u16 + 1);
        self.value = next as u8;
    }

    /// Sets the value to `value`, unless that is beyond `max`.
    pub fn assign(&mut self, value: u8)
        ensures
            *final(self) == old(self).assigned(value),
            old(self).wf() ==> final(self).wf(),
    {
        if value <= self.max {
            self.value = value;
        }
    }

    /// Sets the value back to 0.
    pub fn reset(&mut self)
        ensures
            *final(self) == old(self).cleared(),
            final(self).wf(),
    {
        self.value = 0;
    }
}

} // verus!
