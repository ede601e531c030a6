//! A single 8-bit machine register, together with the flag that marks the
//! register as IO-observable (writes to such a register are surfaced to the
//! host by the surrounding system).

use vstd::prelude::*;

verus! {

/// The interface of a Rail register: an 8-bit cell plus an IO flag.
pub trait BaseRailRegister {
    /// The value currently held in the cell.
    spec fn spec_value(&self) -> u8;

    /// Whether writes to this register are IO-observable.
    spec fn spec_is_io(&self) -> bool;

    fn get_value(&self) -> (v: u8)
        ensures
            v == self.spec_value(),
    ;

    fn set_value(&mut self, value: u8)
        ensures
            final(self).spec_value() == value,
            final(self).spec_is_io() == old(self).spec_is_io(),
    ;

    fn set_is_io(&mut self, io: bool)
        ensures
            final(self).spec_is_io() == io,
            final(self).spec_value() == old(self).spec_value(),
    ;
}

#[derive(Copy, Clone)]
pub struct RailRegister {
    value: u8,
    is_io: bool,
}

impl RailRegister {
    pub fn new() -> (r: Self)
        ensures
            r.spec_value() == 0,
            !r.spec_is_io(),
    {
        Self { value: 0, is_io: false }
    }

    /// Whether writes to this register are IO-observable.
    pub fn is_io(&self) -> (b: bool)
        ensures
            b == self.spec_is_io(),
    {
        self.is_io
    }
}

impl BaseRailRegister for RailRegister {
    closed spec fn spec_value(&self) -> u8 {
        self.value
    }

    closed spec fn spec_is_io(&self) -> bool {
        self.is_io
    }

    fn get_value(&self) -> (v: u8) {
        self.value
    }

    fn set_value(&mut self, value: u8) {
        self.value = value;
    }

    fn set_is_io(&mut self, io: bool) {
        self.is_io = io;
    }
}

} // verus!
