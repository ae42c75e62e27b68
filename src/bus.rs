use crate::dram::{initial_memory, mem_load, mem_store, Dram, DRAM_BASE, DRAM_SIZE};
use vstd::prelude::*;

verus! {

/// Routes each access by address; today main memory is the one region.
pub struct Bus {
    pub dram: Dram,
}

impl View for Bus {
    type V = Seq<u8>;

    open spec fn view(&self) -> Seq<u8> {
        self.dram@
    }
}

impl Bus {
    /// The memory behind the bus is well formed.
    pub open spec fn wf(&self) -> bool {
        self.dram.wf()
    }

    /// A bus whose memory holds `code` at `DRAM_BASE`.
    pub fn new(code: Vec<u8>) -> (r: Self)
        requires
            code@.len() <= DRAM_SIZE,
        ensures
            r.wf(),
            r@ == initial_memory(code@),
    {
        Bus { dram: Dram::new(code) }
    }

    /// Loads `size` bits at `addr`; an address outside every region fails.
    pub fn load(&self, addr: u64, size: u64) -> (r: Result<u64, ()>)
        requires
            self.wf(),
        ensures
            r is Ok <==> mem_load(self@, addr, size) is Some,
            r is Ok ==> r->Ok_0 == mem_load(self@, addr, size)->Some_0,
    {
        if DRAM_BASE <= addr && addr < DRAM_BASE + DRAM_SIZE {
            self.dram.load(addr, size)
        } else {
            Err(())
        }
    }

    /// Stores the low `size` bits of `value` at `addr`; an address outside
    /// every region fails and changes nothing.
    pub fn store(&mut self, addr: u64, size: u64, value: u64) -> (r: Result<(), ()>)
        requires
            old(self).wf(),
        ensures
            final(self).wf(),
            r is Ok <==> mem_store(old(self)@, addr, size, value) is Some,
            r is Ok ==> final(self)@ == mem_store(old(self)@, addr, size, value)->Some_0,
            r is Err ==> final(self)@ == old(self)@,
    {
        if DRAM_BASE <= addr && addr < DRAM_BASE + DRAM_SIZE {
            self.dram.store(addr, size, value)
        } else {
            Err(())
        }
    }
}

} // verus!
