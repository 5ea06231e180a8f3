//! Program-image loading: raw bytes placed verbatim at the program start.
use vstd::prelude::*;

use crate::exec::Chip8;
use crate::state::MEMSIZE;
use crate::state::PROGRAM_START;
use crate::state::StateView;

verus! {

impl StateView {
    /// The program image occupies memory from the program start; everything
    /// else is untouched.
    pub open spec fn spec_load_rom(self, rom: Seq<u8>) -> StateView {
        StateView {
            mem: Seq::new(
                self.mem.len(),
                |k: int|
                    if PROGRAM_START <= k < PROGRAM_START + rom.len() {
                        rom[k - PROGRAM_START]
                    } else {
                        self.mem[k]
                    },
            ),
            ..self
        }
    }
}

impl Chip8 {
    /// Copy a program image into the program region of memory. An image
    /// longer than the space past the program start does not fit; callers
    /// must reject such an image as fatal before loading.
    pub fn load_rom_to_memory(&mut self, rom_bytes: &Vec<u8>)
        requires
            old(self)@.wf(),
            rom_bytes@.len() <= MEMSIZE - PROGRAM_START,
        ensures
            final(self)@ == old(self)@.spec_load_rom(rom_bytes@),
    {
        let ghost orig: StateView = self@;
        let mut i: usize = 0;
        while i < rom_bytes.len()
            invariant
                orig.wf(),
                rom_bytes@.len() <= MEMSIZE - PROGRAM_START,
                i <= rom_bytes@.len(),
                self@.mem.len() == orig.mem.len(),
                forall|k: int|
                    PROGRAM_START <= k < PROGRAM_START + i ==> self@.mem[k] == rom_bytes@[k
                        - PROGRAM_START],
                forall|k: int|
                    0 <= k < MEMSIZE && !(PROGRAM_START <= k < PROGRAM_START + i)
                        ==> self@.mem[k] == orig.mem[k],
                self@.regs == orig.regs,
                self@.fb == orig.fb,
                self@.keys == orig.keys,
                self@.halted_for_keypress == orig.halted_for_keypress,
                self@.halt_store_reg == orig.halt_store_reg,
                self@.op_time_ns == orig.op_time_ns,
                self@.timer_ns == orig.timer_ns,
            decreases rom_bytes@.len() - i,
        {
            let b = rom_bytes[i];
            self.state.main_memory[PROGRAM_START + i] = b;
            i += 1;
        }
        proof {
            assert(self@ =~= orig.spec_load_rom(rom_bytes@));
        }
    }
}

} // verus!
