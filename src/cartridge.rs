use vstd::prelude::*;

verus! {

/// Room for a program: memory from 0x200 to the end of the 4 KiB.
pub const ROM_CAPACITY: usize = 3584;

/// A program image: up to `ROM_CAPACITY` bytes, zero-padded, and how many
/// of them came from the source.
pub struct CartridgeModule {
    pub rom: [u8; ROM_CAPACITY],
    pub size: usize,
}

impl CartridgeModule {
    /// Takes the first `ROM_CAPACITY` bytes of `data`; the rest is dropped.
    pub fn new(data: &[u8]) -> (r: CartridgeModule)
        ensures
            r.size == if data@.len() < ROM_CAPACITY { data@.len() as int } else { ROM_CAPACITY as int },
            forall|k: int| 0 <= k < r.size ==> r.rom@[k] == data@[k],
            forall|k: int| r.size <= k < ROM_CAPACITY ==> r.rom@[k] == 0,
    {
        let mut rom = [0u8; ROM_CAPACITY];
        let size: usize = if data.len() < ROM_CAPACITY { data.len() } else { ROM_CAPACITY };
        let mut k: usize = 0;
        while k < size
            invariant
                k <= size,
                size <= ROM_CAPACITY,
                size <= data@.len(),
                forall|j: int| 0 <= j < k ==> rom@[j] == data@[j],
                forall|j: int| k <= j < ROM_CAPACITY ==> rom@[j] == 0,
            decreases size - k,
        {
            rom[k] = data[k];
            k = k + 1;
        }
        CartridgeModule { rom, size }
    }
}

} // verus!
