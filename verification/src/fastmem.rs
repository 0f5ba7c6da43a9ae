//! Fast memory access with a software paging.
//!
//! The address space is split in pages: the page of an address is `addr >> page_shift` and its
//! offset in the page is `addr & offset_mask`. A page either lies in the fast memory, or is absent
//! and its addresses are accessed through the slow memory. Reading and writing have a page table
//! each, so that a page can be read-only, or read from one place and written to another.

use vstd::prelude::*;
use crate::memory_access::{MemoryAccess, spec_wrapping_add, wrapping_add};

verus! {

/// Fast memory access with a software paging.
///
/// The pages are places in `memory`, given by the index of their first byte. An absent page, or a
/// page whose access would go past the end of `memory`, is accessed through `slow_memory`.
#[allow(non_camel_case_types)]
pub struct m68000_fastmem_t<S: MemoryAccess> {
    /// The bytes of the pages.
    pub memory: Vec<u8>,
    /// For each page index, the index in `memory` of the first byte of the page read, if any.
    pub page_read: Vec<Option<usize>>,
    /// For each page index, the index in `memory` of the first byte of the page written, if any.
    pub page_write: Vec<Option<usize>>,
    /// Shift applied to the address to get its page index.
    pub page_shift: u32,
    /// Mask applied to the address to get its offset in its page.
    pub offset_mask: u32,
    /// The memory of the addresses whose page is absent.
    pub slow_memory: S,
}

/// The page index of an address.
pub open spec fn spec_page_index(addr: u32, shift: u32) -> int {
    if shift < 32 { (addr >> shift) as int } else { 0 }
}

/// The first byte in the fast memory of the page of an address in the page table `pages`, if the
/// page is there.
pub open spec fn spec_page_base(pages: Seq<Option<usize>>, addr: u32, shift: u32) -> Option<usize> {
    let p = spec_page_index(addr, shift);
    if 0 <= p < pages.len() { pages[p] } else { None }
}

/// The index in the fast memory of the `n` bytes at the given address, in the page table `pages`
/// over a fast memory of `len` bytes: none when the page is absent or the bytes go past the end.
pub open spec fn spec_fast_index(pages: Seq<Option<usize>>, len: int, addr: u32, shift: u32, mask: u32, n: int) -> Option<int> {
    match spec_page_base(pages, addr, shift) {
        Some(base) => {
            let i = base + (addr & mask) as int;
            if i + n <= len { Some(i) } else { None }
        },
        None => None,
    }
}

/// The indexes in the fast memory of the high and low words of the long at the given address: both
/// pages must be there; when they are the same page, the four bytes follow each other from the
/// offset of the address.
pub open spec fn spec_long_index(pages: Seq<Option<usize>>, len: int, addr: u32, shift: u32, mask: u32) -> Option<(int, int)> {
    let addr2 = spec_wrapping_add(addr, 2);
    match (spec_page_base(pages, addr, shift), spec_page_base(pages, addr2, shift)) {
        (Some(b1), Some(b2)) => if b1 == b2 {
            let i = b1 + (addr & mask) as int;
            if i + 4 <= len { Some((i, i + 2)) } else { None }
        } else {
            match (spec_fast_index(pages, len, addr, shift, mask, 2), spec_fast_index(pages, len, addr2, shift, mask, 2)) {
                (Some(i), Some(j)) => Some((i, j)),
                _ => None,
            }
        },
        _ => None,
    }
}

impl<S: MemoryAccess> m68000_fastmem_t<S> {
    /// The index in the fast memory of the `n` bytes read at the given address, if they are there.
    pub open spec fn read_index(&self, addr: u32, n: int) -> Option<int> {
        spec_fast_index(self.page_read@, self.memory@.len() as int, addr, self.page_shift, self.offset_mask, n)
    }

    /// The index in the fast memory of the `n` bytes written at the given address, if they are there.
    pub open spec fn write_index(&self, addr: u32, n: int) -> Option<int> {
        spec_fast_index(self.page_write@, self.memory@.len() as int, addr, self.page_shift, self.offset_mask, n)
    }

    /// The indexes in the fast memory of the words of the long read at the given address.
    pub open spec fn read_long_index(&self, addr: u32) -> Option<(int, int)> {
        spec_long_index(self.page_read@, self.memory@.len() as int, addr, self.page_shift, self.offset_mask)
    }

    /// The indexes in the fast memory of the words of the long written at the given address.
    pub open spec fn write_long_index(&self, addr: u32) -> Option<(int, int)> {
        spec_long_index(self.page_write@, self.memory@.len() as int, addr, self.page_shift, self.offset_mask)
    }

    /// The big-endian word of the fast memory at the given index.
    pub open spec fn word_at(&self, i: int) -> u16 {
        (self.memory@[i] as int * 0x100 + self.memory@[i + 1] as int) as u16
    }

    /// Both have the same page tables.
    pub open spec fn same_tables(&self, other: &Self) -> bool {
        &&& self.page_read@ == other.page_read@
        &&& self.page_write@ == other.page_write@
        &&& self.page_shift == other.page_shift
        &&& self.offset_mask == other.offset_mask
    }

    /// Both hold the same fast memory and page tables.
    pub open spec fn same_pages(&self, other: &Self) -> bool {
        &&& self.memory@ == other.memory@
        &&& self.same_tables(other)
    }

    /// Returns the first byte in the fast memory of the page of an address in the page table.
    fn page_base(&self, pages: &Vec<Option<usize>>, addr: u32) -> (r: Option<usize>)
        ensures
            r == spec_page_base(pages@, addr, self.page_shift),
    {
        let p: u32 = if self.page_shift < 32 { addr >> self.page_shift } else { 0 };
        if (p as u64) < (pages.len() as u64) {
            pages[p as usize]
        } else {
            None
        }
    }

    /// Returns the index in the fast memory of the `n` bytes at the given address in the page table.
    fn index(&self, pages: &Vec<Option<usize>>, addr: u32, n: usize) -> (r: Option<usize>)
        requires
            n <= 4,
        ensures
            r matches Some(i) ==> spec_fast_index(pages@, self.memory@.len() as int, addr, self.page_shift, self.offset_mask, n as int) == Some(i as int)
                && i + n <= self.memory@.len() && self.memory@.len() <= usize::MAX,
            r is None ==> spec_fast_index(pages@, self.memory@.len() as int, addr, self.page_shift, self.offset_mask, n as int) is None,
    {
        let len = self.memory.len();
        match self.page_base(pages, addr) {
            Some(base) => {
                let offset = addr & self.offset_mask;
                if base <= len && (offset as u64) + (n as u64) <= ((len - base) as u64) {
                    Some(base + offset as usize)
                } else {
                    None
                }
            },
            None => None,
        }
    }

    /// Returns the indexes in the fast memory of the words of the long at the given address in the page table.
    fn long_index(&self, pages: &Vec<Option<usize>>, addr: u32) -> (r: Option<(usize, usize)>)
        ensures
            r matches Some((i, j)) ==> spec_long_index(pages@, self.memory@.len() as int, addr, self.page_shift, self.offset_mask) == Some((i as int, j as int))
                && i + 2 <= self.memory@.len() && j + 2 <= self.memory@.len() && self.memory@.len() <= usize::MAX,
            r is None ==> spec_long_index(pages@, self.memory@.len() as int, addr, self.page_shift, self.offset_mask) is None,
    {
        let addr2 = wrapping_add(addr, 2);
        let len = self.memory.len();
        match (self.page_base(pages, addr), self.page_base(pages, addr2)) {
            (Some(b1), Some(b2)) => if b1 == b2 {
                match self.index(pages, addr, 4) {
                    Some(i) => {
                        proof {
                            assert(i + 4 <= len);
                        }
                        Some((i, i + 2))
                    },
                    None => None,
                }
            } else {
                match (self.index(pages, addr, 2), self.index(pages, addr2, 2)) {
                    (Some(i), Some(j)) => Some((i, j)),
                    _ => None,
                }
            },
            _ => None,
        }
    }
}

impl<S: MemoryAccess> MemoryAccess for m68000_fastmem_t<S> {
    fn get_byte(&mut self, addr: u32) -> (r: Option<u8>)
        ensures
            final(self).same_pages(old(self)),
            old(self).read_index(addr, 1) matches Some(i) ==> r == Some(old(self).memory@[i]) && *final(self) == *old(self),
    {
        match self.index(&self.page_read, addr, 1) {
            Some(i) => Some(self.memory[i]),
            None => self.slow_memory.get_byte(addr),
        }
    }

    fn get_word(&mut self, addr: u32) -> (r: Option<u16>)
        ensures
            final(self).same_pages(old(self)),
            old(self).read_index(addr, 2) matches Some(i) ==> r == Some(old(self).word_at(i)) && *final(self) == *old(self),
    {
        match self.index(&self.page_read, addr, 2) {
            Some(i) => Some((self.memory[i] as u16) * 0x100 + self.memory[i + 1] as u16),
            None => self.slow_memory.get_word(addr),
        }
    }

    fn get_long(&mut self, addr: u32) -> (r: Option<u32>)
        ensures
            final(self).same_pages(old(self)),
            old(self).read_long_index(addr) matches Some((i, j)) ==> *final(self) == *old(self)
                && r == Some((old(self).word_at(i) as int * 0x1_0000 + old(self).word_at(j) as int) as u32),
    {
        match self.long_index(&self.page_read, addr) {
            Some((i, j)) => {
                let high = (self.memory[i] as u16) * 0x100 + self.memory[i + 1] as u16;
                let low = (self.memory[j] as u16) * 0x100 + self.memory[j + 1] as u16;
                Some((high as u32) * 0x1_0000 + low as u32)
            },
            None => self.slow_memory.get_long(addr),
        }
    }

    fn set_byte(&mut self, addr: u32, value: u8) -> (r: Option<()>)
        ensures
            old(self).write_index(addr, 1) matches Some(i) ==> r == Some(()) && final(self).slow_memory == old(self).slow_memory
                && final(self).same_tables(old(self))
                && final(self).memory@ == old(self).memory@.update(i, value),
            old(self).write_index(addr, 1) is None ==> final(self).same_pages(old(self)),
    {
        match self.index(&self.page_write, addr, 1) {
            Some(i) => {
                self.memory.set(i, value);
                Some(())
            },
            None => self.slow_memory.set_byte(addr, value),
        }
    }

    fn set_word(&mut self, addr: u32, value: u16) -> (r: Option<()>)
        ensures
            old(self).write_index(addr, 2) matches Some(i) ==> r == Some(()) && final(self).slow_memory == old(self).slow_memory
                && final(self).same_tables(old(self))
                && final(self).memory@ == old(self).memory@.update(i, (value / 0x100) as u8).update(i + 1, (value % 0x100) as u8),
            old(self).write_index(addr, 2) is None ==> final(self).same_pages(old(self)),
    {
        match self.index(&self.page_write, addr, 2) {
            Some(i) => {
                self.memory.set(i, (value / 0x100) as u8);
                self.memory.set(i + 1, (value % 0x100) as u8);
                Some(())
            },
            None => self.slow_memory.set_word(addr, value),
        }
    }

    fn set_long(&mut self, addr: u32, value: u32) -> (r: Option<()>)
        ensures
            old(self).write_long_index(addr) matches Some((i, j)) ==> r == Some(()) && final(self).slow_memory == old(self).slow_memory
                && final(self).same_tables(old(self))
                && final(self).memory@ == old(self).memory@
                    .update(i, (value / 0x100_0000) as u8).update(i + 1, (value / 0x1_0000 % 0x100) as u8)
                    .update(j, (value / 0x100 % 0x100) as u8).update(j + 1, (value % 0x100) as u8),
            old(self).write_long_index(addr) is None ==> final(self).same_pages(old(self)),
    {
        match self.long_index(&self.page_write, addr) {
            Some((i, j)) => {
                self.memory.set(i, (value / 0x100_0000) as u8);
                self.memory.set(i + 1, (value / 0x1_0000 % 0x100) as u8);
                self.memory.set(j, (value / 0x100 % 0x100) as u8);
                self.memory.set(j + 1, (value % 0x100) as u8);
                Some(())
            },
            None => self.slow_memory.set_long(addr, value),
        }
    }

    fn reset_instruction(&mut self)
        ensures
            final(self).same_pages(old(self)),
    {
        self.slow_memory.reset_instruction()
    }
}

} // verus!
