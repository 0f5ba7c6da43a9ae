//! Memory access-related traits and structs.

use vstd::prelude::*;
use crate::{CpuDetails, M68000, Registers};
use crate::addressing_modes::{AddressingMode, BriefExtensionWord, EffectiveAddress, spec_word_as_i16, word_as_i16};
use crate::arithmetic::{spec_signed, spec_wrap, spec_fits, spec_merge, merge, low, signed};
use crate::exception::{ACCESS_ERROR, ADDRESS_ERROR};
use crate::instruction::{Size, spec_size_bytes};

verus! {

/// The address following `addr` by `n` bytes, wrapping around the 32-bits address space.
pub open spec fn spec_wrapping_add(addr: u32, n: u32) -> u32 {
    ((addr as int + n as int) % 0x1_0000_0000) as u32
}

/// Adds `n` to `addr`, wrapping around the 32-bits address space.
pub fn wrapping_add(addr: u32, n: u32) -> (r: u32)
    ensures
        r == spec_wrapping_add(addr, n),
{
    ((addr as u64 + n as u64) % 0x1_0000_0000) as u32
}

/// Subtracts `n` from `addr`, wrapping around the 32-bits address space.
pub fn wrapping_sub(addr: u32, n: u32) -> (r: u32)
    ensures
        r == ((addr as int - n as int + 0x1_0000_0000) % 0x1_0000_0000) as u32,
{
    ((addr as u64 + 0x1_0000_0000 - n as u64) % 0x1_0000_0000) as u32
}

/// The big-endian long made of the given high and low words.
pub fn long_from_words(high: u16, low: u16) -> (r: u32)
    ensures
        r == high as int * 0x1_0000 + low as int,
{
    (high as u32) * 0x1_0000 + low as u32
}

/// The high and low words of a long.
pub fn words_of_long(value: u32) -> (r: (u16, u16))
    ensures
        r.0 == value / 0x1_0000,
        r.1 == value % 0x1_0000,
{
    ((value / 0x1_0000) as u16, (value % 0x1_0000) as u16)
}

/// The trait to be implemented by the memory system that will be used by the core.
///
/// If the read is successful, return a `Some()` with the requested value.
/// If the address of the value asked is not in the memory map of the system, return `None`.
/// This will trigger an Access (Bus) Error, which will interrupt the current instruction processing.
///
/// For word and long accesses, the address is guaranted to be even (16-bits word aligned),
/// as odd addresses are detected by the library and automatically trigger an Address Error.
///
/// The trait is implemented for `[u8]` and `[u16]`, interpreted as big-endian.
pub trait MemoryAccess {
    /// Returns a 8-bits integer from the given address.
    fn get_byte(&mut self, addr: u32) -> Option<u8>;

    /// Returns a big-endian 16-bits integer from the given address.
    fn get_word(&mut self, addr: u32) -> Option<u16>;

    /// Returns a big-endian 32-bits integer from the given address.
    ///
    /// The default implementation is doing 2 calls to [Self::get_word] with the high and low words.
    fn get_long(&mut self, addr: u32) -> Option<u32> {
        let high = self.get_word(addr)?;
        let low = self.get_word(wrapping_add(addr, 2))?;
        Some(long_from_words(high, low))
    }

    /// Stores the given 8-bits value at the given address.
    fn set_byte(&mut self, addr: u32, value: u8) -> Option<()>;

    /// Stores the given 16-bits value at the given address, in big-endian format.
    fn set_word(&mut self, addr: u32, value: u16) -> Option<()>;

    /// Stores the given 32-bits value at the given address, in big-endian format.
    ///
    /// The default implementation is doing 2 calls to [Self::set_word] with the high and low words.
    fn set_long(&mut self, addr: u32, value: u32) -> Option<()> {
        let (high, low) = words_of_long(value);
        self.set_word(addr, high)?;
        self.set_word(wrapping_add(addr, 2), low)
    }

    /// Called when the CPU executes a RESET instruction.
    fn reset_instruction(&mut self);
}

/// Iterator over 16-bits values in memory.
pub struct MemoryIter<'a, M: MemoryAccess + ?Sized> {
    /// The memory system that will be used to get the values.
    pub memory: &'a mut M,
    /// The address of the next value to be returned.
    pub next_addr: u32,
    /// The words returned so far.
    pub read: Ghost<Seq<u16>>,
    /// The address the iterator started at.
    pub start: Ghost<u32>,
    /// The address of the last word that the memory refused to give, if any.
    pub refused: Ghost<Option<u32>>,
}

impl<'a, M: MemoryAccess + ?Sized> MemoryIter<'a, M> {
    /// The next address follows the words read from the start, every read having succeeded.
    pub open spec fn spec_consistent(&self) -> bool {
        self.next_addr == spec_wrap32(self.start@ + 2 * self.read@.len())
    }

    /// The memory refused the word following the words read from the start, and the next address
    /// is past that word.
    pub open spec fn spec_refused_next(&self) -> bool {
        &&& self.refused@ == Some(spec_wrap32(self.start@ + 2 * self.read@.len()))
        &&& self.next_addr == spec_wrapping_add(spec_wrap32(self.start@ + 2 * self.read@.len()), 2)
    }

    /// Creates an iterator over the words of `memory` starting at the given address.
    pub fn new(memory: &'a mut M, addr: u32) -> (r: Self)
        ensures
            r.next_addr == addr,
            r.read@ == Seq::<u16>::empty(),
            r.start@ == addr,
            r.refused@ == None::<u32>,
            r.spec_consistent(),
    {
        MemoryIter { memory, next_addr: addr, read: Ghost(Seq::empty()), start: Ghost(addr), refused: Ghost(None) }
    }

    /// Returns the word at the next address and advances the address by 2.
    ///
    /// Returns an Address Error if the next address is odd (the address is then left unchanged),
    /// and an Access Error if the memory does not map it, the refused address being recorded. On
    /// success the word is appended to the words read.
    pub fn next_word(&mut self) -> (r: Result<u16, u8>)
        ensures
            r matches Ok(w) ==> final(self).read@ == old(self).read@.push(w),
            r is Err ==> final(self).read@ == old(self).read@,
            old(self).next_addr % 2 == 1 ==> r == Err::<u16, u8>(ADDRESS_ERROR) && final(self).next_addr == old(self).next_addr,
            old(self).next_addr % 2 == 0 ==> final(self).next_addr == spec_wrapping_add(old(self).next_addr, 2),
            r matches Err(e) ==> e == ADDRESS_ERROR || e == ACCESS_ERROR,
            final(self).start == old(self).start,
            r is Ok && old(self).spec_consistent() ==> final(self).spec_consistent(),
            final(self).next_addr % 2 == old(self).next_addr % 2,
            r matches Err(e) ==> (e == ADDRESS_ERROR) == (old(self).next_addr % 2 == 1),
            r == Err::<u16, u8>(ACCESS_ERROR) ==> final(self).refused@ == Some(old(self).next_addr),
            r != Err::<u16, u8>(ACCESS_ERROR) ==> final(self).refused == old(self).refused,
            r matches Err(e) && e == ACCESS_ERROR && old(self).spec_consistent() ==> final(self).spec_refused_next(),
    {
        if self.next_addr % 2 == 0 {
            let word = self.memory.get_word(self.next_addr);
            proof {
                let a = self.next_addr;
                assert(spec_wrapping_add(a, 2) % 2 == 0) by {
                    vstd::arithmetic::div_mod::lemma_fundamental_div_mod(a + 2, 0x1_0000_0000);
                }
            }
            self.next_addr = wrapping_add(self.next_addr, 2);
            match word {
                Some(w) => {
                    proof {
                        let n = old(self).read@.len();
                        let a = self.start@ + 2 * n;
                        vstd::arithmetic::div_mod::lemma_add_mod_noop(a, 2, 0x1_0000_0000);
                        vstd::arithmetic::div_mod::lemma_small_mod(2, 0x1_0000_0000);
                        assert(self.start@ + 2 * (n + 1) == a + 2);
                    }
                    self.read = Ghost(self.read@.push(w));
                    Ok(w)
                },
                None => {
                    self.refused = Ghost(Some(old(self).next_addr));
                    Err(ACCESS_ERROR)
                },
            }
        } else {
            Err(ADDRESS_ERROR)
        }
    }

    /// Returns the next word in the manner of an iterator that never ends: always `Some`, holding
    /// the word or the exception vector of the failed access.
    pub fn next(&mut self) -> (r: Option<Result<u16, u8>>)
        ensures
            r matches Some(Ok(w)) ==> final(self).read@ == old(self).read@.push(w),
            r matches Some(Err(_)) ==> final(self).read@ == old(self).read@,
            r is Some,
            final(self).start == old(self).start,
            r matches Some(Ok(_)) && old(self).spec_consistent() ==> final(self).spec_consistent(),
            r == Some(Err::<u16, u8>(ADDRESS_ERROR)) <==> old(self).next_addr % 2 == 1,
            r == Some(Err::<u16, u8>(ACCESS_ERROR)) ==> final(self).refused@ == Some(old(self).next_addr),
    {
        Some(self.next_word())
    }
}

/// The byte at `addr` of a byte memory, if mapped.
pub open spec fn spec_u8_get_byte(mem: Seq<u8>, addr: u32) -> Option<u8> {
    if addr < mem.len() { Some(mem[addr as int]) } else { None }
}

/// The big-endian word at `addr` of a byte memory, if both its bytes are mapped.
pub open spec fn spec_u8_get_word(mem: Seq<u8>, addr: u32) -> Option<u16> {
    if addr + 1 < mem.len() { Some((mem[addr as int] as u16 * 0x100 + mem[addr + 1] as u16) as u16) } else { None }
}

/// A byte memory after the byte at `addr` is set to `data`.
pub open spec fn spec_u8_set_byte(mem: Seq<u8>, addr: u32, data: u8) -> Seq<u8> {
    mem.update(addr as int, data)
}

/// A byte memory after the big-endian word at `addr` is set to `data`.
pub open spec fn spec_u8_set_word(mem: Seq<u8>, addr: u32, data: u16) -> Seq<u8> {
    mem.update(addr as int, (data / 0x100) as u8).update(addr + 1, (data % 0x100) as u8)
}

/// The long made of a high and a low word, if both were read.
pub open spec fn spec_long_of(high: Option<u16>, low: Option<u16>) -> Option<u32> {
    match (high, low) {
        (Some(h), Some(l)) => Some((h as int * 0x1_0000 + l as int) as u32),
        _ => None,
    }
}

/// The big-endian long at `addr` of a byte memory: its high word at `addr` and its low word
/// 2 bytes further, if both are mapped.
pub open spec fn spec_u8_get_long(mem: Seq<u8>, addr: u32) -> Option<u32> {
    spec_long_of(spec_u8_get_word(mem, addr), spec_u8_get_word(mem, spec_wrapping_add(addr, 2)))
}

impl MemoryAccess for [u8] {
    fn get_byte(&mut self, addr: u32) -> (r: Option<u8>)
        ensures
            r == spec_u8_get_byte(old(self)@, addr),
            final(self)@ == old(self)@,
    {
        if (addr as usize) < self.len() && (addr as u64) < (self.len() as u64) {
            Some(self[addr as usize])
        } else {
            None
        }
    }

    fn get_word(&mut self, addr: u32) -> (r: Option<u16>)
        ensures
            r == spec_u8_get_word(old(self)@, addr),
            final(self)@ == old(self)@,
    {
        if (addr as u64) + 1 < (self.len() as u64) {
            let a = addr as usize;
            Some((self[a] as u16) * 0x100 + self[a + 1] as u16)
        } else {
            None
        }
    }

    fn set_byte(&mut self, addr: u32, data: u8) -> (r: Option<()>)
        ensures
            (addr as int) < old(self)@.len() ==> r is Some && final(self)@ == spec_u8_set_byte(old(self)@, addr, data),
            (addr as int) >= old(self)@.len() ==> r is None && final(self)@ == old(self)@,
    {
        if (addr as u64) < (self.len() as u64) {
            self[addr as usize] = data;
            Some(())
        } else {
            None
        }
    }

    fn set_word(&mut self, addr: u32, data: u16) -> (r: Option<()>)
        ensures
            (addr as int) + 1 < old(self)@.len() ==> r is Some && final(self)@ == old(self)@.update(addr as int, (data / 0x100) as u8).update(addr + 1, (data % 0x100) as u8),
            (addr as int) + 1 >= old(self)@.len() ==> r is None && final(self)@ == old(self)@,
    {
        if (addr as u64) + 1 < (self.len() as u64) {
            let a = addr as usize;
            self[a] = (data / 0x100) as u8;
            self[a + 1] = (data % 0x100) as u8;
            Some(())
        } else {
            None
        }
    }

    fn get_long(&mut self, addr: u32) -> (r: Option<u32>)
        ensures
            r == spec_u8_get_long(old(self)@, addr),
            final(self)@ == old(self)@,
    {
        let high = self.get_word(addr);
        let low = self.get_word(wrapping_add(addr, 2));
        match (high, low) {
            (Some(h), Some(l)) => Some((h as u32) * 0x1_0000 + l as u32),
            _ => None,
        }
    }

    fn set_long(&mut self, addr: u32, value: u32) -> (r: Option<()>)
        ensures
            (addr as int) + 1 < old(self)@.len() && spec_wrapping_add(addr, 2) + 1 < old(self)@.len() ==> r is Some
                && final(self)@ == spec_u8_set_word(spec_u8_set_word(old(self)@, addr, (value / 0x1_0000) as u16),
                    spec_wrapping_add(addr, 2), (value % 0x1_0000) as u16),
            (addr as int) + 1 >= old(self)@.len() ==> r is None && final(self)@ == old(self)@,
            (addr as int) + 1 < old(self)@.len() && spec_wrapping_add(addr, 2) + 1 >= old(self)@.len() ==> r is None
                && final(self)@ == spec_u8_set_word(old(self)@, addr, (value / 0x1_0000) as u16),
    {
        match self.set_word(addr, (value / 0x1_0000) as u16) {
            Some(()) => self.set_word(wrapping_add(addr, 2), (value % 0x1_0000) as u16),
            None => None,
        }
    }

    fn reset_instruction(&mut self) {
    }
}


/// `v` wrapped in the 32-bits address space.
pub open spec fn spec_wrap32(v: int) -> u32 {
    (v % 0x1_0000_0000) as u32
}

/// Whether the addressing mode designates a memory location (modes 2 to 7 but immediate data).
pub open spec fn spec_is_memory(am: AddressingMode) -> bool {
    am.spec_mode() >= 2 && !(am is Immediate)
}

/// The step of the postincrement and predecrement modes: the size in bytes, but 2 for a byte
/// on the stack pointer so that it stays even.
pub open spec fn spec_step(reg: u8, size: Option<Size>) -> u32 {
    match size {
        Some(s) => if reg == 7 && s == Size::Byte { 2 } else { spec_size_bytes(s) },
        None => 0,
    }
}

/// The value of the index register of a brief extension word: a long, or a sign-extended word.
pub open spec fn spec_index(regs: Registers, bew: BriefExtensionWord) -> int {
    let v = if bew.spec_address() { regs.spec_a(bew.spec_reg()) } else { regs.d[bew.spec_reg() as int] };
    if bew.spec_long() { v as int } else { spec_signed(v as int, Size::Word) }
}

/// The address designated by a memory addressing mode, before its side effect on the registers.
pub open spec fn spec_ea_address(regs: Registers, am: AddressingMode, size: Option<Size>) -> u32 {
    match am {
        AddressingMode::Ari(r) => regs.spec_a(r),
        AddressingMode::Ariwpo(r) => regs.spec_a(r),
        AddressingMode::Ariwpr(r) => spec_wrap32(regs.spec_a(r) - spec_step(r, size)),
        AddressingMode::Ariwd(r, d) => spec_wrap32(regs.spec_a(r) + d),
        AddressingMode::Ariwi8(r, bew) => spec_wrap32(regs.spec_a(r) + spec_index(regs, bew) + bew.spec_disp()),
        AddressingMode::AbsShort(a) => spec_wrap32(spec_word_as_i16(a) as int),
        AddressingMode::AbsLong(a) => a,
        AddressingMode::Pciwd(pc, d) => spec_wrap32(pc + d),
        AddressingMode::Pciwi8(pc, bew) => spec_wrap32(pc + spec_index(regs, bew) + bew.spec_disp()),
        _ => 0,
    }
}

/// `new` is `old` with address register `reg` (7 being the active stack pointer) set to `value`.
pub open spec fn spec_a_set(old: Registers, new: Registers, reg: u8, value: u32) -> bool {
    &&& new.spec_a(reg) == value
    &&& new.d == old.d
    &&& new.sr == old.sr
    &&& new.pc == old.pc
    &&& forall|r: u8| r <= 7 && r != reg ==> #[trigger] new.spec_a(r) == old.spec_a(r)
    &&& reg < 7 ==> new.usp == old.usp && new.ssp == old.ssp
    &&& reg == 7 ==> new.a == old.a
    &&& reg == 7 && old.sr.s ==> new.usp == old.usp
    &&& reg == 7 && !old.sr.s ==> new.ssp == old.ssp
}

/// The registers after the address of a memory addressing mode is computed: the postincrement
/// or predecrement modes move their register, the others change nothing.
pub open spec fn spec_ea_post(old: Registers, new: Registers, am: AddressingMode, size: Option<Size>) -> bool {
    match am {
        AddressingMode::Ariwpo(r) => spec_a_set(old, new, r, spec_wrap32(old.spec_a(r) + spec_step(r, size))),
        AddressingMode::Ariwpr(r) => spec_a_set(old, new, r, spec_ea_address(old, am, size)),
        _ => new == old,
    }
}

/// The time it takes to compute the address of a memory addressing mode.
pub open spec fn spec_ea_time<CPU: CpuDetails>(am: AddressingMode) -> usize {
    match am {
        AddressingMode::Ari(_) => CPU::EA_ARI,
        AddressingMode::Ariwpo(_) => CPU::EA_ARIWPO,
        AddressingMode::Ariwpr(_) => CPU::EA_ARIWPR,
        AddressingMode::Ariwd(_, _) => CPU::EA_ARIWD,
        AddressingMode::Ariwi8(_, _) => CPU::EA_ARIWI8,
        AddressingMode::AbsShort(_) => CPU::EA_ABSSHORT,
        AddressingMode::AbsLong(_) => CPU::EA_ABSLONG,
        AddressingMode::Pciwd(_, _) => CPU::EA_PCIWD,
        AddressingMode::Pciwi8(_, _) => CPU::EA_PCIWI8,
        _ => 0,
    }
}

/// Adds `v` to the address `a`, wrapping around the 32-bits address space.
fn offset(a: u32, v: i64) -> (r: u32)
    requires
        -0x1_0000_0000 <= v <= 0x2_0000_0000,
    ensures
        r == spec_wrap32(a + v),
{
    proof {
        vstd::arithmetic::div_mod::lemma_mod_multiples_vanish(1, a + v, 0x1_0000_0000);
    }
    ((a as i64 + v + 0x1_0000_0000) as u64 % 0x1_0000_0000) as u32
}

impl<CPU: CpuDetails> M68000<CPU> {
    /// Returns the value of the index register of a brief extension word.
    fn index_value(&self, bew: BriefExtensionWord) -> (r: i64)
        ensures
            r == spec_index(self.regs, bew),
            -0x8000 <= r < 0x1_0000_0000,
    {
        let reg = bew.reg();
        let v = if bew.address() { self.regs.a(reg) } else { self.regs.d[reg as usize] };
        if bew.long() { v as i64 } else { crate::arithmetic::signed(v, Size::Word) }
    }

    /// Address Register Indirect With POstincrement: returns the address register and increments it
    /// by the size (by 2 for a byte on the stack pointer).
    pub fn ariwpo(&mut self, reg: u8, size: Size) -> (r: u32)
        requires
            reg <= 7,
        ensures
            r == old(self).regs.spec_a(reg),
            spec_a_set(old(self).regs, final(self).regs, reg, spec_wrap32(r + spec_step(reg, Some(size)))),
            final(self).exceptions@ == old(self).exceptions@,
            final(self).stop == old(self).stop,
            final(self).current_opcode == old(self).current_opcode,
            final(self).fetches == old(self).fetches,
            final(self).loads == old(self).loads,
            final(self).refused == old(self).refused,
            final(self).stores == old(self).stores,
    {
        let addr = self.regs.a(reg);
        let step: u32 = if reg == 7 && size == Size::Byte { 2 } else { size.bytes() };
        self.regs.set_a(reg, wrapping_add(addr, step));
        addr
    }

    /// Address Register Indirect With PRedecrement: decrements the address register by the size
    /// (by 2 for a byte on the stack pointer) and returns it.
    pub fn ariwpr(&mut self, reg: u8, size: Size) -> (r: u32)
        requires
            reg <= 7,
        ensures
            r == spec_wrap32(old(self).regs.spec_a(reg) - spec_step(reg, Some(size))),
            spec_a_set(old(self).regs, final(self).regs, reg, r),
            final(self).exceptions@ == old(self).exceptions@,
            final(self).stop == old(self).stop,
            final(self).current_opcode == old(self).current_opcode,
            final(self).fetches == old(self).fetches,
            final(self).loads == old(self).loads,
            final(self).refused == old(self).refused,
            final(self).stores == old(self).stores,
    {
        let step: u32 = if reg == 7 && size == Size::Byte { 2 } else { size.bytes() };
        let addr = wrapping_sub(self.regs.a(reg), step);
        self.regs.set_a(reg, addr);
        addr
    }

    /// Returns the address of a memory addressing mode. It is computed (and the postincrement or
    /// predecrement applied, and its calculation time added) only the first time.
    pub fn get_effective_address(&mut self, ea: &mut EffectiveAddress, exec_time: &mut usize) -> (r: u32)
        requires
            spec_is_memory(old(ea).mode),
            old(ea).mode.spec_wf(),
            old(ea).mode is Ariwpo || old(ea).mode is Ariwpr ==> old(ea).size is Some,
        ensures
            final(ea).mode == old(ea).mode,
            final(ea).size == old(ea).size,
            final(ea).address == Some(r),
            old(ea).address matches Some(a) ==> r == a && final(self).regs == old(self).regs && *final(exec_time) == *old(exec_time),
            old(ea).address is None ==> r == spec_ea_address(old(self).regs, old(ea).mode, old(ea).size)
                && spec_ea_post(old(self).regs, final(self).regs, old(ea).mode, old(ea).size)
                && *final(exec_time) == old(exec_time).saturating_add(spec_ea_time::<CPU>(old(ea).mode)),
            final(self).exceptions@ == old(self).exceptions@,
            final(self).stop == old(self).stop,
            final(self).current_opcode == old(self).current_opcode,
            final(self).fetches == old(self).fetches,
            final(self).loads == old(self).loads,
            final(self).refused == old(self).refused,
            final(self).stores == old(self).stores,
    {
        if let Some(addr) = ea.address {
            return addr;
        }
        let (addr, time) = match ea.mode {
            AddressingMode::Ari(reg) => (self.regs.a(reg), CPU::EA_ARI),
            AddressingMode::Ariwpo(reg) => {
                let size = ea.size.unwrap();
                (self.ariwpo(reg, size), CPU::EA_ARIWPO)
            },
            AddressingMode::Ariwpr(reg) => {
                let size = ea.size.unwrap();
                (self.ariwpr(reg, size), CPU::EA_ARIWPR)
            },
            AddressingMode::Ariwd(reg, disp) => (offset(self.regs.a(reg), disp as i64), CPU::EA_ARIWD),
            AddressingMode::Ariwi8(reg, bew) => {
                let index = self.index_value(bew);
                (offset(self.regs.a(reg), index + bew.disp() as i64), CPU::EA_ARIWI8)
            },
            AddressingMode::AbsShort(addr) => (offset(0, word_as_i16(addr) as i64), CPU::EA_ABSSHORT),
            AddressingMode::AbsLong(addr) => (addr, CPU::EA_ABSLONG),
            AddressingMode::Pciwd(pc, disp) => (offset(pc, disp as i64), CPU::EA_PCIWD),
            AddressingMode::Pciwi8(pc, bew) => {
                let index = self.index_value(bew);
                (offset(pc, index + bew.disp() as i64), CPU::EA_PCIWI8)
            },
            _ => (0, 0),
        };
        *exec_time = exec_time.saturating_add(time);
        ea.address = Some(addr);
        addr
    }
}


/// `new` is `old` with data register `reg` set to `value`.
pub open spec fn spec_d_set(old: Registers, new: Registers, reg: u8, value: u32) -> bool {
    &&& new.d@ == old.d@.update(reg as int, value)
    &&& new.a == old.a
    &&& new.usp == old.usp
    &&& new.ssp == old.ssp
    &&& new.sr == old.sr
    &&& new.pc == old.pc
}

/// The value of a register direct or immediate operand of the given size, `None` for a memory operand.
pub open spec fn spec_direct_operand(regs: Registers, am: AddressingMode, size: Size) -> Option<u32> {
    match am {
        AddressingMode::Drd(r) => Some(spec_wrap(regs.d[r as int] as int, size)),
        AddressingMode::Ard(r) => Some(spec_wrap(regs.spec_a(r) as int, size)),
        AddressingMode::Immediate(imm) => Some(spec_wrap(imm as int, size)),
        _ => None,
    }
}

/// The registers after writing `value` of the given size to a register direct operand: the low part
/// of a data register, or a whole address register (a word being sign-extended).
pub open spec fn spec_direct_write(old: Registers, new: Registers, am: AddressingMode, size: Size, value: u32) -> bool {
    match am {
        AddressingMode::Drd(r) => spec_d_set(old, new, r, spec_merge(old.d[r as int], value, size)),
        AddressingMode::Ard(r) => spec_a_set(old, new, r, if size == Size::Word { spec_wrap32(spec_signed(value as int, Size::Word)) } else { value }),
        _ => false,
    }
}

/// The time an immediate operand adds.
pub open spec fn spec_immediate_time<CPU: CpuDetails>(size: Size) -> usize {
    if size == Size::Long { CPU::EA_IMMEDIATE.saturating_add(4) } else { CPU::EA_IMMEDIATE }
}

/// What the memory helpers keep of the core besides the registers.
pub open spec fn spec_same_state<CPU: CpuDetails>(old: M68000<CPU>, new: M68000<CPU>) -> bool {
    &&& new.exceptions@ == old.exceptions@
    &&& new.stop == old.stop
    &&& new.current_opcode == old.current_opcode
    &&& new.fetches == old.fetches
}

/// The time after a memory access of the given size: a long access takes 4 more cycles.
pub open spec fn spec_long_access_time(time: usize, size: Size) -> usize {
    if size == Size::Long { time.saturating_add(4) } else { time }
}

/// The address of a memory effective address once computed: the one already computed, if any.
pub open spec fn spec_ea_final_address(regs: Registers, ea: EffectiveAddress) -> u32 {
    match ea.address {
        Some(a) => a,
        None => spec_ea_address(regs, ea.mode, ea.size),
    }
}

/// The registers after a memory effective address is used.
pub open spec fn spec_ea_used(old: Registers, new: Registers, ea: EffectiveAddress) -> bool {
    match ea.address {
        Some(_) => new == old,
        None => spec_ea_post(old, new, ea.mode, ea.size),
    }
}

impl<CPU: CpuDetails> M68000<CPU> {
    /// Asks the memory for the value of the given size at the given address and records its answer:
    /// the value in `loads`, or the refused request in `refused`.
    pub fn read_memory<M: MemoryAccess + ?Sized>(&mut self, memory: &mut M, addr: u32, size: Size) -> (r: Option<u32>)
        ensures
            *final(self) == (M68000 { loads: final(self).loads, refused: final(self).refused, ..*old(self) }),
            r matches Some(v) ==> spec_fits(v, size) && final(self).loads@ == old(self).loads@.push((addr, v, size))
                && final(self).refused == old(self).refused,
            r is None ==> final(self).refused@ == old(self).refused@.push((addr, size)) && final(self).loads == old(self).loads,
    {
        let read = match size {
            Size::Byte => match memory.get_byte(addr) {
                Some(v) => Some(v as u32),
                None => None,
            },
            Size::Word => match memory.get_word(addr) {
                Some(v) => Some(v as u32),
                None => None,
            },
            Size::Long => memory.get_long(addr),
        };
        match read {
            Some(v) => self.loads = Ghost(self.loads@.push((addr, v, size))),
            None => self.refused = Ghost(self.refused@.push((addr, size))),
        }
        read
    }

    /// Hands the memory the value of the given size to store at the given address and records its
    /// answer: the store in `stores`, or the refused request in `refused`.
    pub fn write_memory<M: MemoryAccess + ?Sized>(&mut self, memory: &mut M, addr: u32, size: Size, value: u32) -> (r: Option<()>)
        requires
            spec_fits(value, size),
        ensures
            *final(self) == (M68000 { stores: final(self).stores, refused: final(self).refused, ..*old(self) }),
            r is Some ==> final(self).stores@ == old(self).stores@.push((addr, value, size)) && final(self).refused == old(self).refused,
            r is None ==> final(self).refused@ == old(self).refused@.push((addr, size)) && final(self).stores == old(self).stores,
    {
        let written = match size {
            Size::Byte => memory.set_byte(addr, value as u8),
            Size::Word => memory.set_word(addr, value as u16),
            Size::Long => memory.set_long(addr, value),
        };
        match written {
            Some(()) => self.stores = Ghost(self.stores@.push((addr, value, size))),
            None => self.refused = Ghost(self.refused@.push((addr, size))),
        }
        written
    }

    /// Reads an operand of the given size: a register, immediate data or memory.
    ///
    /// For a memory operand the address is computed once (see [Self::get_effective_address]);
    /// a word or long at an odd address is an Address Error, an unmapped one an Access Error.
    pub fn get_operand<M: MemoryAccess + ?Sized>(&mut self, memory: &mut M, ea: &mut EffectiveAddress, size: Size, exec_time: &mut usize) -> (r: Result<u32, u8>)
        requires
            old(ea).mode.spec_wf(),
            old(ea).size == Some(size),
        ensures
            final(ea).mode == old(ea).mode,
            final(ea).size == old(ea).size,
            spec_same_state(*old(self), *final(self)),
            final(self).stores == old(self).stores,
            r matches Ok(v) ==> spec_fits(v, size),
            r matches Err(e) ==> e == ACCESS_ERROR || e == ADDRESS_ERROR,
            spec_direct_operand(old(self).regs, old(ea).mode, size) matches Some(v) ==> r == Ok::<u32, u8>(v)
                && final(self).regs == old(self).regs
                && *final(ea) == *old(ea)
                && *final(exec_time) == if old(ea).mode is Immediate { old(exec_time).saturating_add(spec_immediate_time::<CPU>(size)) } else { *old(exec_time) },
            spec_is_memory(old(ea).mode) ==> final(ea).address == Some(spec_ea_final_address(old(self).regs, *old(ea)))
                && spec_ea_used(old(self).regs, final(self).regs, *old(ea))
                && (size != Size::Byte && spec_ea_final_address(old(self).regs, *old(ea)) % 2 == 1 ==> r == Err::<u32, u8>(ADDRESS_ERROR)),
            !spec_is_memory(old(ea).mode) || r is Err ==> final(self).loads == old(self).loads,
            spec_is_memory(old(ea).mode) && r is Ok ==> *final(exec_time) == spec_long_access_time(
                if old(ea).address is None { old(exec_time).saturating_add(spec_ea_time::<CPU>(old(ea).mode)) } else { *old(exec_time) }, size),
            spec_is_memory(old(ea).mode) && r is Ok ==> final(self).loads@
                == old(self).loads@.push((spec_ea_final_address(old(self).regs, *old(ea)), r->Ok_0, size)),
            final(self).stores == old(self).stores,
            spec_is_memory(old(ea).mode) ==> (r == Err::<u32, u8>(ADDRESS_ERROR)
                <==> size != Size::Byte && spec_ea_final_address(old(self).regs, *old(ea)) % 2 == 1),
            spec_is_memory(old(ea).mode) && r == Err::<u32, u8>(ACCESS_ERROR) ==> final(self).refused@
                == old(self).refused@.push((spec_ea_final_address(old(self).regs, *old(ea)), size)),
            r != Err::<u32, u8>(ACCESS_ERROR) ==> final(self).refused == old(self).refused,
            !spec_is_memory(old(ea).mode) ==> r is Ok,
    {
        match ea.mode {
            AddressingMode::Drd(reg) => Ok(low(self.regs.d[reg as usize], size)),
            AddressingMode::Ard(reg) => Ok(low(self.regs.a(reg), size)),
            AddressingMode::Immediate(imm) => {
                let t = if size == Size::Long { CPU::EA_IMMEDIATE.saturating_add(4) } else { CPU::EA_IMMEDIATE };
                *exec_time = exec_time.saturating_add(t);
                Ok(low(imm, size))
            },
            _ => {
                let addr = self.get_effective_address(ea, exec_time);
                if size != Size::Byte && addr % 2 == 1 {
                    return Err(ADDRESS_ERROR);
                }
                let read = self.read_memory(memory, addr, size);
                if size == Size::Long {
                    *exec_time = exec_time.saturating_add(4);
                }
                match read {
                    Some(v) => Ok(v),
                    None => Err(ACCESS_ERROR),
                }
            },
        }
    }

    /// Writes an operand of the given size: the low part of a data register, a whole address register
    /// (a word being sign-extended), or memory.
    pub fn set_operand<M: MemoryAccess + ?Sized>(&mut self, memory: &mut M, ea: &mut EffectiveAddress, size: Size, exec_time: &mut usize, value: u32) -> (r: Result<(), u8>)
        requires
            old(ea).mode.spec_wf(),
            old(ea).size == Some(size),
            !(old(ea).mode is Immediate),
            !(old(ea).mode is Ard && size == Size::Byte),
            spec_fits(value, size),
        ensures
            final(ea).mode == old(ea).mode,
            final(ea).size == old(ea).size,
            spec_same_state(*old(self), *final(self)),
            r matches Err(e) ==> e == ACCESS_ERROR || e == ADDRESS_ERROR,
            old(ea).mode.spec_mode() <= 1 ==> r is Ok
                && spec_direct_write(old(self).regs, final(self).regs, old(ea).mode, size, value)
                && *final(ea) == *old(ea)
                && *final(exec_time) == *old(exec_time),
            spec_is_memory(old(ea).mode) ==> final(ea).address == Some(spec_ea_final_address(old(self).regs, *old(ea)))
                && spec_ea_used(old(self).regs, final(self).regs, *old(ea))
                && (size != Size::Byte && spec_ea_final_address(old(self).regs, *old(ea)) % 2 == 1 ==> r == Err::<(), u8>(ADDRESS_ERROR)),
            old(ea).mode.spec_mode() <= 1 || r is Err ==> final(self).stores == old(self).stores,
            final(self).loads == old(self).loads,
            spec_is_memory(old(ea).mode) && r is Ok ==> final(self).stores@
                == old(self).stores@.push((spec_ea_final_address(old(self).regs, *old(ea)), value, size)),
            spec_is_memory(old(ea).mode) ==> (r == Err::<(), u8>(ADDRESS_ERROR)
                <==> size != Size::Byte && spec_ea_final_address(old(self).regs, *old(ea)) % 2 == 1),
            spec_is_memory(old(ea).mode) && r == Err::<(), u8>(ACCESS_ERROR) ==> final(self).refused@
                == old(self).refused@.push((spec_ea_final_address(old(self).regs, *old(ea)), size)),
            r != Err::<(), u8>(ACCESS_ERROR) ==> final(self).refused == old(self).refused,
            spec_is_memory(old(ea).mode) && r is Ok ==> *final(exec_time) == spec_long_access_time(
                if old(ea).address is None { old(exec_time).saturating_add(spec_ea_time::<CPU>(old(ea).mode)) } else { *old(exec_time) }, size),
    {
        match ea.mode {
            AddressingMode::Drd(reg) => {
                let v = merge(self.regs.d[reg as usize], value, size);
                self.regs.d[reg as usize] = v;
                Ok(())
            },
            AddressingMode::Ard(reg) => {
                let v = if size == Size::Word {
                    offset(0, signed(value, Size::Word))
                } else {
                    value
                };
                self.regs.set_a(reg, v);
                Ok(())
            },
            _ => {
                let addr = self.get_effective_address(ea, exec_time);
                if size != Size::Byte && addr % 2 == 1 {
                    return Err(ADDRESS_ERROR);
                }
                let written = self.write_memory(memory, addr, size, value);
                if size == Size::Long {
                    *exec_time = exec_time.saturating_add(4);
                }
                match written {
                    Some(()) => Ok(()),
                    None => Err(ACCESS_ERROR),
                }
            },
        }
    }
}


impl<CPU: CpuDetails> M68000<CPU> {
    /// Returns the word at `self.regs.pc` then advances `self.regs.pc` by 2.
    ///
    /// An odd program counter is an Address Error, and the program counter is then left unchanged.
    pub fn get_next_word<M: MemoryAccess + ?Sized>(&mut self, memory: &mut M) -> (r: Result<u16, u8>)
        ensures
            spec_same_state(*old(self), *final(self)),
            final(self).stores == old(self).stores,
            old(self).regs.pc % 2 == 1 ==> r == Err::<u16, u8>(ADDRESS_ERROR) && final(self).regs == old(self).regs,
            old(self).regs.pc % 2 == 0 ==> final(self).regs == (Registers { pc: spec_wrapping_add(old(self).regs.pc, 2), ..old(self).regs })
                && (r matches Err(e) ==> e == ACCESS_ERROR),
            r matches Ok(w) ==> final(self).loads@ == old(self).loads@.push((old(self).regs.pc, w as u32, Size::Word))
                && final(self).refused == old(self).refused,
            r == Err::<u16, u8>(ACCESS_ERROR) ==> final(self).refused@ == old(self).refused@.push((old(self).regs.pc, Size::Word))
                && final(self).loads == old(self).loads,
            r == Err::<u16, u8>(ADDRESS_ERROR) ==> *final(self) == *old(self),
    {
        if self.regs.pc % 2 == 1 {
            return Err(ADDRESS_ERROR);
        }
        let pc = self.regs.pc;
        let data = self.read_memory(memory, pc, Size::Word);
        self.regs.pc = wrapping_add(self.regs.pc, 2);
        match data {
            Some(w) => Ok(w as u16),
            None => Err(ACCESS_ERROR),
        }
    }

    /// Returns the long at `self.regs.pc` then advances `self.regs.pc` by 4.
    ///
    /// An odd program counter is an Address Error, and the program counter is then left unchanged.
    pub fn get_next_long<M: MemoryAccess + ?Sized>(&mut self, memory: &mut M) -> (r: Result<u32, u8>)
        ensures
            spec_same_state(*old(self), *final(self)),
            final(self).stores == old(self).stores,
            old(self).regs.pc % 2 == 1 ==> r == Err::<u32, u8>(ADDRESS_ERROR) && final(self).regs == old(self).regs,
            old(self).regs.pc % 2 == 0 ==> final(self).regs == (Registers { pc: spec_wrapping_add(old(self).regs.pc, 4), ..old(self).regs })
                && (r matches Err(e) ==> e == ACCESS_ERROR),
            r matches Ok(l) ==> final(self).loads@ == old(self).loads@.push((old(self).regs.pc, l, Size::Long))
                && final(self).refused == old(self).refused,
            r == Err::<u32, u8>(ACCESS_ERROR) ==> final(self).refused@ == old(self).refused@.push((old(self).regs.pc, Size::Long))
                && final(self).loads == old(self).loads,
            r == Err::<u32, u8>(ADDRESS_ERROR) ==> *final(self) == *old(self),
    {
        if self.regs.pc % 2 == 1 {
            return Err(ADDRESS_ERROR);
        }
        let pc = self.regs.pc;
        let data = self.read_memory(memory, pc, Size::Long);
        self.regs.pc = wrapping_add(self.regs.pc, 4);
        match data {
            Some(l) => Ok(l),
            None => Err(ACCESS_ERROR),
        }
    }

    /// Returns the word at `self.regs.pc`.
    pub fn peek_next_word<M: MemoryAccess + ?Sized>(&self, memory: &mut M) -> (r: Result<u16, u8>)
        ensures
            self.regs.pc % 2 == 1 ==> r == Err::<u16, u8>(ADDRESS_ERROR),
            r matches Err(e) ==> e == ACCESS_ERROR || e == ADDRESS_ERROR,
    {
        if self.regs.pc % 2 == 1 {
            return Err(ADDRESS_ERROR);
        }
        match memory.get_word(self.regs.pc) {
            Some(w) => Ok(w),
            None => Err(ACCESS_ERROR),
        }
    }

    /// Pops the 16-bits value from the stack.
    pub fn pop_word<M: MemoryAccess + ?Sized>(&mut self, memory: &mut M) -> (r: Result<u16, u8>)
        ensures
            spec_same_state(*old(self), *final(self)),
            final(self).stores == old(self).stores,
            spec_a_set(old(self).regs, final(self).regs, 7, spec_wrap32(old(self).regs.spec_sp() + 2)),
            r matches Err(e) ==> e == ACCESS_ERROR || e == ADDRESS_ERROR,
            r == Err::<u16, u8>(ADDRESS_ERROR) <==> old(self).regs.spec_sp() % 2 == 1,
            r matches Ok(w) ==> final(self).loads@ == old(self).loads@.push((old(self).regs.spec_sp(), w as u32, Size::Word)),
            r is Err ==> final(self).loads == old(self).loads,
            r == Err::<u16, u8>(ACCESS_ERROR) ==> final(self).refused@ == old(self).refused@.push((old(self).regs.spec_sp(), Size::Word)),
            r != Err::<u16, u8>(ACCESS_ERROR) ==> final(self).refused == old(self).refused,
    {
        let addr = self.ariwpo(7, Size::Word);
        if addr % 2 == 1 {
            return Err(ADDRESS_ERROR);
        }
        match self.read_memory(memory, addr, Size::Word) {
            Some(v) => Ok(v as u16),
            None => Err(ACCESS_ERROR),
        }
    }

    /// Pops the 32-bits value from the stack.
    pub fn pop_long<M: MemoryAccess + ?Sized>(&mut self, memory: &mut M) -> (r: Result<u32, u8>)
        ensures
            spec_same_state(*old(self), *final(self)),
            final(self).stores == old(self).stores,
            spec_a_set(old(self).regs, final(self).regs, 7, spec_wrap32(old(self).regs.spec_sp() + 4)),
            r matches Err(e) ==> e == ACCESS_ERROR || e == ADDRESS_ERROR,
            r == Err::<u32, u8>(ADDRESS_ERROR) <==> old(self).regs.spec_sp() % 2 == 1,
            r matches Ok(w) ==> final(self).loads@ == old(self).loads@.push((old(self).regs.spec_sp(), w as u32, Size::Long)),
            r is Err ==> final(self).loads == old(self).loads,
            r == Err::<u32, u8>(ACCESS_ERROR) ==> final(self).refused@ == old(self).refused@.push((old(self).regs.spec_sp(), Size::Long)),
            r != Err::<u32, u8>(ACCESS_ERROR) ==> final(self).refused == old(self).refused,
    {
        let addr = self.ariwpo(7, Size::Long);
        if addr % 2 == 1 {
            return Err(ADDRESS_ERROR);
        }
        match self.read_memory(memory, addr, Size::Long) {
            Some(v) => Ok(v as u32),
            None => Err(ACCESS_ERROR),
        }
    }

    /// Pushes the given 16-bits value on the stack.
    pub fn push_word<M: MemoryAccess + ?Sized>(&mut self, memory: &mut M, value: u16) -> (r: Result<(), u8>)
        ensures
            spec_same_state(*old(self), *final(self)),
            spec_a_set(old(self).regs, final(self).regs, 7, spec_wrap32(old(self).regs.spec_sp() - 2)),
            old(self).regs.spec_sp() % 2 == 1 ==> r == Err::<(), u8>(ADDRESS_ERROR),
            r matches Err(e) ==> e == ACCESS_ERROR || e == ADDRESS_ERROR,
            r is Err ==> final(self).stores == old(self).stores,
            r is Ok ==> final(self).stores@ == old(self).stores@.push((spec_wrap32(old(self).regs.spec_sp() - 2), value as u32, Size::Word)),
            r == Err::<(), u8>(ADDRESS_ERROR) <==> spec_wrap32(old(self).regs.spec_sp() - 2) % 2 == 1,
            final(self).loads == old(self).loads,
            r == Err::<(), u8>(ACCESS_ERROR) ==> final(self).refused@ == old(self).refused@.push((spec_wrap32(old(self).regs.spec_sp() - 2), Size::Word)),
            r != Err::<(), u8>(ACCESS_ERROR) ==> final(self).refused == old(self).refused,
    {
        let addr = self.ariwpr(7, Size::Word);
        if addr % 2 == 1 {
            return Err(ADDRESS_ERROR);
        }
        match self.write_memory(memory, addr, Size::Word, value as u32) {
            Some(()) => Ok(()),
            None => Err(ACCESS_ERROR),
        }
    }

    /// Pushes the given 32-bits value on the stack.
    pub fn push_long<M: MemoryAccess + ?Sized>(&mut self, memory: &mut M, value: u32) -> (r: Result<(), u8>)
        ensures
            spec_same_state(*old(self), *final(self)),
            spec_a_set(old(self).regs, final(self).regs, 7, spec_wrap32(old(self).regs.spec_sp() - 4)),
            old(self).regs.spec_sp() % 2 == 1 ==> r == Err::<(), u8>(ADDRESS_ERROR),
            r matches Err(e) ==> e == ACCESS_ERROR || e == ADDRESS_ERROR,
            r is Err ==> final(self).stores == old(self).stores,
            r is Ok ==> final(self).stores@ == old(self).stores@.push((spec_wrap32(old(self).regs.spec_sp() - 4), value, Size::Long)),
            r == Err::<(), u8>(ADDRESS_ERROR) <==> spec_wrap32(old(self).regs.spec_sp() - 4) % 2 == 1,
            final(self).loads == old(self).loads,
            r == Err::<(), u8>(ACCESS_ERROR) ==> final(self).refused@ == old(self).refused@.push((spec_wrap32(old(self).regs.spec_sp() - 4), Size::Long)),
            r != Err::<(), u8>(ACCESS_ERROR) ==> final(self).refused == old(self).refused,
    {
        let addr = self.ariwpr(7, Size::Long);
        if addr % 2 == 1 {
            return Err(ADDRESS_ERROR);
        }
        match self.write_memory(memory, addr, Size::Long, value) {
            Some(()) => Ok(()),
            None => Err(ACCESS_ERROR),
        }
    }
}


/// The byte at `addr` of a word memory, if mapped: the high byte of a word at an even address, its low byte at an odd one.
pub open spec fn spec_u16_get_byte(mem: Seq<u16>, addr: u32) -> Option<u8> {
    let w = mem[addr as int / 2];
    if addr / 2 < mem.len() { Some((if addr % 2 == 0 { w / 0x100 } else { w % 0x100 }) as u8) } else { None }
}

/// The word at `addr` (rounded down to even) of a word memory, if mapped.
pub open spec fn spec_u16_get_word(mem: Seq<u16>, addr: u32) -> Option<u16> {
    if addr / 2 < mem.len() { Some(mem[addr as int / 2]) } else { None }
}

/// A word memory after the byte at `addr` is set to `data`: the high byte of the word at an
/// even address, its low byte at an odd one.
pub open spec fn spec_u16_set_byte(mem: Seq<u16>, addr: u32, data: u8) -> Seq<u16> {
    mem.update((addr / 2) as int,
        if addr % 2 == 0 {
            (data as int * 0x100 + mem[addr as int / 2] % 0x100) as u16
        } else {
            ((mem[addr as int / 2] / 0x100) * 0x100 + data as int) as u16
        })
}

/// A word memory after the word at `addr` (rounded down to even) is set to `data`.
pub open spec fn spec_u16_set_word(mem: Seq<u16>, addr: u32, data: u16) -> Seq<u16> {
    mem.update((addr / 2) as int, data)
}

/// The long at `addr` of a word memory: its high word at `addr` and its low word 2 bytes
/// further, if both are mapped.
pub open spec fn spec_u16_get_long(mem: Seq<u16>, addr: u32) -> Option<u32> {
    spec_long_of(spec_u16_get_word(mem, addr), spec_u16_get_word(mem, spec_wrapping_add(addr, 2)))
}

impl MemoryAccess for [u16] {
    fn get_byte(&mut self, addr: u32) -> (r: Option<u8>)
        ensures
            r == spec_u16_get_byte(old(self)@, addr),
            final(self)@ == old(self)@,
    {
        let a = (addr / 2) as usize;
        if (addr / 2) as u64 <= usize::MAX as u64 && a < self.len() {
            let w = self[a];
            Some(if addr % 2 == 0 { (w / 0x100) as u8 } else { (w % 0x100) as u8 })
        } else {
            None
        }
    }

    fn get_word(&mut self, addr: u32) -> (r: Option<u16>)
        ensures
            r == spec_u16_get_word(old(self)@, addr),
            final(self)@ == old(self)@,
    {
        let a = (addr / 2) as usize;
        if (addr / 2) as u64 <= usize::MAX as u64 && a < self.len() {
            Some(self[a])
        } else {
            None
        }
    }

    fn set_byte(&mut self, addr: u32, data: u8) -> (r: Option<()>)
        ensures
            (addr / 2) < old(self)@.len() ==> r is Some && final(self)@ == spec_u16_set_byte(old(self)@, addr, data),
            (addr / 2) >= old(self)@.len() ==> r is None && final(self)@ == old(self)@,
    {
        let a = (addr / 2) as usize;
        if (addr / 2) as u64 <= usize::MAX as u64 && a < self.len() {
            let w = self[a];
            self[a] = if addr % 2 == 0 { (data as u16) * 0x100 + w % 0x100 } else { (w / 0x100) * 0x100 + data as u16 };
            Some(())
        } else {
            None
        }
    }

    fn set_word(&mut self, addr: u32, data: u16) -> (r: Option<()>)
        ensures
            (addr / 2) < old(self)@.len() ==> r is Some && final(self)@ == spec_u16_set_word(old(self)@, addr, data),
            (addr / 2) >= old(self)@.len() ==> r is None && final(self)@ == old(self)@,
    {
        let a = (addr / 2) as usize;
        if (addr / 2) as u64 <= usize::MAX as u64 && a < self.len() {
            self[a] = data;
            Some(())
        } else {
            None
        }
    }

    fn get_long(&mut self, addr: u32) -> (r: Option<u32>)
        ensures
            r == spec_u16_get_long(old(self)@, addr),
            final(self)@ == old(self)@,
    {
        let high = self.get_word(addr);
        let low = self.get_word(wrapping_add(addr, 2));
        match (high, low) {
            (Some(h), Some(l)) => Some((h as u32) * 0x1_0000 + l as u32),
            _ => None,
        }
    }

    fn set_long(&mut self, addr: u32, value: u32) -> (r: Option<()>)
        ensures
            addr / 2 < old(self)@.len() && spec_wrapping_add(addr, 2) / 2 < old(self)@.len() ==> r is Some
                && final(self)@ == spec_u16_set_word(spec_u16_set_word(old(self)@, addr, (value / 0x1_0000) as u16),
                    spec_wrapping_add(addr, 2), (value % 0x1_0000) as u16),
            addr / 2 >= old(self)@.len() ==> r is None && final(self)@ == old(self)@,
            addr / 2 < old(self)@.len() && spec_wrapping_add(addr, 2) / 2 >= old(self)@.len() ==> r is None
                && final(self)@ == spec_u16_set_word(old(self)@, addr, (value / 0x1_0000) as u16),
    {
        match self.set_word(addr, (value / 0x1_0000) as u16) {
            Some(()) => self.set_word(wrapping_add(addr, 2), (value % 0x1_0000) as u16),
            None => None,
        }
    }

    fn reset_instruction(&mut self) {
    }
}


/// What is written to a byte memory is read back: a byte, a word or a long written where it is
/// mapped is then read at the same address, and a byte write leaves the other bytes alone.
pub proof fn lemma_u8_write_read(mem: Seq<u8>, addr: u32, other: u32, byte: u8, word: u16, long: u32)
    ensures
        addr < mem.len() ==> spec_u8_get_byte(spec_u8_set_byte(mem, addr, byte), addr) == Some(byte),
        addr < mem.len() && other != addr ==> spec_u8_get_byte(spec_u8_set_byte(mem, addr, byte), other)
            == spec_u8_get_byte(mem, other),
        addr + 1 < mem.len() ==> spec_u8_get_word(spec_u8_set_word(mem, addr, word), addr) == Some(word),
        addr + 1 < mem.len() && spec_wrapping_add(addr, 2) + 1 < mem.len() ==> spec_u8_get_long(
            spec_u8_set_word(spec_u8_set_word(mem, addr, (long / 0x1_0000) as u16), spec_wrapping_add(addr, 2),
                (long % 0x1_0000) as u16), addr) == Some(long),
{
    let hi = (long / 0x1_0000) as u16;
    let lo = (long % 0x1_0000) as u16;
    let a2 = spec_wrapping_add(addr, 2);
    if addr + 1 < mem.len() && a2 + 1 < mem.len() {
        let m1 = spec_u8_set_word(mem, addr, hi);
        let m2 = spec_u8_set_word(m1, a2, lo);
        assert(a2 == addr + 2 || a2 + 0x1_0000_0000 == addr + 2);
        assert(m2[addr as int] == m1[addr as int]);
        assert(m2[addr + 1] == m1[addr + 1]);
    }
}

/// What is written to a word memory is read back: a byte, a word or a long written where it is
/// mapped is then read at the same address, and a word write leaves the other words alone.
pub proof fn lemma_u16_write_read(mem: Seq<u16>, addr: u32, other: u32, byte: u8, word: u16, long: u32)
    ensures
        addr / 2 < mem.len() ==> spec_u16_get_byte(spec_u16_set_byte(mem, addr, byte), addr) == Some(byte),
        addr / 2 < mem.len() ==> spec_u16_get_word(spec_u16_set_word(mem, addr, word), addr) == Some(word),
        addr / 2 < mem.len() && other / 2 != addr / 2 ==> spec_u16_get_word(spec_u16_set_word(mem, addr, word), other)
            == spec_u16_get_word(mem, other),
        addr / 2 < mem.len() && spec_wrapping_add(addr, 2) / 2 < mem.len() ==> spec_u16_get_long(
            spec_u16_set_word(spec_u16_set_word(mem, addr, (long / 0x1_0000) as u16), spec_wrapping_add(addr, 2),
                (long % 0x1_0000) as u16), addr) == Some(long),
{
    let a2 = spec_wrapping_add(addr, 2);
    assert(a2 == addr + 2 || a2 + 0x1_0000_0000 == addr + 2);
    assert(a2 / 2 != addr / 2);
}

} // verus!
