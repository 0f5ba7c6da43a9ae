use m68000::MemoryAccess;
use m68000::fastmem::m68000_fastmem_t;

/// A slow memory that maps nothing.
struct Unmapped;

impl MemoryAccess for Unmapped {
    fn get_byte(&mut self, _: u32) -> Option<u8> { None }
    fn get_word(&mut self, _: u32) -> Option<u16> { None }
    fn set_byte(&mut self, _: u32, _: u8) -> Option<()> { None }
    fn set_word(&mut self, _: u32, _: u16) -> Option<()> { None }
    fn reset_instruction(&mut self) {}
}

fn fastmem() -> m68000_fastmem_t<Unmapped> {
    m68000_fastmem_t {
        memory: vec![0; 0x200],
        page_read: vec![Some(0), Some(0x100)],
        page_write: vec![Some(0), None],
        page_shift: 8,
        offset_mask: 0xFF,
        slow_memory: Unmapped,
    }
}

#[test]
fn fastmem_reads_back_what_is_written_in_its_pages() {
    let mut mem = fastmem();
    assert_eq!(mem.set_word(0x10, 0xABCD), Some(()));
    assert_eq!(mem.memory[0x10], 0xAB);
    assert_eq!(mem.memory[0x11], 0xCD);
    assert_eq!(mem.get_word(0x10), Some(0xABCD));
    assert_eq!(mem.get_byte(0x11), Some(0xCD));
    assert_eq!(mem.set_long(0x20, 0x1234_5678), Some(()));
    assert_eq!(mem.get_long(0x20), Some(0x1234_5678));
}

#[test]
fn fastmem_goes_to_the_slow_memory_outside_its_pages() {
    let mut mem = fastmem();
    assert_eq!(mem.set_byte(0x150, 1), None);
    assert_eq!(mem.get_byte(0x300), None);
    mem.memory[0x150] = 7;
    assert_eq!(mem.get_byte(0x150), Some(7));
}

#[test]
fn fastmem_long_across_two_pages() {
    let mut mem = fastmem();
    mem.memory[0xFE] = 0x11;
    mem.memory[0xFF] = 0x22;
    mem.memory[0x100] = 0x33;
    mem.memory[0x101] = 0x44;
    assert_eq!(mem.get_long(0xFE), Some(0x1122_3344));
    assert_eq!(mem.set_long(0xFE, 0), None);
}
