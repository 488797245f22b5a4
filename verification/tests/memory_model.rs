use cortex_m_startup::memory::{Access, Memory};

fn memory() -> Memory {
    Memory::new(0x2000_0000, vec![0x1111_1111, 0x2222_2222, 0x3333_3333], 0x0800_0000, vec![
        0xdead_beef,
        0x0403_0201,
    ])
    .unwrap()
}

#[test]
fn new_memory_holds_its_banks() {
    let m = memory();
    assert_eq!(m.ram_word(0x2000_0000), Some(0x1111_1111));
    assert_eq!(m.ram_word(0x2000_0008), Some(0x3333_3333));
    assert_eq!(m.rom_word(0x0800_0000), Some(0xdead_beef));
    assert_eq!(m.rom_word(0x0800_0004), Some(0x0403_0201));
    assert!(m.trace().is_empty());
}

#[test]
fn words_outside_a_bank() {
    let m = memory();
    assert_eq!(m.ram_word(0x2000_000c), None);
    assert_eq!(m.ram_word(0x1fff_fffc), None);
    assert_eq!(m.ram_word(0x2000_0002), None);
    assert_eq!(m.ram_word(0x0800_0000), None);
    assert_eq!(m.rom_word(0x0800_0008), None);
    assert_eq!(m.rom_word(0x0800_0001), None);
    assert_eq!(m.rom_word(0x2000_0000), None);
}

#[test]
fn misaligned_banks_are_refused() {
    assert!(Memory::new(0x2000_0002, vec![0], 0x0800_0000, vec![0]).is_none());
    assert!(Memory::new(0x2000_0000, vec![0], 0x0800_0001, vec![0]).is_none());
}

#[test]
fn overlapping_banks_are_refused() {
    assert!(Memory::new(0x2000_0000, vec![0; 4], 0x2000_000c, vec![0; 4]).is_none());
    assert!(Memory::new(0x2000_0000, vec![0; 4], 0x2000_0010, vec![0; 4]).is_some());
    assert!(Memory::new(0x2000_0010, vec![0; 4], 0x2000_0000, vec![0; 4]).is_some());
    assert!(Memory::new(0x2000_0010, vec![0; 4], 0x2000_0000, vec![0; 5]).is_none());
}

#[test]
fn banks_past_the_address_space_are_refused() {
    let top = usize::MAX - 3;
    assert!(Memory::new(top, vec![0; 1], 0, vec![0]).is_none());
    assert!(Memory::new(top - 4, vec![0; 1], 0, vec![0]).is_some());
    assert!(Memory::new(0, vec![0], top, vec![0; 2]).is_none());
}

#[test]
fn empty_banks_are_accepted() {
    let m = Memory::new(0x2000_0000, vec![], 0x2000_0000, vec![]).unwrap();
    assert_eq!(m.ram_word(0x2000_0000), None);
    assert!(m.ram_holds(0x2000_0000, 0x2000_0000));
}

#[test]
fn write_changes_one_word_and_is_traced() {
    let mut m = memory();
    m.write_ram(0x2000_0004, 0xaaaa_5555);
    assert_eq!(m.ram_word(0x2000_0000), Some(0x1111_1111));
    assert_eq!(m.ram_word(0x2000_0004), Some(0xaaaa_5555));
    assert_eq!(m.ram_word(0x2000_0008), Some(0x3333_3333));
    assert_eq!(m.trace(), &vec![Access::Write { addr: 0x2000_0004, value: 0xaaaa_5555 }]);
}

#[test]
fn read_returns_the_word_and_is_traced() {
    let mut m = memory();
    assert_eq!(m.read_rom(0x0800_0004), 0x0403_0201);
    assert_eq!(m.read_rom(0x0800_0000), 0xdead_beef);
    assert_eq!(
        m.trace(),
        &vec![Access::Read { addr: 0x0800_0004 }, Access::Read { addr: 0x0800_0000 }]
    );
    assert_eq!(m.rom_word(0x0800_0004), Some(0x0403_0201));
}

#[test]
fn bytes_lie_least_significant_first() {
    let m = memory();
    assert_eq!(m.rom_byte(0x0800_0004), Some(0x01));
    assert_eq!(m.rom_byte(0x0800_0005), Some(0x02));
    assert_eq!(m.rom_byte(0x0800_0006), Some(0x03));
    assert_eq!(m.rom_byte(0x0800_0007), Some(0x04));
    assert_eq!(m.rom_byte(0x0800_0000), Some(0xef));
    assert_eq!(m.rom_byte(0x0800_0003), Some(0xde));
    assert_eq!(m.rom_byte(0x0800_0008), None);
    assert_eq!(m.ram_byte(0x2000_0009), Some(0x33));
    assert_eq!(m.ram_byte(0x2000_000c), None);
    assert_eq!(m.ram_byte(0x1fff_ffff), None);
}

#[test]
fn spans_within_a_bank() {
    let m = memory();
    assert!(m.ram_holds(0x2000_0000, 0x2000_000c));
    assert!(m.ram_holds(0x2000_0004, 0x2000_0004));
    assert!(!m.ram_holds(0x2000_0000, 0x2000_0010));
    assert!(!m.ram_holds(0x1fff_fffc, 0x2000_0004));
    assert!(!m.ram_holds(0x2000_0001, 0x2000_0004));
    assert!(!m.ram_holds(0x2000_0000, 0x2000_0006));
    assert!(!m.ram_holds(0x2000_0008, 0x2000_0004));
    assert!(m.rom_holds(0x0800_0000, 0x0800_0008));
    assert!(!m.rom_holds(0x0800_0000, 0x0800_000c));
    assert!(!m.rom_holds(0x2000_0000, 0x2000_0004));
}
