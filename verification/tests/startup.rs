use cortex_m_startup::memory::{Access, Memory};
use cortex_m_startup::startup::{
    heap_start, init_bss, init_data, region_words, __reset_handler, LinkerSymbols,
};

const RAM: usize = 0x2000_0000;
const ROM: usize = 0x0800_1000;

fn symbols() -> LinkerSymbols {
    LinkerSymbols {
        sbss: 0x2000_0000,
        ebss: 0x2000_0010,
        sdata: 0x2000_0010,
        edata: 0x2000_0018,
        sidata: 0x0800_1000,
        heap_start: 0x2000_0018,
    }
}

fn image() -> Vec<u32> {
    vec![
        u32::from_le_bytes([0xde, 0xad, 0xbe, 0xef]),
        u32::from_le_bytes([0xca, 0xfe, 0xba, 0xbe]),
    ]
}

fn memory() -> Memory {
    Memory::new(RAM, vec![0xffff_ffff; 8], ROM, image()).unwrap()
}

fn ram(memory: &Memory, words: usize) -> Vec<u32> {
    (0..words).map(|i| memory.ram_word(RAM + 4 * i).unwrap()).collect()
}

#[test]
fn reset_clears_bss_and_copies_data() {
    let mut m = memory();
    let s = symbols();
    assert!(s.fits(&m));
    __reset_handler(&mut m, &s);
    for addr in 0x2000_0000usize..0x2000_0010 {
        assert_eq!(m.ram_byte(addr), Some(0), "byte at {:#x}", addr);
    }
    let expected: [u8; 8] = [0xde, 0xad, 0xbe, 0xef, 0xca, 0xfe, 0xba, 0xbe];
    for (offset, byte) in expected.iter().enumerate() {
        assert_eq!(m.ram_byte(0x2000_0010 + offset), Some(*byte));
        assert_eq!(m.ram_byte(0x2000_0010 + offset), m.rom_byte(0x0800_1000 + offset));
    }
    assert_eq!(
        ram(&m, 8),
        vec![0, 0, 0, 0, 0xefbe_adde, 0xbeba_feca, 0xffff_ffff, 0xffff_ffff]
    );
    assert_eq!(m.rom_word(0x0800_1000), Some(0xefbe_adde));
    assert_eq!(m.rom_word(0x0800_1004), Some(0xbeba_feca));
}

#[test]
fn reset_accesses_in_program_order() {
    let mut m = memory();
    __reset_handler(&mut m, &symbols());
    assert_eq!(
        m.trace(),
        &vec![
            Access::Write { addr: 0x2000_0000, value: 0 },
            Access::Write { addr: 0x2000_0004, value: 0 },
            Access::Write { addr: 0x2000_0008, value: 0 },
            Access::Write { addr: 0x2000_000c, value: 0 },
            Access::Read { addr: 0x0800_1000 },
            Access::Write { addr: 0x2000_0010, value: 0xefbe_adde },
            Access::Read { addr: 0x0800_1004 },
            Access::Write { addr: 0x2000_0014, value: 0xbeba_feca },
        ]
    );
}

#[test]
fn first_writes_target_bss() {
    let mut m = memory();
    let s = LinkerSymbols { sbss: 0x2000_0018, ebss: 0x2000_0020, sdata: 0x2000_0000, edata: 0x2000_0008, ..symbols() };
    __reset_handler(&mut m, &s);
    let trace = m.trace();
    assert_eq!(trace.len(), 6);
    assert_eq!(trace[0], Access::Write { addr: 0x2000_0018, value: 0 });
    assert_eq!(trace[1], Access::Write { addr: 0x2000_001c, value: 0 });
    assert_eq!(trace[2], Access::Read { addr: 0x0800_1000 });
    assert_eq!(
        ram(&m, 8),
        vec![0xefbe_adde, 0xbeba_feca, 0xffff_ffff, 0xffff_ffff, 0xffff_ffff, 0xffff_ffff, 0, 0]
    );
}

#[test]
fn init_bss_clears_only_the_region() {
    let mut m = memory();
    let s = LinkerSymbols { sbss: 0x2000_0008, ebss: 0x2000_0010, ..symbols() };
    init_bss(&mut m, &s);
    assert_eq!(
        ram(&m, 8),
        vec![
            0xffff_ffff,
            0xffff_ffff,
            0,
            0,
            0xffff_ffff,
            0xffff_ffff,
            0xffff_ffff,
            0xffff_ffff
        ]
    );
    assert_eq!(
        m.trace(),
        &vec![
            Access::Write { addr: 0x2000_0008, value: 0 },
            Access::Write { addr: 0x2000_000c, value: 0 },
        ]
    );
}

#[test]
fn init_data_copies_only_the_region() {
    let mut m = memory();
    let s = LinkerSymbols { sdata: 0x2000_0004, edata: 0x2000_0008, sidata: 0x0800_1004, ..symbols() };
    init_data(&mut m, &s);
    let mut expected = vec![0xffff_ffff; 8];
    expected[1] = 0xbeba_feca;
    assert_eq!(ram(&m, 8), expected);
    assert_eq!(
        m.trace(),
        &vec![
            Access::Read { addr: 0x0800_1004 },
            Access::Write { addr: 0x2000_0004, value: 0xbeba_feca },
        ]
    );
}

#[test]
fn empty_bss_is_not_accessed() {
    let mut m = memory();
    let s = LinkerSymbols { sbss: 0x2000_0008, ebss: 0x2000_0008, ..symbols() };
    init_bss(&mut m, &s);
    assert!(m.trace().is_empty());
    assert_eq!(ram(&m, 8), vec![0xffff_ffff; 8]);
    __reset_handler(&mut m, &s);
    assert_eq!(m.trace().len(), 4);
    assert_eq!(m.trace()[0], Access::Read { addr: 0x0800_1000 });
}

#[test]
fn empty_data_is_not_accessed() {
    let mut m = memory();
    let s = LinkerSymbols { sdata: 0x2000_0010, edata: 0x2000_0010, ..symbols() };
    init_data(&mut m, &s);
    assert!(m.trace().is_empty());
    assert_eq!(ram(&m, 8), vec![0xffff_ffff; 8]);
    __reset_handler(&mut m, &s);
    assert_eq!(m.trace().len(), 4);
    assert_eq!(ram(&m, 8)[4..], [0xffff_ffff; 4]);
}

#[test]
fn end_before_start_does_nothing() {
    let mut m = memory();
    let s = LinkerSymbols {
        sbss: 0x2000_0010,
        ebss: 0x2000_0000,
        sdata: 0x2000_0018,
        edata: 0x2000_0010,
        ..symbols()
    };
    assert!(s.fits(&m));
    __reset_handler(&mut m, &s);
    assert!(m.trace().is_empty());
    assert_eq!(ram(&m, 8), vec![0xffff_ffff; 8]);
}

#[test]
fn initialising_twice_is_initialising_once() {
    let mut once = memory();
    __reset_handler(&mut once, &symbols());
    let mut twice = memory();
    __reset_handler(&mut twice, &symbols());
    __reset_handler(&mut twice, &symbols());
    assert_eq!(ram(&once, 8), ram(&twice, 8));
    assert_eq!(twice.rom_word(0x0800_1000), once.rom_word(0x0800_1000));
    assert_eq!(twice.rom_word(0x0800_1004), once.rom_word(0x0800_1004));
    assert_eq!(twice.trace().len(), 2 * once.trace().len());
}

#[test]
fn overlapping_regions_leave_the_image_on_top() {
    let mut m = memory();
    let s = LinkerSymbols { sbss: 0x2000_0000, ebss: 0x2000_0010, sdata: 0x2000_0008, edata: 0x2000_0010, ..symbols() };
    __reset_handler(&mut m, &s);
    assert_eq!(ram(&m, 4), vec![0, 0, 0xefbe_adde, 0xbeba_feca]);
}

#[test]
fn words_of_a_region() {
    assert_eq!(region_words(0x2000_0000, 0x2000_0010), 4);
    assert_eq!(region_words(0x2000_0010, 0x2000_0018), 2);
    assert_eq!(region_words(0x2000_0000, 0x2000_0004), 1);
    assert_eq!(region_words(0x2000_0000, 0x2000_0000), 0);
    assert_eq!(region_words(0x2000_0010, 0x2000_0000), 0);
    assert_eq!(region_words(0, usize::MAX), usize::MAX / 4);
}

#[test]
fn heap_starts_where_the_linker_says() {
    assert_eq!(heap_start(&symbols()), 0x2000_0018);
    let s = LinkerSymbols { heap_start: 0x2000_4000, ..symbols() };
    assert_eq!(heap_start(&s), 0x2000_4000);
}

#[test]
fn symbols_that_do_not_fit() {
    let m = memory();
    assert!(symbols().fits(&m));
    let past_ram = LinkerSymbols { ebss: 0x2000_0024, ..symbols() };
    assert!(!past_ram.fits(&m));
    let misaligned = LinkerSymbols { sbss: 0x2000_0002, ..symbols() };
    assert!(!misaligned.fits(&m));
    let data_outside = LinkerSymbols { sdata: 0x1fff_fff8, edata: 0x2000_0000, ..symbols() };
    assert!(!data_outside.fits(&m));
    let image_short = LinkerSymbols { sidata: 0x0800_1004, ..symbols() };
    assert!(!image_short.fits(&m));
    let image_in_ram = LinkerSymbols { sidata: 0x2000_0000, ..symbols() };
    assert!(!image_in_ram.fits(&m));
    let image_wraps = LinkerSymbols { sidata: usize::MAX - 3, ..symbols() };
    assert!(!image_wraps.fits(&m));
    let image_misaligned = LinkerSymbols { sidata: 0x0800_1002, ..symbols() };
    assert!(!image_misaligned.fits(&m));
}
