//! A model of the memory that the startup code works on: one bank of RAM,
//! one bank of ROM, and the trace of the accesses made so far.

use vstd::prelude::*;

verus! {

/// One access to memory, as the bus sees it.
#[derive(Clone, Copy, Debug, PartialEq, Eq)]
pub enum Access {
    /// A word was read from `addr`.
    Read { addr: usize },
    /// The word `value` was written to `addr`.
    Write { addr: usize, value: u32 },
}

/// What a `Memory` stands for. Addresses count bytes; a bank holds words of
/// four bytes, the word with index `i` at address `base + 4 * i`.
pub struct MemoryView {
    pub ram_base: usize,
    pub ram: Seq<u32>,
    pub rom_base: usize,
    pub rom: Seq<u32>,
    pub trace: Seq<Access>,
}

/// The byte in lane `lane` of `word`, lane 0 being the byte at the lowest
/// address: words lie in memory least significant byte first.
pub open spec fn byte_of(word: u32, lane: int) -> u8 {
    ((word >> ((8 * lane) as u32)) & 0xff) as u8
}

impl MemoryView {
    /// Whether the two banks make a memory: see `banks_fit`. Every `Memory`
    /// that `Memory::new` hands out is well-formed and stays so.
    pub open spec fn wf(self) -> bool {
        banks_fit(self.ram_base, self.ram.len(), self.rom_base, self.rom.len())
    }

    /// Whether `addr` is the address of a word of RAM.
    pub open spec fn in_ram(self, addr: int) -> bool {
        addr % 4 == 0 && self.ram_base <= addr < self.ram_base + 4 * self.ram.len()
    }

    /// Whether `addr` is the address of a word of ROM.
    pub open spec fn in_rom(self, addr: int) -> bool {
        addr % 4 == 0 && self.rom_base <= addr < self.rom_base + 4 * self.rom.len()
    }

    /// The word of RAM at `addr`.
    pub open spec fn ram_word(self, addr: int) -> u32
        recommends
            self.in_ram(addr),
    {
        self.ram[(addr - self.ram_base) / 4]
    }

    /// The word of ROM at `addr`.
    pub open spec fn rom_word(self, addr: int) -> u32
        recommends
            self.in_rom(addr),
    {
        self.rom[(addr - self.rom_base) / 4]
    }

    /// The byte of RAM at `addr`, which need not be word-aligned.
    pub open spec fn ram_byte(self, addr: int) -> u8
        recommends
            self.in_ram(addr - addr % 4),
    {
        byte_of(self.ram_word(addr - addr % 4), addr % 4)
    }

    /// The byte of ROM at `addr`, which need not be word-aligned.
    pub open spec fn rom_byte(self, addr: int) -> u8
        recommends
            self.in_rom(addr - addr % 4),
    {
        byte_of(self.rom_word(addr - addr % 4), addr % 4)
    }

    /// Whether the words from `start` up to `end` all lie in RAM. Both ends
    /// are word-aligned.
    pub open spec fn ram_holds(self, start: int, end: int) -> bool {
        &&& start % 4 == 0
        &&& end % 4 == 0
        &&& self.ram_base <= start <= end <= self.ram_base + 4 * self.ram.len()
    }

    /// Whether the words from `start` up to `end` all lie in ROM. Both ends
    /// are word-aligned.
    pub open spec fn rom_holds(self, start: int, end: int) -> bool {
        &&& start % 4 == 0
        &&& end % 4 == 0
        &&& self.rom_base <= start <= end <= self.rom_base + 4 * self.rom.len()
    }
}

/// Whether two banks with these bases and lengths (in words) make a memory:
/// both bases are word-aligned, both banks end within the address space, and
/// they share no address.
pub open spec fn banks_fit(ram_base: usize, ram_len: nat, rom_base: usize, rom_len: nat) -> bool {
    &&& ram_base % 4 == 0
    &&& rom_base % 4 == 0
    &&& ram_base + 4 * ram_len <= usize::MAX
    &&& rom_base + 4 * rom_len <= usize::MAX
    &&& (ram_base + 4 * ram_len <= rom_base || rom_base + 4 * rom_len <= ram_base)
}

/// RAM, ROM and the trace of accesses.
pub struct Memory {
    ram_base: usize,
    ram: Vec<u32>,
    rom_base: usize,
    rom: Vec<u32>,
    trace: Vec<Access>,
}

impl View for Memory {
    type V = MemoryView;

    closed spec fn view(&self) -> MemoryView {
        MemoryView {
            ram_base: self.ram_base,
            ram: self.ram@,
            rom_base: self.rom_base,
            rom: self.rom@,
            trace: self.trace@,
        }
    }
}

/// The end of a bank of `len` words at `base`, where it lies within the
/// address space.
fn bank_end(base: usize, len: usize) -> (end: Option<usize>)
    ensures
        end is Some <==> base + 4 * len <= usize::MAX,
        end is Some ==> end.unwrap() == base + 4 * len,
{
    match len.checked_mul(4) {
        Some(bytes) => base.checked_add(bytes),
        None => None,
    }
}

/// The byte in lane `lane` of `word`.
fn lane_of(word: u32, lane: usize) -> (byte: u8)
    requires
        lane < 4,
    ensures
        byte == byte_of(word, lane as int),
{
    let shift: u32 = 8 * (lane as u32);
    ((word >> shift) & 0xff) as u8
}

impl Memory {
    /// A memory with RAM at `ram_base` holding `ram`, ROM at `rom_base`
    /// holding `rom`, and an empty trace; nothing where the banks do not fit.
    pub fn new(ram_base: usize, ram: Vec<u32>, rom_base: usize, rom: Vec<u32>) -> (memory: Option<
        Memory,
    >)
        ensures
            memory is Some <==> banks_fit(ram_base, ram@.len(), rom_base, rom@.len()),
            memory is Some ==> memory.unwrap()@.wf(),
            memory is Some ==> memory.unwrap()@ == (MemoryView {
                ram_base,
                ram: ram@,
                rom_base,
                rom: rom@,
                trace: Seq::empty(),
            }),
    {
        if ram_base % 4 != 0 || rom_base % 4 != 0 {
            return None;
        }
        let ram_end = match bank_end(ram_base, ram.len()) {
            Some(end) => end,
            None => { return None; },
        };
        let rom_end = match bank_end(rom_base, rom.len()) {
            Some(end) => end,
            None => { return None; },
        };
        if ram_end <= rom_base || rom_end <= ram_base {
            Some(Memory { ram_base, ram, rom_base, rom, trace: Vec::new() })
        } else {
            None
        }
    }

    /// Whether the words from `start` up to `end` all lie in RAM.
    pub fn ram_holds(&self, start: usize, end: usize) -> (holds: bool)
        requires
            self@.wf(),
        ensures
            holds == self@.ram_holds(start as int, end as int),
    {
        start % 4 == 0 && end % 4 == 0 && self.ram_base <= start && start <= end && end
            - self.ram_base <= 4 * self.ram.len()
    }

    /// Whether the words from `start` up to `end` all lie in ROM.
    pub fn rom_holds(&self, start: usize, end: usize) -> (holds: bool)
        requires
            self@.wf(),
        ensures
            holds == self@.rom_holds(start as int, end as int),
    {
        start % 4 == 0 && end % 4 == 0 && self.rom_base <= start && start <= end && end
            - self.rom_base <= 4 * self.rom.len()
    }

    /// Reads the word of ROM at `addr` and records the access.
    pub fn read_rom(&mut self, addr: usize) -> (value: u32)
        requires
            old(self)@.wf(),
            old(self)@.in_rom(addr as int),
        ensures
            final(self)@.wf(),
            value == old(self)@.rom_word(addr as int),
            final(self)@ == (MemoryView {
                trace: old(self)@.trace.push(Access::Read { addr }),
                ..old(self)@
            }),
    {
        let index: usize = (addr - self.rom_base) / 4;
        let value: u32 = self.rom[index];
        self.trace.push(Access::Read { addr });
        value
    }

    /// Writes `value` to the word of RAM at `addr` and records the access.
    pub fn write_ram(&mut self, addr: usize, value: u32)
        requires
            old(self)@.wf(),
            old(self)@.in_ram(addr as int),
        ensures
            final(self)@.wf(),
            final(self)@ == (MemoryView {
                ram: old(self)@.ram.update((addr - old(self)@.ram_base) / 4, value),
                trace: old(self)@.trace.push(Access::Write { addr, value }),
                ..old(self)@
            }),
    {
        let index: usize = (addr - self.ram_base) / 4;
        self.ram[index] = value;
        self.trace.push(Access::Write { addr, value });
    }

    /// The word of RAM at `addr`, or nothing where `addr` is no word of RAM.
    /// Looking leaves no trace.
    pub fn ram_word(&self, addr: usize) -> (word: Option<u32>)
        requires
            self@.wf(),
        ensures
            word is Some <==> self@.in_ram(addr as int),
            word is Some ==> word.unwrap() == self@.ram_word(addr as int),
    {
        if addr % 4 == 0 && self.ram_base <= addr && (addr - self.ram_base) / 4 < self.ram.len() {
            Some(self.ram[(addr - self.ram_base) / 4])
        } else {
            None
        }
    }

    /// The word of ROM at `addr`, or nothing where `addr` is no word of ROM.
    /// Looking leaves no trace.
    pub fn rom_word(&self, addr: usize) -> (word: Option<u32>)
        requires
            self@.wf(),
        ensures
            word is Some <==> self@.in_rom(addr as int),
            word is Some ==> word.unwrap() == self@.rom_word(addr as int),
    {
        if addr % 4 == 0 && self.rom_base <= addr && (addr - self.rom_base) / 4 < self.rom.len() {
            Some(self.rom[(addr - self.rom_base) / 4])
        } else {
            None
        }
    }

    /// The byte of RAM at `addr`, or nothing where `addr` is no byte of RAM.
    /// Looking leaves no trace.
    pub fn ram_byte(&self, addr: usize) -> (byte: Option<u8>)
        requires
            self@.wf(),
        ensures
            byte is Some <==> self@.in_ram(addr - addr % 4),
            byte is Some ==> byte.unwrap() == self@.ram_byte(addr as int),
    {
        let lane: usize = addr % 4;
        match self.ram_word(addr - lane) {
            Some(word) => Some(lane_of(word, lane)),
            None => None,
        }
    }

    /// The byte of ROM at `addr`, or nothing where `addr` is no byte of ROM.
    /// Looking leaves no trace.
    pub fn rom_byte(&self, addr: usize) -> (byte: Option<u8>)
        requires
            self@.wf(),
        ensures
            byte is Some <==> self@.in_rom(addr - addr % 4),
            byte is Some ==> byte.unwrap() == self@.rom_byte(addr as int),
    {
        let lane: usize = addr % 4;
        match self.rom_word(addr - lane) {
            Some(word) => Some(lane_of(word, lane)),
            None => None,
        }
    }

    /// The accesses made so far, oldest first.
    pub fn trace(&self) -> (trace: &Vec<Access>)
        ensures
            trace@ == self@.trace,
    {
        &self.trace
    }
}

} // verus!
