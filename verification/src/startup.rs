//! What runs between reset and the application's entry point: the region of
//! zero-initialised data is cleared, then the region of initialised data is
//! filled from its image in ROM.

use crate::memory::{Access, Memory, MemoryView};
use vstd::prelude::*;

verus! {

/// The addresses that the linker hands to the startup code.
#[derive(Clone, Copy, Debug, PartialEq, Eq)]
pub struct LinkerSymbols {
    /// Start of the zero-initialised region in RAM.
    pub sbss: usize,
    /// End of the zero-initialised region.
    pub ebss: usize,
    /// Start of the initialised-data region in RAM.
    pub sdata: usize,
    /// End of the initialised-data region.
    pub edata: usize,
    /// Start of the initial image of the data region in ROM.
    pub sidata: usize,
    /// Start of the heap: the address just past the last statically
    /// allocated byte of RAM.
    pub heap_start: usize,
}

/// The number of words in the region from `start` up to `end`: none where
/// `end` does not lie after `start`.
pub open spec fn span_words(start: usize, end: usize) -> nat {
    if end <= start {
        0
    } else {
        ((end - start) / 4) as nat
    }
}

impl LinkerSymbols {
    /// Whether the zero-initialised region can be cleared in `memory`: the
    /// region is empty, or word-aligned at both ends and within RAM.
    pub open spec fn bss_fits(self, memory: MemoryView) -> bool {
        self.sbss < self.ebss ==> memory.ram_holds(self.sbss as int, self.ebss as int)
    }

    /// Whether the initialised-data region can be filled in `memory`: the
    /// region is empty, or it is word-aligned at both ends and within RAM
    /// and its image, of the same length, is within ROM.
    pub open spec fn data_fits(self, memory: MemoryView) -> bool {
        self.sdata < self.edata ==> {
            &&& memory.ram_holds(self.sdata as int, self.edata as int)
            &&& memory.rom_holds(self.sidata as int, self.sidata + (self.edata - self.sdata))
        }
    }

    /// Whether both regions can be initialised in `memory`.
    pub open spec fn spec_fits(&self, memory: &Memory) -> bool {
        self.bss_fits(memory@) && self.data_fits(memory@)
    }

    /// Whether both regions can be initialised in `memory`.
    #[verifier::when_used_as_spec(spec_fits)]
    pub fn fits(&self, memory: &Memory) -> (fits: bool)
        requires
            memory@.wf(),
        ensures
            fits == (self.bss_fits(memory@) && self.data_fits(memory@)),
    {
        let bss: bool = self.ebss <= self.sbss || memory.ram_holds(self.sbss, self.ebss);
        if self.edata <= self.sdata {
            bss
        } else {
            let len: usize = self.edata - self.sdata;
            match self.sidata.checked_add(len) {
                Some(end) => bss && memory.ram_holds(self.sdata, self.edata) && memory.rom_holds(
                    self.sidata,
                    end,
                ),
                None => false,
            }
        }
    }
}

/// The accesses that clear the zero-initialised region: one write of zero
/// per word of the region, in ascending order of address.
pub open spec fn clearing_trace(symbols: LinkerSymbols) -> Seq<Access> {
    Seq::new(
        span_words(symbols.sbss, symbols.ebss),
        |k: int| Access::Write { addr: (symbols.sbss + 4 * k) as usize, value: 0 },
    )
}

/// The accesses that fill the initialised-data region: per word of the
/// region, in ascending order of address, the read of the word of the image
/// and then the write of what was read.
pub open spec fn copying_trace(memory: MemoryView, symbols: LinkerSymbols) -> Seq<Access> {
    Seq::new(
        2 * span_words(symbols.sdata, symbols.edata),
        |k: int|
            if k % 2 == 0 {
                Access::Read { addr: (symbols.sidata + 4 * (k / 2)) as usize }
            } else {
                Access::Write {
                    addr: (symbols.sdata + 4 * (k / 2)) as usize,
                    value: memory.rom_word(symbols.sidata + 4 * (k / 2)),
                }
            },
    )
}

/// The memory after the zero-initialised region has been cleared: every
/// word of RAM whose address lies in the region is zero, every other word is
/// as before, and the trace has grown by the accesses that clear.
pub open spec fn bss_cleared(memory: MemoryView, symbols: LinkerSymbols) -> MemoryView {
    MemoryView {
        ram: Seq::new(
            memory.ram.len(),
            |i: int|
                if symbols.sbss <= memory.ram_base + 4 * i < symbols.ebss {
                    0u32
                } else {
                    memory.ram[i]
                },
        ),
        trace: memory.trace + clearing_trace(symbols),
        ..memory
    }
}

/// The memory after the initialised-data region has been filled: every word
/// of RAM whose address lies in the region equals the word of ROM at the
/// same offset into the image, every other word is as before, and the trace
/// has grown by the accesses that fill.
pub open spec fn data_copied(memory: MemoryView, symbols: LinkerSymbols) -> MemoryView {
    MemoryView {
        ram: Seq::new(
            memory.ram.len(),
            |i: int|
                if symbols.sdata <= memory.ram_base + 4 * i < symbols.edata {
                    memory.rom_word(symbols.sidata + (memory.ram_base + 4 * i - symbols.sdata))
                } else {
                    memory.ram[i]
                },
        ),
        trace: memory.trace + copying_trace(memory, symbols),
        ..memory
    }
}

/// The memory at the moment the reset entry hands over to the application:
/// cleared first, filled second.
pub open spec fn booted(memory: MemoryView, symbols: LinkerSymbols) -> MemoryView {
    data_copied(bss_cleared(memory, symbols), symbols)
}

/// The memory after the first `done` words from `start` on have been
/// cleared, one after the other.
spec fn cleared_upto(memory: MemoryView, start: usize, done: nat) -> MemoryView {
    MemoryView {
        ram: Seq::new(
            memory.ram.len(),
            |j: int|
                if start <= memory.ram_base + 4 * j < start + 4 * done {
                    0u32
                } else {
                    memory.ram[j]
                },
        ),
        trace: memory.trace + Seq::new(
            done,
            |k: int| Access::Write { addr: (start + 4 * k) as usize, value: 0 },
        ),
        ..memory
    }
}

/// The number of words in the region from `start` up to `end`.
pub fn region_words(start: usize, end: usize) -> (words: usize)
    ensures
        words == span_words(start, end),
{
    if end <= start {
        0
    } else {
        (end - start) / 4
    }
}

/// The address at which the heap starts.
#[inline]
pub fn heap_start(symbols: &LinkerSymbols) -> (addr: usize)
    ensures
        addr == symbols.heap_start,
{
    symbols.heap_start
}

/// Clearing one more word: what it does to RAM and to the trace.
proof fn lemma_clear_step(memory: MemoryView, start: usize, done: nat)
    requires
        start % 4 == 0,
        memory.ram_base % 4 == 0,
        memory.ram_base <= start,
        start + 4 * (done + 1) <= memory.ram_base + 4 * memory.ram.len(),
    ensures
        cleared_upto(memory, start, done + 1).ram == cleared_upto(memory, start, done).ram.update(
            (start + 4 * done - memory.ram_base) / 4,
            0u32,
        ),
        cleared_upto(memory, start, done + 1).trace == cleared_upto(memory, start, done).trace.push(
            Access::Write { addr: (start + 4 * done) as usize, value: 0 },
        ),
{
    let before = cleared_upto(memory, start, done);
    let after = cleared_upto(memory, start, done + 1);
    let slot = (start + 4 * done - memory.ram_base) / 4;
    assert(memory.ram_base + 4 * slot == start + 4 * done);
    assert(after.ram =~= before.ram.update(slot, 0u32));
    assert(after.trace =~= before.trace.push(
        Access::Write { addr: (start + 4 * done) as usize, value: 0 },
    ));
}

/// Writes zero to every word of the zero-initialised region, in ascending
/// order of address. An empty region is left alone: nothing is accessed.
pub fn init_bss(memory: &mut Memory, symbols: &LinkerSymbols)
    requires
        old(memory)@.wf(),
        symbols.bss_fits(old(memory)@),
    ensures
        final(memory)@.wf(),
        final(memory)@ == bss_cleared(old(memory)@, *symbols),
        symbols.ebss <= symbols.sbss ==> final(memory)@ == old(memory)@,
{
    let words: usize = region_words(symbols.sbss, symbols.ebss);
    let mut i: usize = 0;
    proof {
        let now = cleared_upto(memory@, symbols.sbss, 0);
        assert(memory@.ram =~= now.ram);
        assert(memory@.trace =~= now.trace);
    }
    while i < words
        invariant
            i <= words,
            words == span_words(symbols.sbss, symbols.ebss),
            old(memory)@.wf(),
            symbols.bss_fits(old(memory)@),
            memory@.wf(),
            memory@ == cleared_upto(old(memory)@, symbols.sbss, i as nat),
        decreases words - i,
    {
        proof {
            lemma_clear_step(old(memory)@, symbols.sbss, i as nat);
        }
        memory.write_ram(symbols.sbss + 4 * i, 0);
        i += 1;
    }
    proof {
        assert(memory@.ram =~= bss_cleared(old(memory)@, *symbols).ram);
        assert(memory@.trace =~= bss_cleared(old(memory)@, *symbols).trace);
        if symbols.ebss <= symbols.sbss {
            assert(memory@.ram =~= old(memory)@.ram);
            assert(memory@.trace =~= old(memory)@.trace);
        }
    }
}

/// The memory after the first `done` words of the image at `image` have
/// been copied to `start` on, one after the other.
spec fn copied_upto(memory: MemoryView, start: usize, image: usize, done: nat) -> MemoryView {
    MemoryView {
        ram: Seq::new(
            memory.ram.len(),
            |j: int|
                if start <= memory.ram_base + 4 * j < start + 4 * done {
                    memory.rom_word(image + (memory.ram_base + 4 * j - start))
                } else {
                    memory.ram[j]
                },
        ),
        trace: memory.trace + Seq::new(
            2 * done,
            |k: int|
                if k % 2 == 0 {
                    Access::Read { addr: (image + 4 * (k / 2)) as usize }
                } else {
                    Access::Write {
                        addr: (start + 4 * (k / 2)) as usize,
                        value: memory.rom_word(image + 4 * (k / 2)),
                    }
                },
        ),
        ..memory
    }
}

/// Copying one more word: what it does to RAM and to the trace.
proof fn lemma_copy_step(memory: MemoryView, start: usize, image: usize, done: nat)
    requires
        start % 4 == 0,
        memory.ram_base % 4 == 0,
        memory.ram_base <= start,
        start + 4 * (done + 1) <= memory.ram_base + 4 * memory.ram.len(),
    ensures
        copied_upto(memory, start, image, done + 1).ram == copied_upto(
            memory,
            start,
            image,
            done,
        ).ram.update(
            (start + 4 * done - memory.ram_base) / 4,
            memory.rom_word(image + 4 * done),
        ),
        copied_upto(memory, start, image, done + 1).trace == copied_upto(
            memory,
            start,
            image,
            done,
        ).trace.push(Access::Read { addr: (image + 4 * done) as usize }).push(
            Access::Write {
                addr: (start + 4 * done) as usize,
                value: memory.rom_word(image + 4 * done),
            },
        ),
{
    let before = copied_upto(memory, start, image, done);
    let after = copied_upto(memory, start, image, done + 1);
    let slot = (start + 4 * done - memory.ram_base) / 4;
    assert(memory.ram_base + 4 * slot == start + 4 * done);
    assert(after.ram =~= before.ram.update(slot, memory.rom_word(image + 4 * done))) by {
        assert forall|j: int| 0 <= j < memory.ram.len() implies after.ram[j] == before.ram.update(
            slot,
            memory.rom_word(image + 4 * done),
        )[j] by {
            if j == slot {
                assert(image + (memory.ram_base + 4 * j - start) == image + 4 * done);
            }
        }
    }
    let read = Access::Read { addr: (image + 4 * done) as usize };
    let write = Access::Write {
        addr: (start + 4 * done) as usize,
        value: memory.rom_word(image + 4 * done),
    };
    let grown = before.trace.push(read).push(write);
    assert(after.trace.len() == grown.len());
    assert forall|k: int| 0 <= k < grown.len() implies after.trace[k] == grown[k] by {
        let base = memory.trace.len();
        if k < base {
        } else if k < base + 2 * done {
            assert(after.trace[k] == before.trace[k]);
        } else if k == base + 2 * done {
            assert((k - base) % 2 == 0 && (k - base) / 2 == done);
        } else {
            assert((k - base) % 2 == 1 && (k - base) / 2 == done);
        }
    }
    assert(after.trace =~= grown);
}

/// Copies the image in ROM to the initialised-data region, word by word in
/// ascending order of address. An empty region is left alone: nothing is
/// accessed.
pub fn init_data(memory: &mut Memory, symbols: &LinkerSymbols)
    requires
        old(memory)@.wf(),
        symbols.data_fits(old(memory)@),
    ensures
        final(memory)@.wf(),
        final(memory)@ == data_copied(old(memory)@, *symbols),
        symbols.edata <= symbols.sdata ==> final(memory)@ == old(memory)@,
{
    let words: usize = region_words(symbols.sdata, symbols.edata);
    let mut i: usize = 0;
    proof {
        let now = copied_upto(memory@, symbols.sdata, symbols.sidata, 0);
        assert(memory@.ram =~= now.ram);
        assert(memory@.trace =~= now.trace);
    }
    while i < words
        invariant
            i <= words,
            words == span_words(symbols.sdata, symbols.edata),
            old(memory)@.wf(),
            symbols.data_fits(old(memory)@),
            memory@.wf(),
            memory@ == copied_upto(old(memory)@, symbols.sdata, symbols.sidata, i as nat),
        decreases words - i,
    {
        proof {
            lemma_copy_step(old(memory)@, symbols.sdata, symbols.sidata, i as nat);
        }
        let value: u32 = memory.read_rom(symbols.sidata + 4 * i);
        memory.write_ram(symbols.sdata + 4 * i, value);
        i += 1;
    }
    proof {
        assert(memory@.ram =~= data_copied(old(memory)@, *symbols).ram);
        assert(memory@.trace =~= data_copied(old(memory)@, *symbols).trace);
        if symbols.edata <= symbols.sdata {
            assert(memory@.ram =~= old(memory)@.ram);
            assert(memory@.trace =~= old(memory)@.trace);
        }
    }
}

/// The reset entry, up to the jump to the application: clears the
/// zero-initialised region, then fills the initialised-data region. The
/// first accesses it makes are the writes that clear.
pub fn __reset_handler(memory: &mut Memory, symbols: &LinkerSymbols)
    requires
        old(memory)@.wf(),
        symbols.bss_fits(old(memory)@),
        symbols.data_fits(old(memory)@),
    ensures
        final(memory)@.wf(),
        final(memory)@ == booted(old(memory)@, *symbols),
        symbols.ebss <= symbols.sbss && symbols.edata <= symbols.sdata ==> final(memory)@ == old(
            memory,
        )@,
{
    init_bss(memory, symbols);
    init_data(memory, symbols);
}

/// Clearing an empty zero-initialised region changes nothing and accesses
/// nothing, and so does filling an empty initialised-data region.
pub proof fn lemma_empty_regions(memory: MemoryView, symbols: LinkerSymbols)
    ensures
        symbols.ebss <= symbols.sbss ==> bss_cleared(memory, symbols) == memory,
        symbols.edata <= symbols.sdata ==> data_copied(memory, symbols) == memory,
        symbols.ebss <= symbols.sbss ==> booted(memory, symbols) == data_copied(memory, symbols),
        symbols.edata <= symbols.sdata ==> booted(memory, symbols) == bss_cleared(
            memory,
            symbols,
        ),
{
    if symbols.ebss <= symbols.sbss {
        assert(bss_cleared(memory, symbols).ram =~= memory.ram);
        assert(clearing_trace(symbols) =~= Seq::empty());
        assert(bss_cleared(memory, symbols).trace =~= memory.trace);
    }
    if symbols.edata <= symbols.sdata {
        let cleared = bss_cleared(memory, symbols);
        assert(data_copied(memory, symbols).ram =~= memory.ram);
        assert(copying_trace(memory, symbols) =~= Seq::empty());
        assert(copying_trace(cleared, symbols) =~= Seq::empty());
        assert(data_copied(memory, symbols).trace =~= memory.trace);
        assert(data_copied(cleared, symbols).ram =~= cleared.ram);
        assert(data_copied(cleared, symbols).trace =~= cleared.trace);
    }
}

/// One word of RAM when the reset entry hands over: the word of the image
/// at the same offset where the address lies in the initialised-data
/// region, else zero where it lies in the zero-initialised region, else what
/// it was.
pub proof fn lemma_booted_word(memory: MemoryView, symbols: LinkerSymbols, addr: int)
    requires
        memory.wf(),
        memory.in_ram(addr),
    ensures
        booted(memory, symbols).ram_word(addr) == (if symbols.sdata <= addr < symbols.edata {
            memory.rom_word(symbols.sidata + (addr - symbols.sdata))
        } else if symbols.sbss <= addr < symbols.ebss {
            0u32
        } else {
            memory.ram_word(addr)
        }),
{
    let j = (addr - memory.ram_base) / 4;
    assert(memory.ram_base + 4 * j == addr);
    assert(0 <= j < memory.ram.len());
    let cleared = bss_cleared(memory, symbols);
    assert(cleared.ram[j] == (if symbols.sbss <= addr < symbols.ebss {
        0u32
    } else {
        memory.ram[j]
    }));
    assert(cleared.rom_word(symbols.sidata + (addr - symbols.sdata)) == memory.rom_word(
        symbols.sidata + (addr - symbols.sdata),
    ));
    assert(booted(memory, symbols).ram[j] == (if symbols.sdata <= addr < symbols.edata {
        cleared.rom_word(symbols.sidata + (addr - symbols.sdata))
    } else {
        cleared.ram[j]
    }));
}

/// When the reset entry hands over, every word of the initialised-data
/// region equals the word at the same offset into the image, whatever RAM
/// held before; where the two regions share no address, every word of the
/// zero-initialised region is zero; every word of RAM outside both regions
/// is as it was, and ROM is untouched.
pub proof fn lemma_booted_regions(memory: MemoryView, symbols: LinkerSymbols)
    requires
        memory.wf(),
        symbols.bss_fits(memory),
        symbols.data_fits(memory),
    ensures
        booted(memory, symbols).ram_base == memory.ram_base,
        booted(memory, symbols).ram.len() == memory.ram.len(),
        booted(memory, symbols).rom_base == memory.rom_base,
        booted(memory, symbols).rom == memory.rom,
        forall|addr: int|
            symbols.sdata <= addr < symbols.edata && addr % 4 == 0 ==> #[trigger] booted(
                memory,
                symbols,
            ).ram_word(addr) == memory.rom_word(symbols.sidata + (addr - symbols.sdata)),
        forall|addr: int|
            symbols.sbss <= addr < symbols.ebss && addr % 4 == 0 && !(symbols.sdata <= addr
                < symbols.edata) ==> #[trigger] booted(memory, symbols).ram_word(addr) == 0,
        forall|addr: int|
            memory.in_ram(addr) && !(symbols.sbss <= addr < symbols.ebss) && !(symbols.sdata
                <= addr < symbols.edata) ==> #[trigger] booted(memory, symbols).ram_word(addr)
                == memory.ram_word(addr),
{
    let after = booted(memory, symbols);
    assert forall|addr: int|
        symbols.sdata <= addr < symbols.edata && addr % 4 == 0 implies #[trigger] after.ram_word(
        addr,
    ) == memory.rom_word(symbols.sidata + (addr - symbols.sdata)) by {
        lemma_booted_word(memory, symbols, addr);
    }
    assert forall|addr: int|
        symbols.sbss <= addr < symbols.ebss && addr % 4 == 0 && !(symbols.sdata <= addr
            < symbols.edata) implies #[trigger] after.ram_word(addr) == 0 by {
        lemma_booted_word(memory, symbols, addr);
    }
    assert forall|addr: int|
        memory.in_ram(addr) && !(symbols.sbss <= addr < symbols.ebss) && !(symbols.sdata <= addr
            < symbols.edata) implies #[trigger] after.ram_word(addr) == memory.ram_word(addr) by {
        lemma_booted_word(memory, symbols, addr);
    }
}

/// The word that holds the byte at `addr`, for a byte of a word-aligned
/// region from `start` up to `end`, and where that word's counterpart lies
/// in a word-aligned image at `image`.
proof fn lemma_word_of_byte(start: int, end: int, image: int, addr: int)
    requires
        start % 4 == 0,
        end % 4 == 0,
        image % 4 == 0,
        start <= addr < end,
    ensures
        start <= addr - addr % 4 < end,
        (addr - addr % 4) % 4 == 0,
        (image + (addr - start)) % 4 == addr % 4,
        (image + (addr - start)) - (image + (addr - start)) % 4 == image + (addr - addr % 4
            - start),
{
}

/// The same byte by byte: when the reset entry hands over, every byte of
/// the initialised-data region equals the byte at the same offset into the
/// image, and, where the two regions share no address, every byte of the
/// zero-initialised region is zero.
pub proof fn lemma_booted_bytes(memory: MemoryView, symbols: LinkerSymbols)
    requires
        memory.wf(),
        symbols.bss_fits(memory),
        symbols.data_fits(memory),
    ensures
        forall|addr: int|
            symbols.sdata <= addr < symbols.edata ==> #[trigger] booted(memory, symbols).ram_byte(
                addr,
            ) == memory.rom_byte(symbols.sidata + (addr - symbols.sdata)),
        forall|addr: int|
            symbols.sbss <= addr < symbols.ebss && !(symbols.sdata <= addr < symbols.edata)
                ==> #[trigger] booted(memory, symbols).ram_byte(addr) == 0,
{
    let after = booted(memory, symbols);
    assert forall|addr: int| symbols.sdata <= addr < symbols.edata implies #[trigger] after.ram_byte(
        addr,
    ) == memory.rom_byte(symbols.sidata + (addr - symbols.sdata)) by {
        let word = addr - addr % 4;
        lemma_word_of_byte(
            symbols.sdata as int,
            symbols.edata as int,
            symbols.sidata as int,
            addr,
        );
        lemma_booted_word(memory, symbols, word);
    }
    assert forall|addr: int|
        symbols.sbss <= addr < symbols.ebss && !(symbols.sdata <= addr
            < symbols.edata) implies #[trigger] after.ram_byte(addr) == 0 by {
        let word = addr - addr % 4;
        lemma_word_of_byte(symbols.sbss as int, symbols.ebss as int, 0, addr);
        if symbols.sdata < symbols.edata {
            assert(!(symbols.sdata <= word < symbols.edata));
        }
        lemma_booted_word(memory, symbols, word);
        let shift = (8 * (addr % 4)) as u32;
        assert((0u32 >> shift) & 0xff == 0) by (bit_vector);
    }
}

/// The reset entry clears before it fills: the accesses it adds to the
/// trace are those that clear the zero-initialised region, each a write of
/// zero to an address of that region, and only after them those that fill
/// the initialised-data region.
pub proof fn lemma_boot_order(memory: MemoryView, symbols: LinkerSymbols)
    ensures
        booted(memory, symbols).trace == memory.trace + clearing_trace(symbols) + copying_trace(
            memory,
            symbols,
        ),
        forall|k: int|
            0 <= k < clearing_trace(symbols).len() ==> {
                &&& #[trigger] clearing_trace(symbols)[k] is Write
                &&& clearing_trace(symbols)[k]->Write_value == 0
                &&& clearing_trace(symbols)[k]->Write_addr == symbols.sbss + 4 * k
                &&& symbols.sbss <= clearing_trace(symbols)[k]->Write_addr < symbols.ebss
            },
{
    let cleared = bss_cleared(memory, symbols);
    assert(copying_trace(cleared, symbols) =~= copying_trace(memory, symbols));
    assert forall|k: int| 0 <= k < clearing_trace(symbols).len() implies {
        &&& #[trigger] clearing_trace(symbols)[k] is Write
        &&& clearing_trace(symbols)[k]->Write_value == 0
        &&& clearing_trace(symbols)[k]->Write_addr == symbols.sbss + 4 * k
        &&& symbols.sbss <= clearing_trace(symbols)[k]->Write_addr < symbols.ebss
    } by {
        assert(4 * (k + 1) <= symbols.ebss - symbols.sbss);
    }
}

/// Initialising twice leaves RAM and ROM as initialising once does: zero is
/// written over zero and the image over its own copy.
pub proof fn lemma_boot_twice(memory: MemoryView, symbols: LinkerSymbols)
    ensures
        bss_cleared(bss_cleared(memory, symbols), symbols).ram == bss_cleared(memory, symbols).ram,
        data_copied(data_copied(memory, symbols), symbols).ram == data_copied(
            memory,
            symbols,
        ).ram,
        booted(booted(memory, symbols), symbols).ram == booted(memory, symbols).ram,
        booted(booted(memory, symbols), symbols).rom == booted(memory, symbols).rom,
        booted(booted(memory, symbols), symbols).ram_base == booted(memory, symbols).ram_base,
        booted(booted(memory, symbols), symbols).rom_base == booted(memory, symbols).rom_base,
{
    assert(bss_cleared(bss_cleared(memory, symbols), symbols).ram =~= bss_cleared(
        memory,
        symbols,
    ).ram);
    assert(data_copied(data_copied(memory, symbols), symbols).ram =~= data_copied(
        memory,
        symbols,
    ).ram);
    assert(booted(booted(memory, symbols), symbols).ram =~= booted(memory, symbols).ram);
}

} // verus!
