//! Vector-table slots and the three tables built from them.

use vstd::prelude::*;

verus! {

/// Number of slots in the exception table (architectural exceptions 2 to 15).
pub const EXCEPTION_SLOTS: usize = 14;

/// Number of slots in the interrupt table, one per device interrupt line.
pub const INTERRUPT_SLOTS: usize = 240;

/// The address of a handler routine. A routine never lives at address zero,
/// so the word of a handler can always be told apart from a reserved word.
#[derive(Clone, Copy, Debug, PartialEq, Eq)]
pub struct HandlerFn {
    addr: usize,
}

impl View for HandlerFn {
    type V = usize;

    closed spec fn view(&self) -> usize {
        self.addr
    }
}

impl HandlerFn {
    #[verifier::type_invariant]
    spec fn nonzero(self) -> bool {
        self.addr != 0
    }

    /// The routine at `addr`, or nothing where `addr` is zero.
    pub fn at(addr: usize) -> (func: Option<HandlerFn>)
        ensures
            func is Some <==> addr != 0,
            func is Some ==> func.unwrap()@ == addr,
    {
        if addr == 0 {
            None
        } else {
            Some(HandlerFn { addr })
        }
    }

    /// The address of the routine, which is never zero.
    pub fn addr(&self) -> (addr: usize)
        ensures
            addr == self@,
            addr != 0,
    {
        proof {
            use_type_invariant(self);
        }
        self.addr
    }
}

/// One slot of the vector table: a machine word that is either the address of
/// a handler or, in a reserved position, zero.
#[derive(Clone, Copy, Debug, PartialEq, Eq)]
pub struct Handler {
    word: usize,
}

impl View for Handler {
    type V = usize;

    closed spec fn view(&self) -> usize {
        self.word
    }
}

impl Handler {
    /// A reserved slot: the zero word.
    #[inline]
    pub fn reserved() -> (slot: Handler)
        ensures
            slot@ == 0,
    {
        Handler { word: 0 }
    }

    /// A slot that holds the address of `func`.
    #[inline]
    pub fn new(func: HandlerFn) -> (slot: Handler)
        ensures
            slot@ == func@,
            slot@ != 0,
    {
        Handler { word: func.addr() }
    }

    /// The word that the processor reads from this slot.
    pub fn word(&self) -> (word: usize)
        ensures
            word == self@,
    {
        self.word
    }

    /// Whether the slot is reserved, that is, holds the zero word.
    pub fn is_reserved(&self) -> (reserved: bool)
        ensures
            reserved == (self@ == 0),
    {
        self.word == 0
    }
}

/// The architecture that an image is built for.
#[derive(Clone, Copy, Debug, PartialEq, Eq, Structural)]
pub enum Arch {
    /// Armv6-M (Cortex-M0 class).
    Armv6M,
    /// Armv7-M and Armv7E-M.
    Armv7M,
    /// Armv8-M.
    Armv8M,
}

/// The architectural exceptions that have a slot of their own.
#[derive(Clone, Copy, Debug, PartialEq, Eq, Structural)]
pub enum Exception {
    NonMaskableInterrupt,
    HardFault,
    MemoryManagementFault,
    BusFault,
    UsageFault,
    SecureFault,
    SvCall,
    DebugMonitor,
    PendSv,
    SysTick,
}

/// The exception that owns the architectural exception number `number`, if
/// the architecture family defines one there. Numbers 2 to 15 make up the
/// exception table; 8 to 10 and 13 belong to no exception.
pub open spec fn exception_numbered(number: int) -> Option<Exception> {
    if number == 2 {
        Some(Exception::NonMaskableInterrupt)
    } else if number == 3 {
        Some(Exception::HardFault)
    } else if number == 4 {
        Some(Exception::MemoryManagementFault)
    } else if number == 5 {
        Some(Exception::BusFault)
    } else if number == 6 {
        Some(Exception::UsageFault)
    } else if number == 7 {
        Some(Exception::SecureFault)
    } else if number == 11 {
        Some(Exception::SvCall)
    } else if number == 12 {
        Some(Exception::DebugMonitor)
    } else if number == 14 {
        Some(Exception::PendSv)
    } else if number == 15 {
        Some(Exception::SysTick)
    } else {
        None
    }
}

/// Whether `arch` implements `exception`. The four fault and debug
/// exceptions are missing on Armv6-M; the secure fault exists on Armv8-M
/// alone.
pub open spec fn implements(arch: Arch, exception: Exception) -> bool {
    match exception {
        Exception::NonMaskableInterrupt
        | Exception::HardFault
        | Exception::SvCall
        | Exception::PendSv
        | Exception::SysTick => true,
        Exception::MemoryManagementFault
        | Exception::BusFault
        | Exception::UsageFault
        | Exception::DebugMonitor => arch != Arch::Armv6M,
        Exception::SecureFault => arch == Arch::Armv8M,
    }
}

/// Whether slot `index` of the exception table is active on `arch`, that is,
/// holds a handler. Slot `index` stands for exception number `index + 2`.
pub open spec fn slot_active(arch: Arch, index: int) -> bool {
    match exception_numbered(index + 2) {
        Some(exception) => implements(arch, exception),
        None => false,
    }
}

/// The handlers that every architecture has.
#[derive(Clone, Copy, Debug, PartialEq, Eq)]
pub struct CommonHandlers {
    pub non_maskable_interrupt: HandlerFn,
    pub hard_fault: HandlerFn,
    pub sv_call: HandlerFn,
    pub pend_sv: HandlerFn,
    pub sys_tick: HandlerFn,
}

/// The handlers that exist on every architecture but Armv6-M.
#[derive(Clone, Copy, Debug, PartialEq, Eq)]
pub struct FaultHandlers {
    pub memory_management_fault: HandlerFn,
    pub bus_fault: HandlerFn,
    pub usage_fault: HandlerFn,
    pub debug_monitor: HandlerFn,
}

/// The exception handlers of an image. The architecture decides which
/// handlers exist, so each architecture carries exactly those it has.
#[derive(Clone, Copy, Debug, PartialEq, Eq)]
pub enum ExceptionHandlers {
    Armv6M { common: CommonHandlers },
    Armv7M { common: CommonHandlers, faults: FaultHandlers },
    Armv8M { common: CommonHandlers, faults: FaultHandlers, secure_fault: HandlerFn },
}

impl ExceptionHandlers {
    /// The architecture that these handlers are for.
    pub open spec fn spec_arch(&self) -> Arch {
        match self {
            ExceptionHandlers::Armv6M { .. } => Arch::Armv6M,
            ExceptionHandlers::Armv7M { .. } => Arch::Armv7M,
            ExceptionHandlers::Armv8M { .. } => Arch::Armv8M,
        }
    }

    /// The handlers shared by all architectures.
    pub open spec fn common(self) -> CommonHandlers {
        match self {
            ExceptionHandlers::Armv6M { common } => common,
            ExceptionHandlers::Armv7M { common, .. } => common,
            ExceptionHandlers::Armv8M { common, .. } => common,
        }
    }

    /// The handler of `exception`, where the architecture has one.
    pub open spec fn handler_of(self, exception: Exception) -> Option<HandlerFn> {
        match exception {
            Exception::NonMaskableInterrupt => Some(self.common().non_maskable_interrupt),
            Exception::HardFault => Some(self.common().hard_fault),
            Exception::SvCall => Some(self.common().sv_call),
            Exception::PendSv => Some(self.common().pend_sv),
            Exception::SysTick => Some(self.common().sys_tick),
            Exception::MemoryManagementFault => match self {
                ExceptionHandlers::Armv6M { .. } => None,
                ExceptionHandlers::Armv7M { faults, .. } => Some(faults.memory_management_fault),
                ExceptionHandlers::Armv8M { faults, .. } => Some(faults.memory_management_fault),
            },
            Exception::BusFault => match self {
                ExceptionHandlers::Armv6M { .. } => None,
                ExceptionHandlers::Armv7M { faults, .. } => Some(faults.bus_fault),
                ExceptionHandlers::Armv8M { faults, .. } => Some(faults.bus_fault),
            },
            Exception::UsageFault => match self {
                ExceptionHandlers::Armv6M { .. } => None,
                ExceptionHandlers::Armv7M { faults, .. } => Some(faults.usage_fault),
                ExceptionHandlers::Armv8M { faults, .. } => Some(faults.usage_fault),
            },
            Exception::DebugMonitor => match self {
                ExceptionHandlers::Armv6M { .. } => None,
                ExceptionHandlers::Armv7M { faults, .. } => Some(faults.debug_monitor),
                ExceptionHandlers::Armv8M { faults, .. } => Some(faults.debug_monitor),
            },
            Exception::SecureFault => match self {
                ExceptionHandlers::Armv8M { secure_fault, .. } => Some(secure_fault),
                _ => None,
            },
        }
    }

    /// The word that slot `index` of the exception table holds: the address
    /// of the handler whose exception owns the slot, or zero where no
    /// exception owns it or the architecture does not have it.
    pub open spec fn slot_word(self, index: int) -> usize {
        match exception_numbered(index + 2) {
            Some(exception) => match self.handler_of(exception) {
                Some(func) => func@,
                None => 0,
            },
            None => 0,
        }
    }

    /// The architecture that these handlers are for.
    #[verifier::when_used_as_spec(spec_arch)]
    pub fn arch(&self) -> (arch: Arch)
        ensures
            arch == self.spec_arch(),
    {
        match self {
            ExceptionHandlers::Armv6M { .. } => Arch::Armv6M,
            ExceptionHandlers::Armv7M { .. } => Arch::Armv7M,
            ExceptionHandlers::Armv8M { .. } => Arch::Armv8M,
        }
    }
}

/// Builds the exception table: fourteen slots, slot `i` for exception number
/// `i + 2`. A slot is active exactly where the architecture implements the
/// exception that owns it; an active slot holds that exception's handler and
/// every other slot is reserved.
pub fn exceptions(handlers: &ExceptionHandlers) -> (table: [Handler; EXCEPTION_SLOTS])
    ensures
        table@.len() == 14,
        forall|i: int| 0 <= i < 14 ==> #[trigger] table@[i]@ == handlers.slot_word(i),
        forall|i: int|
            0 <= i < 14 ==> (#[trigger] table@[i]@ != 0 <==> slot_active(handlers.arch(), i)),
{
    let (common, faults, secure_fault) = match *handlers {
        ExceptionHandlers::Armv6M { common } => (common, None, None),
        ExceptionHandlers::Armv7M { common, faults } => (common, Some(faults), None),
        ExceptionHandlers::Armv8M { common, faults, secure_fault } => (
            common,
            Some(faults),
            Some(secure_fault),
        ),
    };
    let table = [
        Handler::new(common.non_maskable_interrupt),
        Handler::new(common.hard_fault),
        match faults {
            Some(f) => Handler::new(f.memory_management_fault),
            None => Handler::reserved(),
        },
        match faults {
            Some(f) => Handler::new(f.bus_fault),
            None => Handler::reserved(),
        },
        match faults {
            Some(f) => Handler::new(f.usage_fault),
            None => Handler::reserved(),
        },
        match secure_fault {
            Some(f) => Handler::new(f),
            None => Handler::reserved(),
        },
        Handler::reserved(),
        Handler::reserved(),
        Handler::reserved(),
        Handler::new(common.sv_call),
        match faults {
            Some(f) => Handler::new(f.debug_monitor),
            None => Handler::reserved(),
        },
        Handler::reserved(),
        Handler::new(common.pend_sv),
        Handler::new(common.sys_tick),
    ];
    table
}

/// Builds the interrupt table: slot `i` holds the address of the handler of
/// device interrupt `i`, and no slot is reserved.
pub fn interrupts(handlers: &[HandlerFn; INTERRUPT_SLOTS]) -> (table: [Handler; INTERRUPT_SLOTS])
    ensures
        table@.len() == 240,
        forall|i: int| 0 <= i < 240 ==> #[trigger] table@[i]@ == handlers@[i]@,
        forall|i: int| 0 <= i < 240 ==> #[trigger] table@[i]@ != 0,
{
    let mut table = [Handler::reserved(); INTERRUPT_SLOTS];
    let mut i: usize = 0;
    while i < 240
        invariant
            i <= 240,
            forall|k: int| 0 <= k < i ==> #[trigger] table@[k]@ == handlers@[k]@,
            forall|k: int| 0 <= k < i ==> #[trigger] table@[k]@ != 0,
        decreases 240 - i,
    {
        table[i] = Handler::new(handlers[i]);
        i += 1;
    }
    table
}

/// The exception table slot by slot: the five exceptions that every
/// architecture has are always active, the three faults and the debug
/// monitor are active off Armv6-M, the secure fault is active on Armv8-M
/// alone, and the four positions that no exception owns are never active.
pub proof fn lemma_active_slots(arch: Arch, index: int)
    requires
        0 <= index < 14,
    ensures
        slot_active(arch, index) <==> {
            ||| index == 0
            ||| index == 1
            ||| index == 9
            ||| index == 12
            ||| index == 13
            ||| (arch != Arch::Armv6M && (index == 2 || index == 3 || index == 4 || index == 10))
            ||| (arch == Arch::Armv8M && index == 5)
        },
{
}

/// The three parts of the vector table that an image carries: the reset
/// vector, the exception table and the interrupt table.
#[derive(Clone, Copy, Debug, PartialEq, Eq)]
pub struct VectorTable {
    pub reset_vector: HandlerFn,
    pub exceptions: [Handler; EXCEPTION_SLOTS],
    pub interrupts: [Handler; INTERRUPT_SLOTS],
}

impl VectorTable {
    /// Builds the vector table of an image whose reset entry is `reset`:
    /// one reset vector that holds the address of `reset`, the exception
    /// table of `handlers` and the interrupt table of `irqs`.
    pub fn new(
        reset: HandlerFn,
        handlers: &ExceptionHandlers,
        irqs: &[HandlerFn; INTERRUPT_SLOTS],
    ) -> (table: VectorTable)
        ensures
            table.reset_vector@ == reset@,
            table.reset_vector@ != 0,
            table.exceptions@.len() == 14,
            table.interrupts@.len() == 240,
            forall|i: int|
                0 <= i < 14 ==> #[trigger] table.exceptions@[i]@ == handlers.slot_word(i),
            forall|i: int|
                0 <= i < 14 ==> (#[trigger] table.exceptions@[i]@ != 0 <==> slot_active(
                    handlers.arch(),
                    i,
                )),
            forall|i: int| 0 <= i < 240 ==> #[trigger] table.interrupts@[i]@ == irqs@[i]@,
            forall|i: int| 0 <= i < 240 ==> #[trigger] table.interrupts@[i]@ != 0,
    {
        proof {
            use_type_invariant(&reset);
        }
        VectorTable {
            reset_vector: reset,
            exceptions: exceptions(handlers),
            interrupts: interrupts(irqs),
        }
    }
}

} // verus!
