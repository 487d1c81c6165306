//! Interrupt dispatch: gate descriptors, the 256-entry table, the CPU
//! exceptions, and the mirror of the interrupt flag.

use vstd::prelude::*;

verus! {

/// The kind of a gate.
#[derive(Clone, Copy, Debug, PartialEq, Eq, Structural)]
pub enum GateType {
    Task,
    /// 16-bit interrupt gate.
    WInterrupt,
    /// 16-bit trap gate.
    WTrap,
    /// 32-bit interrupt gate.
    DInterrupt,
    /// 32-bit trap gate.
    DTrap,
}

impl GateType {
    /// The code of the kind in the low bits of a gate's attribute byte.
    pub open spec fn spec_code(self) -> u8 {
        match self {
            GateType::Task => 0x5,
            GateType::WInterrupt => 0x6,
            GateType::WTrap => 0x7,
            GateType::DInterrupt => 0xE,
            GateType::DTrap => 0xF,
        }
    }

    /// The code of the kind in the low bits of a gate's attribute byte.
    #[verifier::when_used_as_spec(spec_code)]
    pub fn code(self) -> (r: u8)
        ensures
            r == self.spec_code(),
    {
        match self {
            GateType::Task => 0x5,
            GateType::WInterrupt => 0x6,
            GateType::WTrap => 0x7,
            GateType::DInterrupt => 0xE,
            GateType::DTrap => 0xF,
        }
    }
}

/// What a gate descriptor says, field by field.
pub struct GateView {
    pub present: bool,
    /// Descriptor privilege level, 0 to 3.
    pub dpl: u8,
    /// The code of the descriptor's kind.
    pub gate: u8,
    /// The code segment the handler runs in.
    pub selector: u16,
    /// The address of the handler.
    pub handler: u32,
    /// The byte between the selector and the attributes, which is zero
    /// in every descriptor the kernel makes.
    pub reserved: u8,
}

/// A gate descriptor: eight bytes, the handler's address in two halves
/// around the selector and the attribute byte.
#[derive(Clone, Copy, Debug, PartialEq, Eq, Structural)]
pub struct Handler {
    ptr_low: u16,
    selector: u16,
    reserved: u8,
    attributes: u8,
    ptr_high: u16,
}

impl View for Handler {
    type V = GateView;

    closed spec fn view(&self) -> GateView {
        GateView {
            present: self.attributes >= 0x80,
            dpl: (self.attributes / 32 % 4) as u8,
            gate: (self.attributes % 32) as u8,
            selector: self.selector,
            handler: (self.ptr_high * 0x10000 + self.ptr_low) as u32,
            reserved: self.reserved,
        }
    }
}

/// The descriptor that is installed for a handler at `addr`.
pub open spec fn gate(addr: u32, gate_type: GateType, dpl: u8, selector: u16) -> GateView {
    GateView {
        present: true,
        dpl,
        gate: gate_type.spec_code(),
        selector,
        handler: addr,
        reserved: 0,
    }
}

/// The descriptor of a vector with no handler.
pub open spec fn no_gate() -> GateView {
    GateView { present: false, dpl: 0, gate: 0, selector: 0, handler: 0, reserved: 0 }
}

impl Handler {
    /// The eight bytes of the descriptor as one number, the low half of the
    /// address in the lowest bits.
    pub closed spec fn spec_bits(&self) -> u64 {
        (self.ptr_low as u64) | ((self.selector as u64) << 16) | ((self.reserved as u64) << 32) | ((
        self.attributes as u64) << 40) | ((self.ptr_high as u64) << 48)
    }

    /// A present gate for the handler at `addr`, of kind `gate_type`, that
    /// code of privilege level `dpl` or better may raise, run in the code
    /// segment `selector`.
    pub fn new_raw(addr: u32, gate_type: GateType, dpl: u8, selector: u16) -> (r: Handler)
        requires
            dpl <= 3,
        ensures
            r@ == gate(addr, gate_type, dpl, selector),
    {
        Handler {
            ptr_low: (addr % 0x10000) as u16,
            ptr_high: (addr / 0x10000) as u16,
            selector,
            attributes: 0x80 + dpl * 32 + gate_type.code(),
            reserved: 0,
        }
    }

    /// A present gate for an interrupt routine that takes no error code.
    pub fn new(isr: u32, gate_type: GateType, dpl: u8, selector: u16) -> (r: Handler)
        requires
            dpl <= 3,
        ensures
            r@ == gate(isr, gate_type, dpl, selector),
    {
        Handler::new_raw(isr, gate_type, dpl, selector)
    }

    /// A present gate for an interrupt routine that takes an error code.
    pub fn new_err(isr: u32, gate_type: GateType, dpl: u8, selector: u16) -> (r: Handler)
        requires
            dpl <= 3,
        ensures
            r@ == gate(isr, gate_type, dpl, selector),
    {
        Handler::new_raw(isr, gate_type, dpl, selector)
    }

    /// The descriptor of a vector with no handler: all zero.
    pub fn null() -> (r: Handler)
        ensures
            r@ == no_gate(),
            r.spec_bits() == 0,
    {
        let r = Handler { ptr_low: 0, selector: 0, reserved: 0, attributes: 0, ptr_high: 0 };
        proof {
            assert((0u16 as u64) | ((0u16 as u64) << 16) | ((0u8 as u64) << 32) | ((0u8 as u64)
                << 40) | ((0u16 as u64) << 48) == 0) by (bit_vector);
        }
        r
    }

    /// Whether the descriptor is present.
    pub fn present(&self) -> (r: bool)
        ensures
            r == self@.present,
    {
        self.attributes >= 0x80
    }

    /// The address of the handler.
    pub fn address(&self) -> (r: u32)
        ensures
            r == self@.handler,
    {
        self.ptr_high as u32 * 0x10000 + self.ptr_low as u32
    }

    /// The code segment the handler runs in.
    pub fn selector(&self) -> (r: u16)
        ensures
            r == self@.selector,
    {
        self.selector
    }

    /// The descriptor privilege level.
    pub fn dpl(&self) -> (r: u8)
        ensures
            r == self@.dpl,
    {
        self.attributes / 32 % 4
    }

    /// The eight bytes of the descriptor as one number.
    #[verifier::when_used_as_spec(spec_bits)]
    pub fn bits(&self) -> (r: u64)
        ensures
            r == self.spec_bits(),
    {
        (self.ptr_low as u64) | ((self.selector as u64) << 16) | ((self.reserved as u64) << 32) | ((
        self.attributes as u64) << 40) | ((self.ptr_high as u64) << 48)
    }
}

/// Number of vectors in the table.
pub const VECTORS: usize = 256;

/// The vector of the system-call trap.
pub const SYSCALL_VECTOR: u8 = 0x80;

/// Whether `vector` is one of the CPU exceptions that get a stub.
pub open spec fn spec_is_exception(vector: u8) -> bool {
    ||| vector <= 0x8
    ||| 0xA <= vector <= 0xE
    ||| 0x10 <= vector <= 0x15
    ||| 0x1C <= vector <= 0x1E
}

/// Whether the CPU pushes an error code for the exception `vector`.
pub open spec fn spec_has_error_code(vector: u8) -> bool {
    ||| vector == 0x8
    ||| 0xA <= vector <= 0xE
    ||| vector == 0x11
    ||| vector == 0x15
    ||| vector == 0x1D
    ||| vector == 0x1E
}

/// Whether `vector` is one of the CPU exceptions that get a stub.
#[verifier::when_used_as_spec(spec_is_exception)]
pub fn is_exception(vector: u8) -> (r: bool)
    ensures
        r == spec_is_exception(vector),
{
    vector <= 0x8 || (0xA <= vector && vector <= 0xE) || (0x10 <= vector && vector <= 0x15) || (0x1C
        <= vector && vector <= 0x1E)
}

/// Whether the CPU pushes an error code for the exception `vector`.
#[verifier::when_used_as_spec(spec_has_error_code)]
pub fn has_error_code(vector: u8) -> (r: bool)
    ensures
        r == spec_has_error_code(vector),
{
    vector == 0x8 || (0xA <= vector && vector <= 0xE) || vector == 0x11 || vector == 0x15 || vector
        == 0x1D || vector == 0x1E
}

/// The name under which the exception `vector` is reported.
pub open spec fn spec_exception_name(vector: u8) -> Option<&'static str> {
    if vector == 0x0 {
        Some("divide_by_zero")
    } else if vector == 0x1 {
        Some("debug")
    } else if vector == 0x2 {
        Some("non_maskable_interrupt")
    } else if vector == 0x3 {
        Some("breakpoint")
    } else if vector == 0x4 {
        Some("overflow")
    } else if vector == 0x5 {
        Some("bound_range_exceeded")
    } else if vector == 0x6 {
        Some("invalid_opcode")
    } else if vector == 0x7 {
        Some("device_not_available")
    } else if vector == 0x8 {
        Some("double_fault")
    } else if vector == 0xA {
        Some("invalid_tss")
    } else if vector == 0xB {
        Some("segment_not_present")
    } else if vector == 0xC {
        Some("stack_segment_fault")
    } else if vector == 0xD {
        Some("general_protection_fault")
    } else if vector == 0xE {
        Some("page_fault")
    } else if vector == 0x10 {
        Some("x87_floating_point_exception")
    } else if vector == 0x11 {
        Some("alignment_check")
    } else if vector == 0x12 {
        Some("machine_check")
    } else if vector == 0x13 {
        Some("simd_floating_point_exception")
    } else if vector == 0x14 {
        Some("virtualization_exception")
    } else if vector == 0x15 {
        Some("control_protection_exception")
    } else if vector == 0x1C {
        Some("hypvervisor_injection_exception")
    } else if vector == 0x1D {
        Some("vmm_communication_exception")
    } else if vector == 0x1E {
        Some("security_exception")
    } else {
        None
    }
}

/// What the stub of an exception reports before the kernel halts.
#[derive(Clone, Copy, Debug, PartialEq, Eq)]
pub struct ExceptionReport {
    /// The name of the exception.
    pub name: &'static str,
    /// The error code the CPU pushed, for the exceptions that have one.
    pub error_code: Option<u32>,
    /// The address whose access faulted, for a page fault.
    pub fault_address: Option<u32>,
}

/// The vector of the page fault.
pub const PAGE_FAULT: u8 = 0xE;

/// The name under which the exception `vector` is reported, or `None` for
/// a vector that is no exception.
#[verifier::when_used_as_spec(spec_exception_name)]
pub fn exception_name(vector: u8) -> (r: Option<&'static str>)
    ensures
        r == spec_exception_name(vector),
        r is Some <==> spec_is_exception(vector),
{
    if vector == 0x0 {
        Some("divide_by_zero")
    } else if vector == 0x1 {
        Some("debug")
    } else if vector == 0x2 {
        Some("non_maskable_interrupt")
    } else if vector == 0x3 {
        Some("breakpoint")
    } else if vector == 0x4 {
        Some("overflow")
    } else if vector == 0x5 {
        Some("bound_range_exceeded")
    } else if vector == 0x6 {
        Some("invalid_opcode")
    } else if vector == 0x7 {
        Some("device_not_available")
    } else if vector == 0x8 {
        Some("double_fault")
    } else if vector == 0xA {
        Some("invalid_tss")
    } else if vector == 0xB {
        Some("segment_not_present")
    } else if vector == 0xC {
        Some("stack_segment_fault")
    } else if vector == 0xD {
        Some("general_protection_fault")
    } else if vector == 0xE {
        Some("page_fault")
    } else if vector == 0x10 {
        Some("x87_floating_point_exception")
    } else if vector == 0x11 {
        Some("alignment_check")
    } else if vector == 0x12 {
        Some("machine_check")
    } else if vector == 0x13 {
        Some("simd_floating_point_exception")
    } else if vector == 0x14 {
        Some("virtualization_exception")
    } else if vector == 0x15 {
        Some("control_protection_exception")
    } else if vector == 0x1C {
        Some("hypvervisor_injection_exception")
    } else if vector == 0x1D {
        Some("vmm_communication_exception")
    } else if vector == 0x1E {
        Some("security_exception")
    } else {
        None
    }
}

/// What the stub of the exception `vector` reports when the CPU raises it
/// with `pushed` on the stack and `fault_address` in the register that
/// holds the address of the last page fault: the name, the error code
/// where the exception has one, and for a page fault the address that was
/// accessed. `None` for a vector that is no exception.
pub fn exception_report(vector: u8, pushed: u32, fault_address: u32) -> (r: Option<ExceptionReport>)
    ensures
        r is Some <==> spec_is_exception(vector),
        r matches Some(report) ==> Some(report.name) == spec_exception_name(vector)
            && report.error_code == if spec_has_error_code(vector) {
            Some(pushed)
        } else {
            None::<u32>
        } && report.fault_address == if vector == PAGE_FAULT {
            Some(fault_address)
        } else {
            None::<u32>
        },
{
    match exception_name(vector) {
        Some(name) => Some(
            ExceptionReport {
                name,
                error_code: if has_error_code(vector) {
                    Some(pushed)
                } else {
                    None
                },
                fault_address: if vector == PAGE_FAULT {
                    Some(fault_address)
                } else {
                    None
                },
            },
        ),
        None => None,
    }
}

/// The interrupt table: one gate for each of the 256 vectors, all with
/// the kernel's code segment.
pub struct InterruptTable {
    entries: Vec<Handler>,
    selector: u16,
}

impl View for InterruptTable {
    type V = Seq<GateView>;

    closed spec fn view(&self) -> Seq<GateView> {
        Seq::new(self.entries.len() as nat, |i: int| self.entries[i]@)
    }
}

impl InterruptTable {
    /// The table has its 256 descriptors, and every present one runs its
    /// handler in the kernel's code segment.
    pub open spec fn wf(&self) -> bool {
        &&& self@.len() == VECTORS
        &&& forall|v: int|
            0 <= v < VECTORS ==> (#[trigger] self@[v]).present ==> self@[v].selector
                == self.selector()
    }

    /// The kernel's code segment.
    pub closed spec fn selector(&self) -> u16 {
        self.selector
    }

    /// A table with no handler installed.
    pub fn new(selector: u16) -> (r: InterruptTable)
        ensures
            r.wf(),
            r.selector() == selector,
            r@.len() == VECTORS,
            forall|v: int| 0 <= v < VECTORS ==> r@[v] == no_gate(),
    {
        let mut entries: Vec<Handler> = Vec::new();
        let mut i: usize = 0;
        while i < VECTORS
            invariant
                i <= VECTORS,
                entries.len() == i,
                forall|k: int| 0 <= k < i ==> (#[trigger] entries[k])@ == no_gate(),
            decreases VECTORS - i,
        {
            entries.push(Handler::null());
            i += 1;
        }
        InterruptTable { entries, selector }
    }

    /// Installs the handler at `handler` for `vector`: its descriptor is present,
    /// of kind `kind`, open to privilege level `privilege` or better, and
    /// every other gate is as it was.
    pub fn install(&mut self, vector: u8, handler: u32, privilege: u8, kind: GateType)
        requires
            old(self).wf(),
            privilege <= 3,
        ensures
            final(self).wf(),
            final(self).selector() == old(self).selector(),
            final(self)@.len() == VECTORS,
            final(self)@ == old(self)@.update(
                vector as int,
                gate(handler, kind, privilege, old(self).selector()),
            ),
    {
        let entry = Handler::new_raw(handler, kind, privilege, self.selector);
        self.entries[vector as usize] = entry;
        proof {
            assert(self@ =~= old(self)@.update(
                vector as int,
                gate(handler, kind, privilege, old(self).selector()),
            ));
        }
    }

    /// The descriptor of `vector`.
    pub fn get(&self, vector: u8) -> (r: Handler)
        requires
            self.wf(),
        ensures
            r@ == self@[vector as int],
    {
        self.entries[vector as usize]
    }

    /// The handler that the CPU enters when `vector` is raised, or `None`
    /// where the descriptor is not present.
    pub fn handler_for(&self, vector: u8) -> (r: Option<u32>)
        requires
            self.wf(),
        ensures
            r == if self@[vector as int].present {
                Some(self@[vector as int].handler)
            } else {
                None
            },
    {
        let entry = self.entries[vector as usize];
        if entry.present() {
            Some(entry.address())
        } else {
            None
        }
    }

    /// Installs the stubs of the CPU exceptions, each as a 32-bit interrupt
    /// gate of privilege level 0. `stubs[v]` is the address of the stub for
    /// vector `v`; the entries of vectors that are no exception are not
    /// read, and their gates are left as they were.
    pub fn setup_idt(&mut self, stubs: &[u32; 32])
        requires
            old(self).wf(),
        ensures
            final(self).wf(),
            final(self).selector() == old(self).selector(),
            final(self)@.len() == VECTORS,
            forall|v: int|
                0 <= v < VECTORS ==> final(self)@[v] == if v < 32 && spec_is_exception(v as u8) {
                    gate(stubs[v], GateType::DInterrupt, 0, old(self).selector())
                } else {
                    old(self)@[v]
                },
    {
        let mut v: u8 = 0;
        while v < 32
            invariant
                v <= 32,
                self.wf(),
                self.selector() == old(self).selector(),
                self@.len() == VECTORS,
                forall|w: int|
                    0 <= w < VECTORS ==> self@[w] == if w < v && spec_is_exception(w as u8) {
                        gate(stubs[w], GateType::DInterrupt, 0, old(self).selector())
                    } else {
                        old(self)@[w]
                    },
            decreases 32 - v,
        {
            if is_exception(v) {
                self.install(v, stubs[v as usize], 0, GateType::DInterrupt);
            }
            v += 1;
        }
    }
}

/// The record that names the table to the CPU: the address of its first
/// byte and the number of its last.
#[derive(Clone, Copy, Debug, PartialEq, Eq, Structural)]
pub struct IDTR {
    pub limit: u16,
    pub base: u32,
}

impl IDTR {
    /// The record for a table of 256 gates of eight bytes at `base`.
    pub fn new(base: u32) -> (r: IDTR)
        ensures
            r.base == base,
            r.limit == VECTORS * 8 - 1,
    {
        IDTR { base, limit: 2047 }
    }
}

/// The mirror of the CPU's interrupt flag, which the print paths consult.
#[derive(Clone, Copy, Debug, PartialEq, Eq, Structural)]
pub struct InterruptState {
    pub enabled: bool,
}

/// Notes that interrupts are on; the caller sets the CPU's flag.
pub fn enable(state: &mut InterruptState)
    ensures
        final(state).enabled,
{
    state.enabled = true;
}

/// Notes that interrupts are off; the caller clears the CPU's flag.
pub fn disable(state: &mut InterruptState)
    ensures
        !final(state).enabled,
{
    state.enabled = false;
}

/// Whether interrupts are on, by the mirror.
pub fn is_enabled(state: &InterruptState) -> (r: bool)
    ensures
        r == state.enabled,
{
    state.enabled
}

/// What `init` hands back: the table, the record that names it to the CPU,
/// and the mirror of the interrupt flag.
pub struct Dispatch {
    pub table: InterruptTable,
    pub idtr: IDTR,
    pub state: InterruptState,
}

/// Sets interrupt dispatch up: a table at the address `base` with the
/// exception stubs installed and nothing else, the record that names it,
/// and interrupts on.
pub fn init(selector: u16, base: u32, stubs: &[u32; 32]) -> (r: Dispatch)
    ensures
        r.table.wf(),
        r.table.selector() == selector,
        r.table@.len() == VECTORS,
        forall|v: int|
            0 <= v < VECTORS ==> r.table@[v] == if v < 32 && spec_is_exception(v as u8) {
                gate(stubs[v], GateType::DInterrupt, 0, selector)
            } else {
                no_gate()
            },
        r.idtr == (IDTR { base, limit: 2047 }),
        r.state.enabled,
{
    let mut table = InterruptTable::new(selector);
    table.setup_idt(stubs);
    let mut state = InterruptState { enabled: false };
    enable(&mut state);
    Dispatch { table, idtr: IDTR::new(base), state }
}

} // verus!
