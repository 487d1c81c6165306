//! The timer: a tick counter, the observers of the tick, and the hand-off
//! to the scheduler.

use vstd::prelude::*;
use crate::events::{Event, EventHandler, in_token_order};
use crate::interrupts::{GateType, InterruptState, InterruptTable, gate};
use crate::io::PortWrite;
use crate::paging::Paging;
use crate::pic::{IRQ_OFFSET, eoi_sequence, mask_after, spec_mask_port};
use crate::process::{Context, ProcessTable, spec_next_index, spec_prev_index, switched};

verus! {

/// The timer's state: the ticks counted and the observers of the tick.
/// `H` is what is kept for an observer.
pub struct Timer<H> {
    pub ticks: u64,
    pub on_tick: Event<H>,
}

/// How a tick ends.
#[derive(Clone, Copy, Debug, PartialEq, Eq, Structural)]
pub enum TickOutcome {
    /// No scheduling yet: the end of the interrupt is signalled and the
    /// handler returns to what it interrupted.
    Acknowledge,
    /// The processor goes to the process with this context.
    Switch(Context),
    /// The scheduler had nothing to run: the handler finishes at once, as
    /// it does when a process is resumed.
    Finish,
}

/// What a tick leaves for the caller to do: the observers to call, and how
/// the tick ends.
pub struct Tick<H> {
    pub handlers: Vec<H>,
    pub outcome: TickOutcome,
}

impl<H: Copy> Timer<H> {
    /// The ticks counted so far.
    pub open spec fn count(&self) -> u64 {
        self.ticks
    }

    /// A timer that has counted nothing and has no observer.
    pub fn new() -> (r: Timer<H>)
        ensures
            r.count() == 0,
            r.on_tick.subscriptions() == Map::<usize, H>::empty(),
            r.on_tick.next_token() == 0,
    {
        Timer { ticks: 0, on_tick: Event::new() }
    }
}

/// Installs the tick handler at `handler` on line 0 of the interrupt
/// controller, as a 32-bit interrupt gate of privilege level 0.
pub fn init(table: &mut InterruptTable, handler: u32)
    requires
        old(table).wf(),
    ensures
        final(table).wf(),
        final(table).selector() == old(table).selector(),
        final(table)@ == old(table)@.update(
            IRQ_OFFSET as int,
            gate(handler, GateType::DInterrupt, 0, old(table).selector()),
        ),
{
    table.install(IRQ_OFFSET, handler, 0, GateType::DInterrupt);
}

/// The work of a tick, with interrupts off. The tick is counted and the
/// observers are handed back to be called. While the heap is not live or no
/// process has been registered, the tick ends there and interrupts are on
/// again. Otherwise the interrupted thread, which has its stack pointer at
/// `esp` and is to resume at `resume` in the address space that is active,
/// is handed to the scheduler, and interrupts stay off until a process
/// finishes the tick. The counter must not be at its last value.
pub fn on_tick_internal<H: Copy>(
    timer: &mut Timer<H>,
    state: &mut InterruptState,
    paging: &mut Paging,
    table: &mut ProcessTable,
    esp: u32,
    resume: u32,
) -> (r: Tick<H>)
    requires
        old(timer).count() < u64::MAX,
        old(table).wf(),
    ensures
        final(timer).count() == old(timer).count() + 1,
        final(timer).on_tick == old(timer).on_tick,
        in_token_order(old(timer).on_tick.subscriptions(), r.handlers@),
        final(table).wf(),
        final(table).loaded() == old(table).loaded(),
        !old(paging).heap_ready || !old(table).loaded() ==> {
            &&& r.outcome == TickOutcome::Acknowledge
            &&& final(state).enabled
            &&& *final(table) == *old(table)
            &&& *final(paging) == *old(paging)
        },
        old(paging).heap_ready && old(table).loaded() && old(table)@.len() == 0 ==> {
            &&& r.outcome == TickOutcome::Finish
            &&& !final(state).enabled
            &&& final(table)@ == old(table)@
            &&& final(table).cursor() == old(table).cursor()
            &&& *final(paging) == *old(paging)
        },
        old(paging).heap_ready && old(table).loaded() && old(table)@.len() > 0 ==> {
            &&& !final(state).enabled
            &&& final(table)@ == old(table)@.update(
                spec_prev_index(old(table).cursor(), old(table)@.len() as int),
                Context { esp, eip: resume, dir: old(paging).current },
            )
            &&& r.outcome == TickOutcome::Switch(final(table)@[old(table).cursor()])
            &&& final(table).cursor() == spec_next_index(
                old(table).cursor(),
                old(table)@.len() as int,
            )
            &&& switched(final(paging), old(paging), final(table)@[old(table).cursor()])
        },
{
    crate::interrupts::disable(state);
    timer.ticks = timer.ticks + 1;
    let handlers = timer.on_tick.invoke();
    if !crate::heap::has_init(paging) || !crate::process::has_loaded_processes(table) {
        crate::interrupts::enable(state);
        return Tick { handlers, outcome: TickOutcome::Acknowledge };
    }
    let context = Context { esp, eip: resume, dir: paging.curr() };
    match crate::process::next_program(table, context, paging) {
        Some(next) => Tick { handlers, outcome: TickOutcome::Switch(next) },
        None => Tick { handlers, outcome: TickOutcome::Finish },
    }
}

/// The writes that finish a tick once a process is resumed, given the
/// masks just read from the master's data port: line 0 is unmasked and the
/// end of the interrupt is signalled.
pub open spec fn finish_sequence(current_masks: u8) -> Seq<PortWrite> {
    seq![
        PortWrite { port: spec_mask_port(0), value: mask_after(current_masks, 0, false) },
    ] + eoi_sequence(0)
}

/// Finishes a tick: the writes that unmask line 0 and signal the end of
/// the interrupt, and interrupts on again.
pub fn end_of_on_tick(state: &mut InterruptState, current_masks: u8) -> (r: Vec<PortWrite>)
    ensures
        final(state).enabled,
        r@ == finish_sequence(current_masks),
{
    let mut out: Vec<PortWrite> = Vec::new();
    out.push(crate::pic::set_mask(0, false, current_masks));
    let mut eoi = crate::pic::send_eoi(0);
    out.append(&mut eoi);
    crate::interrupts::enable(state);
    out
}

/// The ticks counted so far.
pub fn get_ticks<H: Copy>(timer: &Timer<H>) -> (r: u64)
    ensures
        r == timer.count(),
{
    timer.ticks
}

} // verus!
