//! The scheduler: an ordered table of process contexts and a cursor that
//! names the next to run, served round-robin, one timer tick each.

use vstd::prelude::*;
use crate::paging::Paging;

verus! {

/// What is kept of a process while it does not run: its stack pointer, the
/// address at which it resumes, and its address space. The other registers
/// lie on its stack.
#[derive(Clone, Copy, Debug, PartialEq, Eq, Structural)]
pub struct Context {
    pub esp: u32,
    pub eip: u32,
    /// Physical base of the page directory of the process.
    pub dir: u32,
}

/// The index after `curr_index` in a table of `proc_len` entries, the first
/// following the last.
pub open spec fn spec_next_index(curr_index: int, proc_len: int) -> int {
    if curr_index < proc_len - 1 {
        curr_index + 1
    } else {
        0
    }
}

/// The index before `curr_index` in a table of `proc_len` entries, the last
/// preceding the first.
pub open spec fn spec_prev_index(curr_index: int, proc_len: int) -> int {
    if curr_index > 0 {
        curr_index - 1
    } else {
        proc_len - 1
    }
}

/// The index after `curr_index`, going round.
pub fn next_index(curr_index: usize, proc_len: usize) -> (r: usize)
    requires
        proc_len > 0,
    ensures
        r == spec_next_index(curr_index as int, proc_len as int),
{
    if curr_index < proc_len - 1 {
        curr_index + 1
    } else {
        0
    }
}

/// The index before `curr_index`, going round.
pub fn prev_index(curr_index: usize, proc_len: usize) -> (r: usize)
    requires
        proc_len > 0,
    ensures
        r == spec_prev_index(curr_index as int, proc_len as int),
{
    if curr_index > 0 {
        curr_index - 1
    } else {
        proc_len - 1
    }
}

/// The process table: the contexts in the order in which they are served,
/// and the cursor.
pub struct ProcessTable {
    processes: Vec<Context>,
    curr_index: usize,
    has_loaded: bool,
}

impl View for ProcessTable {
    type V = Seq<Context>;

    closed spec fn view(&self) -> Seq<Context> {
        self.processes@
    }
}

impl ProcessTable {
    /// The index of the process that runs next.
    pub closed spec fn cursor(&self) -> int {
        self.curr_index as int
    }

    /// Whether a process has ever been registered.
    pub closed spec fn loaded(&self) -> bool {
        self.has_loaded
    }

    /// The cursor names an entry of the table, or is zero in an empty one.
    pub open spec fn wf(&self) -> bool {
        if self@.len() == 0 {
            self.cursor() == 0
        } else {
            0 <= self.cursor() < self@.len()
        }
    }

    /// An empty table.
    pub fn new() -> (r: ProcessTable)
        ensures
            r.wf(),
            r@ == Seq::<Context>::empty(),
            r.cursor() == 0,
            !r.loaded(),
    {
        ProcessTable { processes: Vec::new(), curr_index: 0, has_loaded: false }
    }

    /// The number of processes in the table.
    pub fn len(&self) -> (r: usize)
        ensures
            r == self@.len(),
    {
        self.processes.len()
    }

    /// The index of the process that runs next.
    pub fn curr_index(&self) -> (r: usize)
        ensures
            r == self.cursor(),
    {
        self.curr_index
    }

    /// The context in slot `index`.
    pub fn get(&self, index: usize) -> (r: Option<Context>)
        ensures
            r == if index < self@.len() {
                Some(self@[index as int])
            } else {
                None
            },
    {
        if index < self.processes.len() {
            Some(self.processes[index])
        } else {
            None
        }
    }
}

/// What `next_program` and `kill_process` leave of the shared paging state
/// when they hand the processor to `next`: its address space is the active
/// one, and nothing else has changed.
pub open spec fn switched(paging: &Paging, before: &Paging, next: Context) -> bool {
    &&& paging.current == next.dir
    &&& paging.enabled
    &&& paging.frames == before.frames
    &&& paging.arena == before.arena
    &&& paging.heap_ready == before.heap_ready
    &&& paging.invalidated == before.invalidated
}

/// The scheduler's entry from the timer. `new_context` is the context of
/// the process that was interrupted: it replaces the entry before the
/// cursor. The process at the cursor is the one to run: its address space
/// is made the active one, the cursor moves on, going round, and its
/// context is handed back for the caller to resume. With no process in the
/// table nothing happens.
pub fn next_program(table: &mut ProcessTable, new_context: Context, paging: &mut Paging) -> (r:
    Option<Context>)
    requires
        old(table).wf(),
    ensures
        final(table).wf(),
        final(table).loaded() == old(table).loaded(),
        old(table)@.len() == 0 ==> r is None && final(table)@ == old(table)@ && final(table).cursor() == old(table).cursor() && *final(paging) == *old(paging),
        old(table)@.len() > 0 ==> {
            &&& final(table)@ == old(table)@.update(
                spec_prev_index(old(table).cursor(), old(table)@.len() as int),
                new_context,
            )
            &&& r == Some(final(table)@[old(table).cursor()])
            &&& final(table).cursor() == spec_next_index(
                old(table).cursor(),
                old(table)@.len() as int,
            )
            &&& switched(final(paging), old(paging), r->0)
        },
{
    let len = table.processes.len();
    if len == 0 {
        return None;
    }
    let replace = prev_index(table.curr_index, len);
    table.processes[replace] = new_context;
    let new_process = table.processes[table.curr_index];
    table.curr_index = next_index(table.curr_index, len);
    paging.current = new_process.dir;
    paging.enabled = true;
    Some(new_process)
}

/// Admits a process: its context is appended and the cursor moves on,
/// going round. The first process to be admitted is entered at once, as
/// `next_program` would enter it, since no timer tick will; its context is
/// handed back for that. The caller masks the timer line for the time of
/// the call.
pub fn register(table: &mut ProcessTable, esp: u32, eip: u32, dir: u32, paging: &mut Paging) -> (r:
    Option<Context>)
    requires
        old(table).wf(),
    ensures
        final(table).wf(),
        final(table).loaded(),
        final(table)@ == old(table)@.push(Context { esp, eip, dir }),
        old(table)@.len() == 0 ==> {
            &&& r == Some(Context { esp, eip, dir })
            &&& final(table).cursor() == 0
            &&& switched(final(paging), old(paging), Context { esp, eip, dir })
        },
        old(table)@.len() > 0 ==> {
            &&& r is None
            &&& final(table).cursor() == spec_next_index(
                old(table).cursor(),
                (old(table)@.len() + 1) as int,
            )
            &&& *final(paging) == *old(paging)
        },
{
    let context = Context { esp, eip, dir };
    table.processes.push(context);
    let len = table.processes.len();
    table.curr_index = next_index(table.curr_index, len);
    table.has_loaded = true;
    if len == 1 {
        let r = next_program(table, context, paging);
        proof {
            assert(table@ =~= old(table)@.push(context));
        }
        return r;
    }
    None
}

/// Marks the process before the cursor as finished: the cursor moves back
/// onto it, and its resume address becomes `kill_entry`, the routine that
/// removes it when it is next switched to. The caller masks the timer line
/// for the time of the call. The table must not be empty.
pub fn unregister_prev(table: &mut ProcessTable, kill_entry: u32)
    requires
        old(table).wf(),
        old(table)@.len() > 0,
    ensures
        final(table).wf(),
        final(table).loaded() == old(table).loaded(),
        final(table).cursor() == spec_prev_index(old(table).cursor(), old(table)@.len() as int),
        final(table)@ == old(table)@.update(
            final(table).cursor(),
            Context { eip: kill_entry, ..old(table)@[final(table).cursor()] },
        ),
{
    let len = table.processes.len();
    table.curr_index = prev_index(table.curr_index, len);
    let finished = table.processes[table.curr_index];
    table.processes[table.curr_index] = Context { eip: kill_entry, ..finished };
}

/// Where the cursor stands once the entry before it has been removed: on
/// the process it named before.
pub open spec fn cursor_after_removal(cursor: int) -> int {
    if cursor > 0 {
        cursor - 1
    } else {
        0
    }
}

/// Removes the finished process, which is the one before the cursor, and
/// hands the processor to the next: the process the cursor named before.
/// Its address space is made the active one, the cursor moves on, going
/// round, and its context is handed back for the caller to resume. Where
/// the finished process was the last one, nothing is left to run. The table
/// must not be empty.
pub fn kill_process(table: &mut ProcessTable, paging: &mut Paging) -> (r: Option<Context>)
    requires
        old(table).wf(),
        old(table)@.len() > 0,
    ensures
        final(table).wf(),
        final(table).loaded() == old(table).loaded(),
        final(table)@ == old(table)@.remove(
            spec_prev_index(old(table).cursor(), old(table)@.len() as int),
        ),
        old(table)@.len() == 1 ==> r is None && final(table).cursor() == 0 && *final(paging)
            == *old(paging),
        old(table)@.len() > 1 ==> {
            &&& r == Some(
                final(table)@[cursor_after_removal(old(table).cursor())],
            )
            &&& r == Some(old(table)@[old(table).cursor()])
            &&& final(table).cursor() == spec_next_index(
                cursor_after_removal(old(table).cursor()),
                (old(table)@.len() - 1) as int,
            )
            &&& switched(final(paging), old(paging), r->0)
        },
{
    let len = table.processes.len();
    let finished = prev_index(table.curr_index, len);
    table.processes.remove(finished);
    if table.curr_index > 0 {
        table.curr_index = table.curr_index - 1;
    }
    if len == 1 {
        return None;
    }
    let next = table.processes[table.curr_index];
    table.curr_index = next_index(table.curr_index, len - 1);
    paging.current = next.dir;
    paging.enabled = true;
    Some(next)
}

/// Whether a process has ever been registered.
pub fn has_loaded_processes(table: &ProcessTable) -> (r: bool)
    ensures
        r == table.loaded(),
{
    table.has_loaded
}

/// Where the cursor stands after `ticks` calls of `next_program` on a table
/// of `proc_len` processes, from the cursor `start`.
pub open spec fn cursor_after(proc_len: int, start: int, ticks: nat) -> int
    decreases ticks,
{
    if ticks == 0 {
        start
    } else {
        spec_next_index(cursor_after(proc_len, start, (ticks - 1) as nat), proc_len)
    }
}

/// How often the process in slot `index` was handed the processor in those
/// `ticks` calls: once for every call that found the cursor on it.
pub open spec fn runs(proc_len: int, start: int, ticks: nat, index: int) -> int
    decreases ticks,
{
    if ticks == 0 {
        0
    } else {
        runs(proc_len, start, (ticks - 1) as nat, index) + if cursor_after(
            proc_len,
            start,
            (ticks - 1) as nat,
        ) == index {
            1int
        } else {
            0int
        }
    }
}

/// Full rounds completed after `ticks` calls.
pub open spec fn rounds(proc_len: int, ticks: nat) -> int
    decreases ticks,
{
    if ticks == 0 {
        0
    } else if steps(proc_len, (ticks - 1) as nat) + 1 < proc_len {
        rounds(proc_len, (ticks - 1) as nat)
    } else {
        rounds(proc_len, (ticks - 1) as nat) + 1
    }
}

/// Calls made in the round that is under way after `ticks` calls.
pub open spec fn steps(proc_len: int, ticks: nat) -> int
    decreases ticks,
{
    if ticks == 0 {
        0
    } else if steps(proc_len, (ticks - 1) as nat) + 1 < proc_len {
        steps(proc_len, (ticks - 1) as nat) + 1
    } else {
        0
    }
}

/// The place of slot `index` in a round that begins at slot `start`.
pub open spec fn place_in_round(proc_len: int, start: int, index: int) -> int {
    if index >= start {
        index - start
    } else {
        index + proc_len - start
    }
}

/// After any number of calls, every process has run once in each full
/// round, and once more if the round under way has reached its place.
pub proof fn lemma_runs_by_round(proc_len: int, start: int, ticks: nat, index: int)
    requires
        0 <= start < proc_len,
        0 <= index < proc_len,
    ensures
        0 <= steps(proc_len, ticks) < proc_len,
        place_in_round(proc_len, start, cursor_after(proc_len, start, ticks)) == steps(
            proc_len,
            ticks,
        ),
        0 <= cursor_after(proc_len, start, ticks) < proc_len,
        runs(proc_len, start, ticks, index) == rounds(proc_len, ticks) + if place_in_round(
            proc_len,
            start,
            index,
        ) < steps(proc_len, ticks) {
            1int
        } else {
            0int
        },
    decreases ticks,
{
    if ticks > 0 {
        lemma_runs_by_round(proc_len, start, (ticks - 1) as nat, index);
    }
}

/// Round-robin: with the processes of a table left as they are, after any
/// number of timer ticks the numbers of times that any two of them were
/// handed the processor differ by at most one.
pub proof fn lemma_round_robin_fair(proc_len: int, start: int, ticks: nat, a: int, b: int)
    requires
        0 <= start < proc_len,
        0 <= a < proc_len,
        0 <= b < proc_len,
    ensures
        -1 <= runs(proc_len, start, ticks, a) - runs(proc_len, start, ticks, b) <= 1,
{
    lemma_runs_by_round(proc_len, start, ticks, a);
    lemma_runs_by_round(proc_len, start, ticks, b);
}

} // verus!
