use kernel::paging::{BumpArena, FramesUsage, Paging};
use kernel::process::{
    has_loaded_processes, kill_process, next_index, next_program, prev_index, register,
    unregister_prev, Context, ProcessTable,
};

fn paging() -> Paging {
    Paging::new(FramesUsage::new(0), BumpArena::new())
}

#[test]
fn indices_go_round() {
    assert_eq!(next_index(0, 3), 1);
    assert_eq!(next_index(1, 3), 2);
    assert_eq!(next_index(2, 3), 0);
    assert_eq!(next_index(0, 1), 0);
    assert_eq!(prev_index(0, 3), 2);
    assert_eq!(prev_index(2, 3), 1);
    assert_eq!(prev_index(0, 1), 0);
    assert_eq!(next_index(7, 3), 0);
}

#[test]
fn the_first_process_is_entered_at_once() {
    let mut table = ProcessTable::new();
    let mut paging = paging();
    assert!(!has_loaded_processes(&table));
    let first = register(&mut table, 0x1000, 0x2000, 0x30_0000, &mut paging);
    assert_eq!(first, Some(Context { esp: 0x1000, eip: 0x2000, dir: 0x30_0000 }));
    assert_eq!(paging.curr(), 0x30_0000);
    assert!(has_loaded_processes(&table));
    assert_eq!(table.len(), 1);
    assert_eq!(table.curr_index(), 0);
    let second = register(&mut table, 0x1100, 0x2100, 0x31_0000, &mut paging);
    assert_eq!(second, None);
    assert_eq!(paging.curr(), 0x30_0000);
    assert_eq!(table.len(), 2);
    assert_eq!(table.curr_index(), 1);
    assert_eq!(table.get(1), Some(Context { esp: 0x1100, eip: 0x2100, dir: 0x31_0000 }));
    assert_eq!(table.get(2), None);
}

#[test]
fn three_slots_share_the_ticks_evenly() {
    for ticks in 0..25usize {
        let mut table = ProcessTable::new();
        let mut paging = paging();
        let mut running = register(&mut table, 0, 100, 0x1000, &mut paging).unwrap();
        register(&mut table, 0, 200, 0x2000, &mut paging);
        register(&mut table, 0, 300, 0x3000, &mut paging);
        let mut counts = [0usize; 3];
        for _ in 0..ticks {
            let slot = table.curr_index();
            let expected = table.get(slot);
            let next = next_program(&mut table, running, &mut paging);
            if slot != prev_index(slot, 3) {
                assert_eq!(next, expected);
            }
            assert_eq!(paging.curr(), next.unwrap().dir);
            counts[slot] += 1;
            running = next.unwrap();
        }
        let most = *counts.iter().max().unwrap();
        let least = *counts.iter().min().unwrap();
        assert!(most - least <= 1, "{:?} after {} ticks", counts, ticks);
        assert_eq!(counts.iter().sum::<usize>(), ticks);
    }
}

#[test]
fn two_processes_take_turns() {
    let mut table = ProcessTable::new();
    let mut paging = paging();
    let mut running = register(&mut table, 0, 100, 0x1000, &mut paging).unwrap();
    register(&mut table, 0, 200, 0x2000, &mut paging);
    let mut counts = [0usize; 2];
    for tick in 0..9u32 {
        // What the running process was doing when the tick came.
        let saved = Context { esp: tick, eip: running.eip, dir: running.dir };
        let next = next_program(&mut table, saved, &mut paging).unwrap();
        assert!(next.dir != running.dir);
        counts[(next.eip / 100 - 1) as usize] += 1;
        running = next;
    }
    assert_eq!(counts, [4, 5]);
}

#[test]
fn the_interrupted_context_is_kept() {
    let mut table = ProcessTable::new();
    let mut paging = paging();
    let entered = register(&mut table, 0x9000, 0x40_0000, 0x30_0000, &mut paging).unwrap();
    assert_eq!(entered.eip, 0x40_0000);
    // The process is interrupted twice; what it was doing is kept each
    // time, and being the only one it is resumed where it was.
    let saved = Context { esp: 0x8FD0, eip: 0x40_0005, dir: 0x30_0000 };
    assert_eq!(next_program(&mut table, saved, &mut paging), Some(saved));
    assert_eq!(table.get(0), Some(saved));
    let later = Context { esp: 0x8FC0, eip: 0x40_0006, dir: 0x30_0000 };
    assert_eq!(next_program(&mut table, later, &mut paging), Some(later));
    assert_eq!(table.get(0), Some(later));
    assert_eq!(table.len(), 1);
}

#[test]
fn an_empty_table_schedules_nothing() {
    let mut table = ProcessTable::new();
    let mut paging = paging();
    let saved = Context { esp: 1, eip: 2, dir: 3 };
    assert_eq!(next_program(&mut table, saved, &mut paging), None);
    assert_eq!(table.len(), 0);
    assert_eq!(paging.curr(), 0);
}

#[test]
fn the_saved_context_replaces_the_one_before_the_cursor() {
    let mut table = ProcessTable::new();
    let mut paging = paging();
    register(&mut table, 0, 100, 0x1000, &mut paging);
    register(&mut table, 0, 200, 0x2000, &mut paging);
    register(&mut table, 0, 300, 0x3000, &mut paging);
    assert_eq!(table.curr_index(), 2);
    let saved = Context { esp: 7, eip: 201, dir: 0x2000 };
    let next = next_program(&mut table, saved, &mut paging);
    assert_eq!(next, Some(Context { esp: 0, eip: 300, dir: 0x3000 }));
    assert_eq!(table.get(1), Some(saved));
    assert_eq!(table.curr_index(), 0);
}

#[test]
fn a_finished_process_is_removed_and_the_next_one_runs() {
    let mut table = ProcessTable::new();
    let mut paging = paging();
    register(&mut table, 0, 100, 0x1000, &mut paging);
    register(&mut table, 0, 200, 0x2000, &mut paging);
    register(&mut table, 0, 300, 0x3000, &mut paging);
    assert_eq!(table.curr_index(), 2);
    // The process before the cursor is marked as finished: the cursor
    // moves back onto it and it resumes in the routine that removes it.
    unregister_prev(&mut table, 0xDEAD);
    assert_eq!(table.curr_index(), 1);
    assert_eq!(table.get(1), Some(Context { esp: 0, eip: 0xDEAD, dir: 0x2000 }));
    assert_eq!(table.get(0).unwrap().eip, 100);
    assert_eq!(table.get(2).unwrap().eip, 300);
    // The next tick switches to it.
    let saved = Context { esp: 1, eip: 101, dir: 0x1000 };
    let killer = next_program(&mut table, saved, &mut paging);
    assert_eq!(killer, Some(Context { esp: 0, eip: 0xDEAD, dir: 0x2000 }));
    assert_eq!(table.get(0), Some(saved));
    assert_eq!(table.curr_index(), 2);
    // It removes itself, and the process the cursor names runs.
    let next = kill_process(&mut table, &mut paging);
    assert_eq!(table.len(), 2);
    assert_eq!(next, Some(Context { esp: 0, eip: 300, dir: 0x3000 }));
    assert_eq!(paging.curr(), 0x3000);
    assert_eq!(table.get(0), Some(saved));
    assert_eq!(table.get(1).unwrap().dir, 0x3000);
    assert_eq!(table.curr_index(), 0);
}

#[test]
fn killing_from_the_middle_keeps_the_cursor_on_its_process() {
    let mut table = ProcessTable::new();
    let mut paging = paging();
    register(&mut table, 0, 100, 0x1000, &mut paging);
    register(&mut table, 0, 200, 0x2000, &mut paging);
    register(&mut table, 0, 300, 0x3000, &mut paging);
    // Cursor 2: the entry before it is the second process.
    let next = kill_process(&mut table, &mut paging).unwrap();
    assert_eq!(next.dir, 0x3000);
    assert_eq!(table.len(), 2);
    assert_eq!(table.get(0).unwrap().dir, 0x1000);
    assert_eq!(table.get(1).unwrap().dir, 0x3000);
    assert_eq!(table.curr_index(), 0);
}

#[test]
fn killing_the_last_process_leaves_nothing_to_run() {
    let mut table = ProcessTable::new();
    let mut paging = paging();
    register(&mut table, 0, 100, 0x1000, &mut paging);
    assert_eq!(kill_process(&mut table, &mut paging), None);
    assert_eq!(table.len(), 0);
    assert_eq!(table.curr_index(), 0);
    assert!(has_loaded_processes(&table));
}
