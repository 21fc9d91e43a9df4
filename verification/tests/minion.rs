use libd2d::{
    Coordinate, DelegateTaskMessage, Delegation, Grid, MinionEvent, MinionHeartbeat, MinionId,
    MinionState,
};

fn at(x: i32, y: i32) -> Coordinate {
    Coordinate { x, y }
}

fn id(byte: u8) -> MinionId {
    MinionId::new(vec![0x12, 0x20, byte])
}

fn task(to: u8, offset: Coordinate, rows: usize, cols: usize, cells: Vec<u32>) -> DelegateTaskMessage {
    DelegateTaskMessage {
        peer_id: id(to),
        global_coordinates: offset,
        area: Grid::from_shape_vec(rows, cols, cells).unwrap(),
    }
}

fn beat(x: i32, y: i32, poi: bool) -> MinionEvent {
    MinionEvent::Heartbeat(MinionHeartbeat { position: at(x, y), poi })
}

#[test]
fn minion_id_is_same_compares_the_bytes() {
    assert!(id(1).is_same(&id(1)));
    assert!(!id(1).is_same(&id(2)));
    assert!(!MinionId::new(vec![1, 2]).is_same(&MinionId::new(vec![1, 2, 3])));
    assert!(!MinionId::new(vec![1, 2, 3]).is_same(&MinionId::new(vec![1, 2])));
    assert!(MinionId::new(vec![]).is_same(&MinionId::new(vec![])));
    let copy = id(9).duplicate();
    assert_eq!(copy.bytes, vec![0x12, 0x20, 9]);
    assert!(copy.is_same(&id(9)));
}

#[test]
fn idle_minion_ignores_ticks() {
    let mut minion: MinionState<&str> = MinionState::new();
    assert!(!minion.is_ready());
    assert_eq!(minion.step(), None);
    assert_eq!(minion.tick(), None);
    assert_eq!(minion.poll_next("loop"), None);
    assert_eq!(minion.tick(), None);
    assert_eq!(minion.poll_next("loop"), None);
    assert!(!minion.is_ready());
    assert!(!minion.is_exhausted());
    assert_eq!(minion.remaining(), 0);
}

#[test]
fn minion_ignores_a_task_for_another() {
    let mut minion: MinionState<()> = MinionState::new();
    let other = task(2, at(0, 0), 1, 2, vec![1, 1]);
    assert_eq!(minion.delegate(&id(1), &other), Delegation::NotAddressed);
    assert!(!minion.is_ready());
    assert_eq!(minion.remaining(), 0);
    assert_eq!(minion.step(), None);
}

#[test]
fn minion_walks_its_area_in_row_major_order() {
    let mut minion: MinionState<()> = MinionState::new();
    let mine = task(1, at(10, 20), 2, 3, vec![0, 5, 0, 7, 0, 0]);
    assert_eq!(minion.delegate(&id(1), &mine), Delegation::Accepted);
    assert!(minion.is_ready());
    assert_eq!(minion.global_position(), at(10, 20));
    assert_eq!(minion.local_position(), at(0, 0));
    assert_eq!(minion.remaining(), 6);

    let mut events = Vec::new();
    let mut locals = Vec::new();
    for _ in 0..6 {
        events.push(minion.step().unwrap());
        locals.push(minion.local_position());
    }
    assert_eq!(locals, vec![at(0, 0), at(0, 1), at(0, 2), at(1, 0), at(1, 1), at(1, 2)]);
    assert_eq!(
        events,
        vec![
            beat(10, 20, false),
            beat(10, 21, true),
            beat(10, 22, false),
            beat(11, 20, true),
            beat(11, 21, false),
            beat(11, 22, false),
        ]
    );
    assert!(!minion.poi());
    assert!(!minion.is_exhausted());
    assert_eq!(minion.remaining(), 0);
}

#[test]
fn minion_signals_exhaustion_once_after_the_last_cell() {
    let mut minion: MinionState<()> = MinionState::new();
    let mine = task(1, at(0, 0), 1, 2, vec![4, 0]);
    assert_eq!(minion.delegate(&id(1), &mine), Delegation::Accepted);
    assert_eq!(minion.step(), Some(beat(0, 0, true)));
    assert!(minion.poi());
    assert_eq!(minion.step(), Some(beat(0, 1, false)));
    assert!(!minion.is_exhausted());
    assert_eq!(minion.step(), Some(MinionEvent::Exhausted));
    assert!(minion.is_exhausted());
    for _ in 0..5 {
        assert_eq!(minion.step(), None);
    }
    assert!(minion.is_exhausted());
    assert_eq!(minion.local_position(), at(0, 1));
}

#[test]
fn minion_with_an_area_without_cells_is_exhausted_at_once() {
    let mut minion: MinionState<()> = MinionState::new();
    let mine = task(1, at(i32::MAX, i32::MAX), 0, 4, vec![]);
    assert_eq!(minion.delegate(&id(1), &mine), Delegation::Accepted);
    assert_eq!(minion.step(), Some(MinionEvent::Exhausted));
    assert_eq!(minion.step(), None);
}

#[test]
fn minion_refuses_an_area_out_of_range() {
    let mut minion: MinionState<()> = MinionState::new();
    let far = task(1, at(i32::MAX, 0), 2, 1, vec![1, 1]);
    assert_eq!(minion.delegate(&id(1), &far), Delegation::OutOfRange);
    assert!(!minion.is_ready());
    let far = task(1, at(0, i32::MAX - 1), 1, 3, vec![1, 1, 1]);
    assert_eq!(minion.delegate(&id(1), &far), Delegation::OutOfRange);
    assert!(!minion.is_ready());
    assert_eq!(minion.step(), None);

    let edge = task(1, at(i32::MAX - 1, i32::MAX), 2, 1, vec![1, 0]);
    assert_eq!(minion.delegate(&id(1), &edge), Delegation::Accepted);
    assert_eq!(minion.step(), Some(beat(i32::MAX - 1, i32::MAX, true)));
    assert_eq!(minion.step(), Some(beat(i32::MAX, i32::MAX, false)));
    assert_eq!(minion.step(), Some(MinionEvent::Exhausted));
}

#[test]
fn minion_accepts_a_negative_offset() {
    let mut minion: MinionState<()> = MinionState::new();
    let mine = task(1, at(-5, -5), 1, 2, vec![0, 3]);
    assert_eq!(minion.delegate(&id(1), &mine), Delegation::Accepted);
    assert_eq!(minion.step(), Some(beat(-5, -5, false)));
    assert_eq!(minion.step(), Some(beat(-5, -4, true)));
}

#[test]
fn new_task_replaces_the_search_under_way() {
    let mut minion: MinionState<()> = MinionState::new();
    let first = task(1, at(0, 0), 1, 3, vec![1, 1, 1]);
    let second = task(1, at(5, 0), 1, 2, vec![0, 9]);
    assert_eq!(minion.delegate(&id(1), &first), Delegation::Accepted);
    assert_eq!(minion.tick(), None);
    assert_eq!(minion.delegate(&id(1), &second), Delegation::Accepted);
    // The heartbeat of the first search waits in the stream still.
    assert_eq!(minion.poll_next(()), Some(beat(0, 0, true)));
    assert_eq!(minion.local_position(), at(0, 0));
    assert_eq!(minion.global_position(), at(5, 0));
    assert_eq!(minion.remaining(), 2);

    let mut events = Vec::new();
    for _ in 0..6 {
        if let Some(event) = minion.step() {
            events.push(event);
        }
    }
    // No cell of the first area after the new task, and one signal of exhaustion in all.
    assert_eq!(events, vec![beat(5, 0, false), beat(5, 1, true), MinionEvent::Exhausted]);
}

#[test]
fn new_task_after_exhaustion_starts_a_new_search() {
    let mut minion: MinionState<()> = MinionState::new();
    let first = task(1, at(0, 0), 1, 1, vec![1]);
    assert_eq!(minion.delegate(&id(1), &first), Delegation::Accepted);
    assert_eq!(minion.step(), Some(beat(0, 0, true)));
    assert_eq!(minion.tick(), None);
    assert!(minion.is_exhausted());
    let second = task(1, at(3, 3), 1, 1, vec![0]);
    assert_eq!(minion.delegate(&id(1), &second), Delegation::Accepted);
    assert!(!minion.is_exhausted());
    // The completion of the first task was emitted and is still delivered.
    assert_eq!(minion.poll_next(()), Some(MinionEvent::Exhausted));
    assert_eq!(minion.step(), Some(beat(3, 3, false)));
    assert_eq!(minion.step(), Some(MinionEvent::Exhausted));
    assert_eq!(minion.step(), None);
}

#[test]
fn tick_stores_the_event_and_hands_out_the_waker() {
    let mut minion: MinionState<&str> = MinionState::new();
    let mine = task(1, at(2, 2), 1, 2, vec![0, 8]);
    assert_eq!(minion.delegate(&id(1), &mine), Delegation::Accepted);
    assert_eq!(minion.poll_next("loop"), None);
    assert_eq!(minion.tick(), Some("loop"));
    assert_eq!(minion.poll_next("loop"), Some(beat(2, 2, false)));
    assert_eq!(minion.poll_next("loop"), None);
    assert_eq!(minion.tick(), Some("loop"));
    assert_eq!(minion.poll_next("loop"), Some(beat(2, 3, true)));
    assert_eq!(minion.poll_next("loop"), None);
    assert_eq!(minion.tick(), Some("loop"));
    assert_eq!(minion.poll_next("loop"), Some(MinionEvent::Exhausted));
    assert_eq!(minion.poll_next("loop"), None);
    // Nothing is emitted after the exhaustion: the sleeper stays asleep.
    assert_eq!(minion.tick(), None);
    assert_eq!(minion.poll_next("loop"), None);
}

#[test]
fn slow_event_loop_gets_the_last_event_only() {
    let mut minion: MinionState<()> = MinionState::new();
    let mine = task(1, at(0, 0), 1, 3, vec![1, 2, 3]);
    assert_eq!(minion.delegate(&id(1), &mine), Delegation::Accepted);
    assert_eq!(minion.tick(), None);
    assert_eq!(minion.tick(), None);
    assert_eq!(minion.poll_next(()), Some(beat(0, 1, true)));
}

#[test]
fn reports_due_for_each_event() {
    let found = MinionHeartbeat { position: at(4, 2), poi: true };
    let due = MinionEvent::Heartbeat(found).reports();
    assert_eq!(due.poi, Some(at(4, 2)));
    assert_eq!(due.position, Some(found));
    assert!(!due.task_complete);

    let empty = MinionHeartbeat { position: at(4, 3), poi: false };
    let due = MinionEvent::Heartbeat(empty).reports();
    assert_eq!(due.poi, None);
    assert_eq!(due.position, Some(empty));
    assert!(!due.task_complete);

    let due = MinionEvent::Exhausted.reports();
    assert_eq!(due.poi, None);
    assert_eq!(due.position, None);
    assert!(due.task_complete);
}
