use cs262::lamport::{
    decide, peers, Action, ClockMessage, Machine, MachineId, BUFFER_CAPACITY, DIE, MACHINES,
    MAX_SPEED, MIN_SPEED, SEED,
};

fn message(sender: u32, logical_time: u64) -> ClockMessage {
    ClockMessage { sender: MachineId(sender), logical_time }
}

#[test]
fn the_simulation_has_its_constants() {
    assert_eq!(MACHINES, 3);
    assert_eq!(BUFFER_CAPACITY, 100);
    assert_eq!(SEED, 0x40);
    assert_eq!((MIN_SPEED, MAX_SPEED, DIE), (1, 6, 10));
}

#[test]
fn the_die_decides_what_an_idle_machine_does() {
    assert_eq!(decide(1), Action::SendTo(0));
    assert_eq!(decide(2), Action::SendTo(1));
    assert_eq!(decide(3), Action::Broadcast);
    for roll in 4..=10 {
        assert_eq!(decide(roll), Action::Internal);
    }
    assert_eq!(decide(0), Action::Internal);
}

#[test]
fn peers_go_round_from_the_successor() {
    assert_eq!(peers(0, 3), vec![1, 2]);
    assert_eq!(peers(1, 3), vec![2, 0]);
    assert_eq!(peers(2, 3), vec![0, 1]);
    assert_eq!(peers(0, 1), Vec::<usize>::new());
    assert_eq!(peers(3, 5), vec![4, 0, 1, 2]);
}

#[test]
fn a_received_message_moves_the_clock_past_its_logical_time() {
    let source = Machine::source();
    let mut machine = Machine::new(MachineId(7), &source);
    assert_eq!(machine.id(), MachineId(7));
    assert_eq!(machine.clock(), 0);
    assert_eq!(machine.step(Some(message(1, 41))), Action::Received);
    assert_eq!(machine.clock(), 42);
    assert_eq!(machine.step(Some(message(1, 5))), Action::Received);
    assert_eq!(machine.clock(), 43);
    assert_eq!(machine.step(Some(message(1, 43))), Action::Received);
    assert_eq!(machine.clock(), 44);
    assert_eq!(machine.stamp(), message(7, 44));
}

#[test]
fn an_idle_machine_ticks_once_and_acts_on_a_roll() {
    let source = Machine::source();
    let mut machine = Machine::new(MachineId(0), &source);
    for tick in 1..=200u64 {
        let action = machine.step(None);
        assert_eq!(machine.clock(), tick);
        assert!(matches!(
            action,
            Action::SendTo(0) | Action::SendTo(1) | Action::Broadcast | Action::Internal
        ));
    }
}

#[test]
fn advance_counts_without_a_roll() {
    let source = Machine::source();
    let mut machine = Machine::new(MachineId(0), &source);
    machine.advance(None);
    machine.advance(Some(message(2, 10)));
    machine.advance(None);
    assert_eq!(machine.clock(), 12);
}

#[test]
fn a_full_clock_cannot_step() {
    let source = Machine::source();
    let mut machine = Machine::new(MachineId(0), &source);
    assert!(machine.can_step(None));
    assert!(machine.can_step(Some(message(1, u64::MAX - 1))));
    assert!(!machine.can_step(Some(message(1, u64::MAX))));
    machine.advance(Some(message(1, u64::MAX - 1)));
    assert_eq!(machine.clock(), u64::MAX);
    assert!(!machine.can_step(None));
}

#[test]
fn speeds_stay_in_their_range_and_follow_the_seed() {
    let source = Machine::source();
    let one = Machine::new(MachineId(0), &source);
    let again = Machine::new(MachineId(0), &Machine::source());
    for _ in 0..100 {
        let speed = one.speed();
        assert!((MIN_SPEED..=MAX_SPEED).contains(&speed));
        assert_eq!(speed, again.speed());
    }
}
