use model_gateway::util::sequence_id::{
    compose_id, id_from_reading, next_counter, next_counter_state, rand_from_reading,
    reading_time, scramble, time_since_epoch, SequenceId, EPOCH_OFFSET, INITIAL_COUNTER_STATE,
};

#[test]
fn test_sequence_id() {
    let id_gen = SequenceId::new();
    let id1 = id_gen.next_id();
    let id2 = id_gen.next_id();

    assert_ne!(id1, id2);
    println!("ID1: {:064b}", id1);
    println!("ID2: {:064b}", id2);
}

#[test]
fn test_different_node_ids() {
    let id_gen1 = SequenceId::with_node_id(1);
    let id_gen2 = SequenceId::with_node_id(2);

    let id1 = id_gen1.next_id();
    let id2 = id_gen2.next_id();

    // * extract node bits (bits 14-21)
    let node1 = (id1 >> 14) & 0xFF;
    let node2 = (id2 >> 14) & 0xFF;

    assert_eq!(node1, 1);
    assert_eq!(node2, 2);
}

#[test]
fn compose_packs_the_fields() {
    assert_eq!(compose_id(5, 3, 7, 9), 21021129);
    let id = compose_id(0x3FF_FFFF_FFFF, 255, 255, 63);
    assert_eq!(id, u64::MAX);
    // * the time keeps 42 bits, the counter one byte
    let id = compose_id(0x7FF_FFFF_FFFF, 0, 0x1FF, 0);
    assert_eq!(id >> 22, 0x3FF_FFFF_FFFF);
    assert_eq!((id >> 6) & 0xFF, 0xFF);
}

#[test]
fn fields_read_back() {
    let id = compose_id(123_456_789, 42, 17, 5);
    assert_eq!(id >> 22, 123_456_789);
    assert_eq!((id >> 14) & 0xFF, 42);
    assert_eq!((id >> 6) & 0xFF, 17);
    assert_eq!(id & 0x3F, 5);
}

#[test]
fn time_counts_from_2001() {
    assert_eq!(time_since_epoch(EPOCH_OFFSET * 1000), 0);
    assert_eq!(time_since_epoch(EPOCH_OFFSET * 1000 + 1500), 1500);
    assert_eq!(time_since_epoch(1000), 0);
}

#[test]
fn counter_steps_and_starts_over() {
    let t = 1234;
    let state = (t << 8) | 5;
    assert_eq!(next_counter(state, t, 999), 6);
    assert_eq!(next_counter((t << 8) | 254, t, 999), 255);
    assert_eq!(next_counter((t << 8) | 255, t, 0x1234), 0x34);
    // * a new millisecond starts the counter over
    assert_eq!(next_counter(state, t + 1, 999), 0);
    assert_eq!(next_counter(0, t, 999), 0);
    assert_eq!(next_counter_state(state, t, 999), (t << 8) | 6);
    assert_eq!(next_counter_state(state, t + 1, 999), ((t + 1) << 8) | 0);
}

#[test]
fn ids_from_clock_readings() {
    assert_eq!(reading_time(EPOCH_OFFSET, 500_000_000), 500);
    assert_eq!(reading_time(0, 0), 0);
    assert_eq!(rand_from_reading(1, 5), 2063600790);
    assert_eq!(rand_from_reading(1, 5), scramble(1_000_000_005));
    assert_eq!(id_from_reading(EPOCH_OFFSET + 1, 2_000_000, 3, 7, 0x41), 4202742209);
}

#[test]
fn later_milliseconds_give_larger_ids() {
    let early = id_from_reading(EPOCH_OFFSET + 5, 0, 255, 255, 63);
    let late = id_from_reading(EPOCH_OFFSET + 5, 1_000_000, 0, 0, 0);
    assert!(early < late);
}

#[test]
fn scramble_values() {
    assert_eq!(scramble(0), 3336926330);
    assert_eq!(scramble(1), 1280166991);
    assert_eq!(scramble(123456789), 174172224);
}

#[test]
fn ids_carry_the_node_and_a_counter_per_millisecond() {
    let id_gen = SequenceId::with_node_id(200);
    assert_eq!(id_gen.node_id(), 200);
    let default_gen = SequenceId::default();
    assert_eq!(default_gen.node_id(), 0);
    let mut previous: Option<u64> = None;
    for _ in 0..300 {
        let id = id_gen.next_id();
        assert_eq!((id >> 14) & 0xFF, 200);
        let counter = (id >> 6) & 0xFF;
        match previous {
            // * the same millisecond: the counter counts up until 255
            Some(p) if p >> 22 == id >> 22 => {
                let c = (p >> 6) & 0xFF;
                if c < 255 {
                    assert_eq!(counter, c + 1);
                }
            }
            // * a new millisecond: the counter starts over
            _ => assert_eq!(counter, 0),
        }
        previous = Some(id);
    }
}

#[test]
fn different_fields_give_different_ids() {
    let ids = [
        compose_id(1, 0, 0, 0),
        compose_id(0, 1, 0, 0),
        compose_id(0, 0, 1, 0),
        compose_id(0, 0, 0, 1),
        compose_id(0, 0, 0, 0),
    ];
    for i in 0..ids.len() {
        for j in 0..ids.len() {
            if i != j {
                assert_ne!(ids[i], ids[j]);
            }
        }
    }
}

#[test]
fn fresh_generators_count_from_zero() {
    // * even at time field 0 (a clock before 2001)
    for time in [0u64, 1, 0x3FF_FFFF_FFFF] {
        let mut state = INITIAL_COUNTER_STATE;
        for k in 0..=255u64 {
            assert_eq!(next_counter(state, time, 0), k);
            state = next_counter_state(state, time, 0);
        }
    }
    let id = SequenceId::new().next_id();
    assert_eq!((id >> 6) & 0xFF, 0);
}
