use bevy_audio::delay_buffer::DelayBufferBank;

fn drain(bank: &mut DelayBufferBank, channel: usize, count: usize) -> Vec<i16> {
    let mut out = Vec::new();
    for _ in 0..count {
        out.push(bank.pop(channel));
    }
    out
}

#[test]
fn pop_from_a_new_bank_is_silence() {
    let mut bank = DelayBufferBank::new();
    assert_eq!(bank.pop(0), 0);
    assert_eq!(bank.pop(5), 0);
    assert_eq!(bank.pop(usize::MAX), 0);
}

#[test]
fn insert_without_delay_is_due_next() {
    let mut bank = DelayBufferBank::new();
    bank.insert(0, 0, 42);
    assert_eq!(drain(&mut bank, 0, 3), vec![42, 0, 0]);
}

#[test]
fn insert_fills_with_silence_up_to_the_delay() {
    let mut bank = DelayBufferBank::new();
    bank.insert(0, 3, 9);
    assert_eq!(drain(&mut bank, 0, 6), vec![0, 0, 0, 9, 0, 0]);
}

#[test]
fn insert_behind_what_is_queued() {
    let mut bank = DelayBufferBank::new();
    bank.insert(0, 1, 5);
    bank.insert(0, 4, 6);
    assert_eq!(drain(&mut bank, 0, 6), vec![0, 5, 0, 0, 6, 0]);
}

#[test]
fn insert_right_behind_the_back() {
    let mut bank = DelayBufferBank::new();
    bank.insert(0, 0, 1);
    bank.insert(0, 1, 2);
    bank.insert(0, 2, 3);
    assert_eq!(drain(&mut bank, 0, 4), vec![1, 2, 3, 0]);
}

#[test]
fn overlapping_contributions_add_up() {
    let mut bank = DelayBufferBank::new();
    bank.insert(0, 2, 100);
    bank.insert(0, 2, 23);
    bank.insert(0, 2, -3);
    bank.insert(0, 0, 7);
    bank.insert(0, 0, 7);
    assert_eq!(drain(&mut bank, 0, 4), vec![14, 0, 120, 0]);
}

#[test]
fn overlapping_contributions_saturate_at_the_top() {
    let mut bank = DelayBufferBank::new();
    bank.insert(0, 1, 30000);
    bank.insert(0, 1, 10000);
    assert_eq!(drain(&mut bank, 0, 2), vec![0, i16::MAX]);
}

#[test]
fn overlapping_contributions_saturate_at_the_bottom() {
    let mut bank = DelayBufferBank::new();
    bank.insert(0, 1, -30000);
    bank.insert(0, 1, -10000);
    assert_eq!(drain(&mut bank, 0, 2), vec![0, i16::MIN]);
}

#[test]
fn saturation_depends_on_the_order_of_contributions() {
    let mut bank = DelayBufferBank::new();
    bank.insert(0, 0, 30000);
    bank.insert(0, 0, 10000);
    bank.insert(0, 0, -20000);
    assert_eq!(bank.pop(0), 12767);
    bank.insert(0, 0, 30000);
    bank.insert(0, 0, -20000);
    bank.insert(0, 0, 10000);
    assert_eq!(bank.pop(0), 20000);
}

#[test]
fn channels_are_kept_apart() {
    let mut bank = DelayBufferBank::new();
    bank.insert(0, 0, 1);
    bank.insert(1, 0, 2);
    bank.insert(0, 1, 3);
    bank.insert(1, 2, 4);
    assert_eq!(drain(&mut bank, 1, 4), vec![2, 0, 4, 0]);
    assert_eq!(drain(&mut bank, 0, 3), vec![1, 3, 0]);
}

#[test]
fn pop_moves_the_rest_one_nearer() {
    let mut bank = DelayBufferBank::new();
    bank.insert(0, 2, 8);
    assert_eq!(bank.pop(0), 0);
    bank.insert(0, 1, 1);
    assert_eq!(drain(&mut bank, 0, 3), vec![0, 9, 0]);
}

#[test]
fn insert_on_a_channel_without_queue_grows_the_bank() {
    let mut bank = DelayBufferBank::new();
    bank.insert(2, 1, 11);
    // the channels below hold nothing
    assert_eq!(drain(&mut bank, 0, 3), vec![0, 0, 0]);
    assert_eq!(drain(&mut bank, 1, 3), vec![0, 0, 0]);
    assert_eq!(drain(&mut bank, 3, 3), vec![0, 0, 0]);
    assert_eq!(drain(&mut bank, 2, 3), vec![0, 11, 0]);
}

#[test]
fn a_contribution_reaches_its_own_channel_only() {
    let mut bank = DelayBufferBank::new();
    bank.insert(2, 1, 5);
    assert_eq!(drain(&mut bank, 0, 2), vec![0, 0]);
    assert_eq!(drain(&mut bank, 1, 2), vec![0, 0]);
    assert_eq!(drain(&mut bank, 2, 2), vec![0, 5]);
    bank.insert(5, 0, -7);
    bank.insert(3, 0, 9);
    for channel in [0, 1, 2, 4, 6] {
        assert_eq!(drain(&mut bank, channel, 2), vec![0, 0], "channel {}", channel);
    }
    assert_eq!(drain(&mut bank, 3, 2), vec![9, 0]);
    assert_eq!(drain(&mut bank, 5, 2), vec![-7, 0]);
}

#[test]
fn a_queue_that_the_bank_grew_by_takes_contributions_later() {
    let mut bank = DelayBufferBank::new();
    bank.insert(2, 0, 1);
    bank.insert(0, 2, 4);
    bank.insert(1, 0, 6);
    assert_eq!(drain(&mut bank, 0, 4), vec![0, 0, 4, 0]);
    assert_eq!(drain(&mut bank, 1, 2), vec![6, 0]);
    assert_eq!(drain(&mut bank, 2, 2), vec![1, 0]);
}

#[test]
fn insert_on_the_next_channel_grows_the_bank_by_one() {
    let mut bank = DelayBufferBank::new();
    bank.insert(0, 0, 5);
    bank.insert(1, 0, 6);
    bank.insert(2, 0, 7);
    assert_eq!(bank.pop(0), 5);
    assert_eq!(bank.pop(1), 6);
    assert_eq!(bank.pop(2), 7);
    assert_eq!(bank.pop(0), 0);
}

#[test]
fn a_drained_queue_takes_new_contributions() {
    let mut bank = DelayBufferBank::new();
    bank.insert(0, 0, 5);
    assert_eq!(drain(&mut bank, 0, 2), vec![5, 0]);
    bank.insert(0, 1, 6);
    assert_eq!(drain(&mut bank, 0, 3), vec![0, 6, 0]);
}
