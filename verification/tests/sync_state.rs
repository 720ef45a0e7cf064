use lib::c_sync_state::{
    AMchangeHashes, AMsyncHaves, AMsyncState, AMsyncStateEqual, AMsyncStateInit,
    AMsyncStateLastSentHeads, AMsyncStateSharedHeads, AMsyncStateTheirHaves,
    AMsyncStateTheirHeads, AMsyncStateTheirNeeds,
};
use lib::sync_state::{BloomFilter, ChangeHash, Have, State};

fn hash(b: u8) -> ChangeHash {
    ChangeHash([b; 32])
}

fn have(b: u8) -> Have {
    Have {
        last_sync: vec![hash(b)],
        bloom: BloomFilter { num_entries: 1, num_bits_per_entry: 10, num_probes: 7, bits: vec![b] },
    }
}

fn full_state() -> State {
    State {
        shared_heads: vec![hash(1)],
        last_sent_heads: vec![hash(2), hash(3)],
        their_heads: Some(vec![hash(4)]),
        their_need: Some(vec![hash(5), hash(6)]),
        their_have: Some(vec![have(7)]),
        sent_hashes: vec![hash(8)],
    }
}

#[test]
fn init_gives_a_state_with_defaults() {
    let state = AMsyncStateInit();
    assert!(AMsyncStateSharedHeads(Some(&state)).as_slice().is_empty());
    assert!(AMsyncStateLastSentHeads(Some(&state)).as_slice().is_empty());
    let mut has_value = true;
    assert!(AMsyncStateTheirHeads(Some(&state), &mut has_value).as_slice().is_empty());
    assert!(!has_value);
    has_value = true;
    assert!(AMsyncStateTheirNeeds(Some(&state), &mut has_value).as_slice().is_empty());
    assert!(!has_value);
    has_value = true;
    assert!(AMsyncStateTheirHaves(Some(&state), &mut has_value).as_slice().is_empty());
    assert!(!has_value);
}

#[test]
fn accessors_read_the_fields() {
    let state = AMsyncState::new(full_state());
    assert_eq!(AMsyncStateSharedHeads(Some(&state)).as_slice(), &[hash(1)]);
    assert_eq!(AMsyncStateLastSentHeads(Some(&state)).as_slice(), &[hash(2), hash(3)]);
    let mut has_value = false;
    assert_eq!(AMsyncStateTheirHeads(Some(&state), &mut has_value).as_slice(), &[hash(4)]);
    assert!(has_value);
    has_value = false;
    assert_eq!(
        AMsyncStateTheirNeeds(Some(&state), &mut has_value).as_slice(),
        &[hash(5), hash(6)]
    );
    assert!(has_value);
    has_value = false;
    assert_eq!(AMsyncStateTheirHaves(Some(&state), &mut has_value).as_slice(), &[have(7)]);
    assert!(has_value);
}

#[test]
fn empty_but_present_lists_are_reported_as_present() {
    let mut s = State::new();
    s.their_heads = Some(Vec::new());
    s.their_have = Some(Vec::new());
    let state = AMsyncState::new(s);
    let mut has_value = false;
    assert!(AMsyncStateTheirHeads(Some(&state), &mut has_value).as_slice().is_empty());
    assert!(has_value);
    has_value = false;
    assert!(AMsyncStateTheirHaves(Some(&state), &mut has_value).as_slice().is_empty());
    assert!(has_value);
    has_value = true;
    assert!(AMsyncStateTheirNeeds(Some(&state), &mut has_value).as_slice().is_empty());
    assert!(!has_value);
}

#[test]
fn missing_state_gives_nothing() {
    assert!(AMsyncStateSharedHeads(None).as_slice().is_empty());
    assert!(AMsyncStateLastSentHeads(None).as_slice().is_empty());
    let mut has_value = true;
    assert!(AMsyncStateTheirHeads(None, &mut has_value).as_slice().is_empty());
    assert!(!has_value);
    has_value = true;
    assert!(AMsyncStateTheirNeeds(None, &mut has_value).as_slice().is_empty());
    assert!(!has_value);
    has_value = true;
    assert!(AMsyncStateTheirHaves(None, &mut has_value).as_slice().is_empty());
    assert!(!has_value);
}

#[test]
fn equal_compares_what_the_states_hold() {
    let a = AMsyncState::new(full_state());
    let b = AMsyncState::new(full_state());
    assert!(AMsyncStateEqual(Some(&a), Some(&a)));
    assert!(AMsyncStateEqual(Some(&a), Some(&b)));
    assert!(AMsyncStateEqual(Some(&b), Some(&a)));
    assert!(!AMsyncStateEqual(None, Some(&a)));
    assert!(!AMsyncStateEqual(Some(&a), None));
    assert!(!AMsyncStateEqual(None, None));
    let fresh1 = AMsyncStateInit();
    let fresh2 = AMsyncStateInit();
    assert!(AMsyncStateEqual(Some(&fresh1), Some(&fresh2)));
    assert!(!AMsyncStateEqual(Some(&a), Some(&fresh1)));
}

#[test]
fn equal_sees_each_field() {
    let base = AMsyncState::new(full_state());
    let changes: Vec<fn(&mut State)> = vec![
        |s| s.shared_heads.push(hash(9)),
        |s| s.last_sent_heads[1] = hash(9),
        |s| s.their_heads = None,
        |s| s.their_need = Some(vec![hash(5)]),
        |s| s.their_have.as_mut().unwrap()[0].bloom.bits[0] = 0,
        |s| s.their_have.as_mut().unwrap()[0].bloom.num_probes = 1,
        |s| s.their_have.as_mut().unwrap()[0].last_sync.clear(),
        |s| s.sent_hashes.clear(),
    ];
    for change in changes {
        let mut other = full_state();
        change(&mut other);
        let other = AMsyncState::new(other);
        assert!(!AMsyncStateEqual(Some(&base), Some(&other)));
    }
}

#[test]
fn state_equality_operator_agrees() {
    assert!(full_state() == full_state());
    assert!(full_state() != State::new());
    let mut state = AMsyncState::new(State::new());
    state.body_mut().shared_heads.push(hash(1));
    assert_eq!(state.body().shared_heads, vec![hash(1)]);
    assert_eq!(state.as_ref().shared_heads, vec![hash(1)]);
}

#[test]
fn change_hash_sequences_default_to_empty() {
    assert!(AMchangeHashes::default().as_slice().is_empty());
    assert!(AMsyncHaves::default().as_slice().is_empty());
    let hashes = [hash(1), hash(2)];
    assert_eq!(AMchangeHashes::new(&hashes).as_slice(), &hashes);
}
