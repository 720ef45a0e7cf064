//! The synchronisation state as the C interface hands it out, and the
//! decisions behind its accessors. A null pointer from C arrives here as
//! `None`, an out-parameter as a `&mut`.
#![allow(non_snake_case)]

use crate::sync_state::{haves_view, ChangeHash, Have, State};
use vstd::prelude::*;

verus! {

/// A sequence of change hashes borrowed from a synchronisation state.
#[derive(Debug, Clone, Copy)]
pub struct AMchangeHashes<'a> {
    hashes: &'a [ChangeHash],
}

impl<'a> View for AMchangeHashes<'a> {
    type V = Seq<ChangeHash>;

    closed spec fn view(&self) -> Seq<ChangeHash> {
        self.hashes@
    }
}

impl<'a> AMchangeHashes<'a> {
    /// The sequence of the hashes in `hashes`.
    pub fn new(hashes: &'a [ChangeHash]) -> (r: AMchangeHashes<'a>)
        ensures
            r@ == hashes@,
    {
        AMchangeHashes { hashes }
    }

    /// The hashes of this sequence.
    pub fn as_slice(&self) -> (r: &'a [ChangeHash])
        ensures
            r@ == self@,
    {
        self.hashes
    }
}

impl<'a> Default for AMchangeHashes<'a> {
    fn default() -> (r: AMchangeHashes<'a>)
        ensures
            r@ == Seq::<ChangeHash>::empty(),
    {
        let empty: &[ChangeHash] = &[];
        assert(empty@ =~= Seq::<ChangeHash>::empty());
        AMchangeHashes { hashes: empty }
    }
}

/// A sequence of summaries of what the other peer has, borrowed from a
/// synchronisation state.
#[derive(Debug, Clone, Copy)]
pub struct AMsyncHaves<'a> {
    haves: &'a [Have],
}

impl<'a> View for AMsyncHaves<'a> {
    type V = Seq<Have>;

    closed spec fn view(&self) -> Seq<Have> {
        self.haves@
    }
}

impl<'a> AMsyncHaves<'a> {
    /// The sequence of the summaries in `haves`.
    pub fn new(haves: &'a [Have]) -> (r: AMsyncHaves<'a>)
        ensures
            r@ == haves@,
    {
        AMsyncHaves { haves }
    }

    /// The summaries of this sequence.
    pub fn as_slice(&self) -> (r: &'a [Have])
        ensures
            r@ == self@,
    {
        self.haves
    }
}

impl<'a> Default for AMsyncHaves<'a> {
    fn default() -> (r: AMsyncHaves<'a>)
        ensures
            r@ == Seq::<Have>::empty(),
    {
        let empty: &[Have] = &[];
        assert(empty@ =~= Seq::<Have>::empty());
        AMsyncHaves { haves: empty }
    }
}

/// The state of synchronization with a peer.
#[derive(Debug, Clone)]
pub struct AMsyncState {
    body: State,
}

impl AMsyncState {
    /// The state that this wraps.
    pub closed spec fn spec_body(&self) -> State {
        self.body
    }

    /// Wraps `state`.
    pub fn new(state: State) -> (r: Self)
        ensures
            r.spec_body() == state,
    {
        AMsyncState { body: state }
    }

    /// The state that this wraps.
    pub fn body(&self) -> (r: &State)
        ensures
            *r == self.spec_body(),
    {
        &self.body
    }

    /// The state that this wraps, to change it.
    pub fn body_mut(&mut self) -> (r: &mut State)
        ensures
            *r == old(self).spec_body(),
            final(self).spec_body() == *final(r),
    {
        &mut self.body
    }
}

impl AsRef<State> for AMsyncState {
    fn as_ref(&self) -> (r: &State)
        ensures
            *r == self.spec_body(),
    {
        &self.body
    }
}

impl AsMut<State> for AMsyncState {
    fn as_mut(&mut self) -> (r: &mut State)
        ensures
            *r == old(self).spec_body(),
            final(self).spec_body() == *final(r),
    {
        &mut self.body
    }
}

/// The hashes in an optional list, or none where there is no list.
pub open spec fn hashes_or_empty(o: Option<Vec<ChangeHash>>) -> Seq<ChangeHash> {
    match o {
        Some(v) => v@,
        None => Seq::empty(),
    }
}

/// Whether two synchronization states count as equal: both are given and
/// hold the same.
pub open spec fn sync_states_equal(
    sync_state1: Option<&AMsyncState>,
    sync_state2: Option<&AMsyncState>,
) -> bool {
    match (sync_state1, sync_state2) {
        (Some(a), Some(b)) => a.spec_body()@ == b.spec_body()@,
        _ => false,
    }
}

/// Compares two synchronization states for equality: `true` where both are
/// given and hold the same, `false` otherwise.
pub fn AMsyncStateEqual(sync_state1: Option<&AMsyncState>, sync_state2: Option<&AMsyncState>) -> (r:
    bool)
    ensures
        r == sync_states_equal(sync_state1, sync_state2),
{
    match (sync_state1, sync_state2) {
        (Some(sync_state1), Some(sync_state2)) => sync_state1.body() == sync_state2.body(),
        (None, Some(_)) | (Some(_), None) | (None, None) => false,
    }
}

/// A new synchronization state with defaults.
pub fn AMsyncStateInit() -> (r: AMsyncState)
    ensures
        r.spec_body()@ == State::new_spec(),
{
    AMsyncState::new(State::new())
}

/// The heads that are shared by both peers; none where no state is given.
pub fn AMsyncStateSharedHeads<'a>(sync_state: Option<&'a AMsyncState>) -> (r: AMchangeHashes<'a>)
    ensures
        r@ == match sync_state {
            Some(s) => s.spec_body().shared_heads@,
            None => Seq::empty(),
        },
{
    if let Some(sync_state) = sync_state {
        AMchangeHashes::new(sync_state.body().shared_heads.as_slice())
    } else {
        AMchangeHashes::default()
    }
}

/// The heads that were last sent by this peer; none where no state is given.
pub fn AMsyncStateLastSentHeads<'a>(sync_state: Option<&'a AMsyncState>) -> (r: AMchangeHashes<
    'a,
>)
    ensures
        r@ == match sync_state {
            Some(s) => s.spec_body().last_sent_heads@,
            None => Seq::empty(),
        },
{
    if let Some(sync_state) = sync_state {
        AMchangeHashes::new(sync_state.body().last_sent_heads.as_slice())
    } else {
        AMchangeHashes::default()
    }
}

/// A summary of the changes that the other peer already has. `has_value`
/// tells whether the state holds one; where it does not, or no state is given,
/// the summary is empty.
pub fn AMsyncStateTheirHaves<'a>(sync_state: Option<&'a AMsyncState>, has_value: &mut bool) -> (r:
    AMsyncHaves<'a>)
    ensures
        *final(has_value) == (sync_state matches Some(s) && s.spec_body().their_have is Some),
        r@ == match sync_state {
            Some(s) => match s.spec_body().their_have {
                Some(h) => h@,
                None => Seq::empty(),
            },
            None => Seq::empty(),
        },
{
    if let Some(sync_state) = sync_state {
        if let Some(haves) = &sync_state.body().their_have {
            *has_value = true;
            return AMsyncHaves::new(haves.as_slice());
        }
    }
    *has_value = false;
    AMsyncHaves::default()
}

/// The heads that were sent by the other peer. `has_value` tells whether the
/// state holds them; where it does not, or no state is given, the sequence is
/// empty.
pub fn AMsyncStateTheirHeads<'a>(sync_state: Option<&'a AMsyncState>, has_value: &mut bool) -> (r:
    AMchangeHashes<'a>)
    ensures
        *final(has_value) == (sync_state matches Some(s) && s.spec_body().their_heads is Some),
        r@ == match sync_state {
            Some(s) => hashes_or_empty(s.spec_body().their_heads),
            None => Seq::empty(),
        },
{
    if let Some(sync_state) = sync_state {
        if let Some(change_hashes) = &sync_state.body().their_heads {
            *has_value = true;
            return AMchangeHashes::new(change_hashes.as_slice());
        }
    }
    *has_value = false;
    AMchangeHashes::default()
}

/// The needs that were sent by the other peer. `has_value` tells whether the
/// state holds them; where it does not, or no state is given, the sequence is
/// empty.
pub fn AMsyncStateTheirNeeds<'a>(sync_state: Option<&'a AMsyncState>, has_value: &mut bool) -> (r:
    AMchangeHashes<'a>)
    ensures
        *final(has_value) == (sync_state matches Some(s) && s.spec_body().their_need is Some),
        r@ == match sync_state {
            Some(s) => hashes_or_empty(s.spec_body().their_need),
            None => Seq::empty(),
        },
{
    if let Some(sync_state) = sync_state {
        if let Some(change_hashes) = &sync_state.body().their_need {
            *has_value = true;
            return AMchangeHashes::new(change_hashes.as_slice());
        }
    }
    *has_value = false;
    AMchangeHashes::default()
}

/// The equality of synchronization states is an equivalence on the states
/// that are given, and never holds where one of them is missing.
pub proof fn lemma_sync_states_equal(a: &AMsyncState, b: &AMsyncState, c: &AMsyncState)
    ensures
        sync_states_equal(Some(a), Some(a)),
        sync_states_equal(Some(a), Some(b)) == sync_states_equal(Some(b), Some(a)),
        sync_states_equal(Some(a), Some(b)) && sync_states_equal(Some(b), Some(c))
            ==> sync_states_equal(Some(a), Some(c)),
        !sync_states_equal(None, Some(a)),
        !sync_states_equal(Some(a), None),
        !sync_states_equal(None, None),
{
}

/// Two given synchronization states are equal exactly when each of their
/// fields holds the same: the shared heads, the heads last sent, the heads and
/// needs heard from the other peer (both absent or both the same list), the
/// summaries heard from it (both absent, or lists of the same length whose
/// summaries have the same heads and the same filter), and the hashes sent.
pub proof fn lemma_sync_states_equal_fields(a: &AMsyncState, b: &AMsyncState)
    ensures
        sync_states_equal(Some(a), Some(b)) <==> {
            let x = a.spec_body();
            let y = b.spec_body();
            &&& x.shared_heads@ == y.shared_heads@
            &&& x.last_sent_heads@ == y.last_sent_heads@
            &&& match (x.their_heads, y.their_heads) {
                (Some(p), Some(q)) => p@ == q@,
                (None, None) => true,
                _ => false,
            }
            &&& match (x.their_need, y.their_need) {
                (Some(p), Some(q)) => p@ == q@,
                (None, None) => true,
                _ => false,
            }
            &&& match (x.their_have, y.their_have) {
                (Some(p), Some(q)) => p@.len() == q@.len() && forall|i: int|
                    0 <= i < p@.len() ==> (#[trigger] p@[i]).last_sync@ == q@[i].last_sync@
                        && p@[i].bloom.num_entries == q@[i].bloom.num_entries
                        && p@[i].bloom.num_bits_per_entry == q@[i].bloom.num_bits_per_entry
                        && p@[i].bloom.num_probes == q@[i].bloom.num_probes && p@[i].bloom.bits@
                        == q@[i].bloom.bits@,
                (None, None) => true,
                _ => false,
            }
            &&& x.sent_hashes@ == y.sent_hashes@
        },
{
    let x = a.spec_body();
    let y = b.spec_body();
    match (x.their_have, y.their_have) {
        (Some(p), Some(q)) => {
            if p@.len() == q@.len() && forall|i: int|
                0 <= i < p@.len() ==> (#[trigger] p@[i]).last_sync@ == q@[i].last_sync@
                    && p@[i].bloom.num_entries == q@[i].bloom.num_entries
                    && p@[i].bloom.num_bits_per_entry == q@[i].bloom.num_bits_per_entry
                    && p@[i].bloom.num_probes == q@[i].bloom.num_probes && p@[i].bloom.bits@
                    == q@[i].bloom.bits@ {
                assert(haves_view(p@) =~= haves_view(q@));
            }
            if haves_view(p@) == haves_view(q@) {
                assert forall|i: int| 0 <= i < p@.len() implies (#[trigger] p@[i]).last_sync@
                    == q@[i].last_sync@ && p@[i].bloom.num_entries == q@[i].bloom.num_entries
                    && p@[i].bloom.num_bits_per_entry == q@[i].bloom.num_bits_per_entry
                    && p@[i].bloom.num_probes == q@[i].bloom.num_probes && p@[i].bloom.bits@
                    == q@[i].bloom.bits@ by {
                    assert(haves_view(p@).len() == p@.len());
                    assert(haves_view(q@).len() == q@.len());
                    assert(haves_view(p@)[i] == p@[i]@);
                    assert(haves_view(q@)[i] == q@[i]@);
                    assert(haves_view(p@)[i] == haves_view(q@)[i]);
                }
            }
        },
        _ => {},
    }
}

} // verus!
