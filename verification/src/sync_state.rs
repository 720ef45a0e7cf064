//! The state of synchronisation with a peer, and the ways of reading it that
//! the C interface offers.

use vstd::prelude::*;

verus! {

broadcast use vstd::array::group_array_axioms;

/// The hash that identifies a change.
#[derive(Debug, Clone, Copy, PartialEq, Eq, Hash)]
pub struct ChangeHash(pub [u8; 32]);

/// Whether two change hashes are the same.
pub fn hash_eq(a: &ChangeHash, b: &ChangeHash) -> (r: bool)
    ensures
        r == (*a == *b),
{
    let mut i: usize = 0;
    while i < 32
        invariant
            i <= 32,
            forall|j: int| 0 <= j < i ==> a.0[j] == b.0[j],
        decreases 32 - i,
    {
        if a.0[i] != b.0[i] {
            return false;
        }
        i = i + 1;
    }
    assert(a.0 =~= b.0);
    true
}

/// Whether two lists of change hashes are the same.
pub fn hashes_eq(a: &Vec<ChangeHash>, b: &Vec<ChangeHash>) -> (r: bool)
    ensures
        r == (a@ == b@),
{
    if a.len() != b.len() {
        return false;
    }
    let mut i: usize = 0;
    while i < a.len()
        invariant
            i <= a@.len(),
            a@.len() == b@.len(),
            forall|j: int| 0 <= j < i ==> a@[j] == b@[j],
        decreases a@.len() - i,
    {
        if !hash_eq(&a[i], &b[i]) {
            return false;
        }
        i = i + 1;
    }
    assert(a@ =~= b@);
    true
}

/// The contents of an optional list of change hashes.
pub open spec fn opt_hashes_view(o: Option<Vec<ChangeHash>>) -> Option<Seq<ChangeHash>> {
    match o {
        Some(v) => Some(v@),
        None => None,
    }
}

/// Whether two optional lists of change hashes are the same.
pub fn opt_hashes_eq(a: &Option<Vec<ChangeHash>>, b: &Option<Vec<ChangeHash>>) -> (r: bool)
    ensures
        r == (opt_hashes_view(*a) == opt_hashes_view(*b)),
{
    match (a, b) {
        (Some(x), Some(y)) => hashes_eq(x, y),
        (None, None) => true,
        _ => false,
    }
}

/// A filter that summarises a set of changes.
#[derive(Debug, Clone, PartialEq, Eq, Hash)]
pub struct BloomFilter {
    pub num_entries: u32,
    pub num_bits_per_entry: u32,
    pub num_probes: u32,
    pub bits: Vec<u8>,
}

impl View for BloomFilter {
    type V = (u32, u32, u32, Seq<u8>);

    open spec fn view(&self) -> (u32, u32, u32, Seq<u8>) {
        (self.num_entries, self.num_bits_per_entry, self.num_probes, self.bits@)
    }
}

/// Whether two lists of bytes are the same.
fn bytes_eq(a: &Vec<u8>, b: &Vec<u8>) -> (r: bool)
    ensures
        r == (a@ == b@),
{
    if a.len() != b.len() {
        return false;
    }
    let mut i: usize = 0;
    while i < a.len()
        invariant
            i <= a@.len(),
            a@.len() == b@.len(),
            forall|j: int| 0 <= j < i ==> a@[j] == b@[j],
        decreases a@.len() - i,
    {
        if a[i] != b[i] {
            return false;
        }
        i = i + 1;
    }
    assert(a@ =~= b@);
    true
}

/// Whether two filters are the same.
pub fn bloom_eq(a: &BloomFilter, b: &BloomFilter) -> (r: bool)
    ensures
        r == (a@ == b@),
{
    a.num_entries == b.num_entries && a.num_bits_per_entry == b.num_bits_per_entry
        && a.num_probes == b.num_probes && bytes_eq(&a.bits, &b.bits)
}

/// A summary of the changes that a peer has: the heads at its last sync, and
/// a filter over the changes it has since.
#[derive(Debug, Clone, PartialEq, Eq, Hash)]
pub struct Have {
    pub last_sync: Vec<ChangeHash>,
    pub bloom: BloomFilter,
}

impl View for Have {
    type V = (Seq<ChangeHash>, (u32, u32, u32, Seq<u8>));

    open spec fn view(&self) -> (Seq<ChangeHash>, (u32, u32, u32, Seq<u8>)) {
        (self.last_sync@, self.bloom@)
    }
}

/// Whether two summaries are the same.
pub fn have_eq(a: &Have, b: &Have) -> (r: bool)
    ensures
        r == (a@ == b@),
{
    hashes_eq(&a.last_sync, &b.last_sync) && bloom_eq(&a.bloom, &b.bloom)
}

/// The contents of a list of summaries.
pub open spec fn haves_view(v: Seq<Have>) -> Seq<(Seq<ChangeHash>, (u32, u32, u32, Seq<u8>))> {
    v.map_values(|h: Have| h@)
}

/// Whether two lists of summaries are the same.
pub fn haves_eq(a: &Vec<Have>, b: &Vec<Have>) -> (r: bool)
    ensures
        r == (haves_view(a@) == haves_view(b@)),
{
    if a.len() != b.len() {
        return false;
    }
    let mut i: usize = 0;
    while i < a.len()
        invariant
            i <= a@.len(),
            a@.len() == b@.len(),
            forall|j: int| 0 <= j < i ==> a@[j]@ == b@[j]@,
        decreases a@.len() - i,
    {
        if !have_eq(&a[i], &b[i]) {
            assert(haves_view(a@)[i as int] != haves_view(b@)[i as int]);
            return false;
        }
        i = i + 1;
    }
    assert(haves_view(a@) =~= haves_view(b@));
    true
}

/// The contents of an optional list of summaries.
pub open spec fn opt_haves_view(o: Option<Vec<Have>>) -> Option<
    Seq<(Seq<ChangeHash>, (u32, u32, u32, Seq<u8>))>,
> {
    match o {
        Some(v) => Some(haves_view(v@)),
        None => None,
    }
}

/// Whether two optional lists of summaries are the same.
pub fn opt_haves_eq(a: &Option<Vec<Have>>, b: &Option<Vec<Have>>) -> (r: bool)
    ensures
        r == (opt_haves_view(*a) == opt_haves_view(*b)),
{
    match (a, b) {
        (Some(x), Some(y)) => haves_eq(x, y),
        (None, None) => true,
        _ => false,
    }
}

/// What the state of synchronisation with a peer holds.
pub struct StateView {
    pub shared_heads: Seq<ChangeHash>,
    pub last_sent_heads: Seq<ChangeHash>,
    pub their_heads: Option<Seq<ChangeHash>>,
    pub their_need: Option<Seq<ChangeHash>>,
    pub their_have: Option<Seq<(Seq<ChangeHash>, (u32, u32, u32, Seq<u8>))>>,
    pub sent_hashes: Seq<ChangeHash>,
}

/// The state of synchronisation with a peer.
#[derive(Debug, Clone)]
pub struct State {
    /// The heads that both peers have.
    pub shared_heads: Vec<ChangeHash>,
    /// The heads that this peer sent last.
    pub last_sent_heads: Vec<ChangeHash>,
    /// The heads that the other peer sent, if it sent any.
    pub their_heads: Option<Vec<ChangeHash>>,
    /// The changes that the other peer asked for, if it asked.
    pub their_need: Option<Vec<ChangeHash>>,
    /// The summaries of what the other peer has, if it sent them.
    pub their_have: Option<Vec<Have>>,
    /// The hashes of the changes sent to the other peer, in ascending order.
    pub sent_hashes: Vec<ChangeHash>,
}

impl View for State {
    type V = StateView;

    open spec fn view(&self) -> StateView {
        StateView {
            shared_heads: self.shared_heads@,
            last_sent_heads: self.last_sent_heads@,
            their_heads: opt_hashes_view(self.their_heads),
            their_need: opt_hashes_view(self.their_need),
            their_have: opt_haves_view(self.their_have),
            sent_hashes: self.sent_hashes@,
        }
    }
}

impl State {
    /// What a state holds before anything was exchanged: no heads, and nothing
    /// heard of the other peer.
    pub open spec fn new_spec() -> StateView {
        StateView {
            shared_heads: Seq::empty(),
            last_sent_heads: Seq::empty(),
            their_heads: None,
            their_need: None,
            their_have: None,
            sent_hashes: Seq::empty(),
        }
    }

    /// The state before anything was exchanged.
    pub fn new() -> (r: State)
        ensures
            r@ == State::new_spec(),
    {
        State {
            shared_heads: Vec::new(),
            last_sent_heads: Vec::new(),
            their_heads: None,
            their_need: None,
            their_have: None,
            sent_hashes: Vec::new(),
        }
    }

    /// Whether this state holds the same as `other`.
    pub fn same_as(&self, other: &State) -> (r: bool)
        ensures
            r == (self@ == other@),
    {
        hashes_eq(&self.shared_heads, &other.shared_heads) && hashes_eq(
            &self.last_sent_heads,
            &other.last_sent_heads,
        ) && opt_hashes_eq(&self.their_heads, &other.their_heads) && opt_hashes_eq(
            &self.their_need,
            &other.their_need,
        ) && opt_haves_eq(&self.their_have, &other.their_have) && hashes_eq(
            &self.sent_hashes,
            &other.sent_hashes,
        )
    }
}

impl PartialEq for State {
    fn eq(&self, other: &State) -> (r: bool) {
        self.same_as(other)
    }
}

impl vstd::std_specs::cmp::PartialEqSpecImpl for State {
    open spec fn obeys_eq_spec() -> bool {
        true
    }

    open spec fn eq_spec(&self, other: &State) -> bool {
        self@ == other@
    }
}

} // verus!
