//! The 32-bit lock word: its bit layout, its decoded view and its four states.

use vstd::prelude::*;

verus! {

/// The value of a lock word that nobody holds and nobody waits on.
pub const FUTEX_INIT: u32 = 0x0000_0000;

/// Bit 31: a thread set it before blocking on the word.
pub const FUTEX_WAITERS: u32 = 0x8000_0000;

/// Bit 30: the owner terminated while it held the lock.
pub const FUTEX_OWNER_DIED: u32 = 0x4000_0000;

/// Bits 0 to 29: the identifier of the holder, 0 when the lock is free.
pub const FUTEX_TID_MASK: u32 = 0x3fff_ffff;

/// The three fields that a lock word encodes.
pub struct WordFields {
    pub owner: nat,
    pub owner_died: bool,
    pub waiters: bool,
}

/// The holder's identifier: the low 30 bits of the word.
pub open spec fn owner_of(word: u32) -> u32 {
    (word % 0x4000_0000) as u32
}

/// Whether bit 30 is set.
pub open spec fn died_of(word: u32) -> bool {
    (word / 0x4000_0000) % 2 == 1
}

/// Whether bit 31 is set.
pub open spec fn waiters_of(word: u32) -> bool {
    word / 0x8000_0000 == 1
}

/// The word decoded into its fields.
pub open spec fn fields_of(word: u32) -> WordFields {
    WordFields { owner: owner_of(word) as nat, owner_died: died_of(word), waiters: waiters_of(word) }
}

/// The word that encodes the given fields.
pub open spec fn encode(fields: WordFields) -> int {
    fields.owner + (if fields.owner_died { 0x4000_0000int } else { 0 })
        + (if fields.waiters { 0x8000_0000int } else { 0 })
}

/// The word with the waiters bit set and everything else kept.
pub open spec fn with_waiters(word: u32) -> u32 {
    if waiters_of(word) { word } else { (word + 0x8000_0000) as u32 }
}

/// The word with the owner-died bit set and everything else kept.
pub open spec fn with_owner_died(word: u32) -> u32 {
    if died_of(word) { word } else { (word + 0x4000_0000) as u32 }
}

/// Decoding and encoding are inverse to each other.
pub proof fn lemma_encode_decode(word: u32)
    ensures
        encode(fields_of(word)) == word,
        owner_of(word) <= FUTEX_TID_MASK,
{
}

/// Every triple of fields with a 30-bit owner is the decoding of exactly the
/// word that encodes it.
pub proof fn lemma_decode_encode(fields: WordFields)
    requires
        fields.owner <= FUTEX_TID_MASK,
    ensures
        0 <= encode(fields) <= u32::MAX,
        fields_of(encode(fields) as u32) == fields,
{
}

/// Setting the waiters bit changes no other field, and setting it twice is
/// setting it once.
pub proof fn lemma_with_waiters(word: u32)
    ensures
        fields_of(with_waiters(word)) == (WordFields { waiters: true, ..fields_of(word) }),
        with_waiters(with_waiters(word)) == with_waiters(word),
{
}

/// Setting the owner-died bit changes no other field.
pub proof fn lemma_with_owner_died(word: u32)
    ensures
        fields_of(with_owner_died(word)) == (WordFields { owner_died: true, ..fields_of(word) }),
{
}

/// The state of a lock word.
#[derive(Clone, Copy, Debug, PartialEq, Eq, Structural)]
pub enum LockState {
    /// No owner.
    Free,
    /// Held, and no thread has announced that it waits.
    Locked,
    /// Held, and the waiters bit is set.
    LockedContended,
    /// The owner-died bit is set.
    OwnerDied,
}

/// The state that a word is in. The owner-died bit decides first, then the
/// owner field, then the waiters bit.
pub open spec fn state_of(word: u32) -> LockState {
    if died_of(word) {
        LockState::OwnerDied
    } else if owner_of(word) == 0 {
        LockState::Free
    } else if waiters_of(word) {
        LockState::LockedContended
    } else {
        LockState::Locked
    }
}

/// The owner field of `word`.
pub fn owner_id(word: u32) -> (owner: u32)
    ensures
        owner == owner_of(word),
{
    assert(word & 0x3fff_ffff == word % 0x4000_0000) by (bit_vector);
    word & FUTEX_TID_MASK
}

/// Whether the waiters bit of `word` is set.
pub fn has_waiters(word: u32) -> (set: bool)
    ensures
        set == waiters_of(word),
{
    assert((word & 0x8000_0000 != 0) == (word / 0x8000_0000 == 1)) by (bit_vector);
    word & FUTEX_WAITERS != 0
}

/// Whether the owner-died bit of `word` is set.
pub fn has_owner_died(word: u32) -> (set: bool)
    ensures
        set == died_of(word),
{
    assert((word & 0x4000_0000 != 0) == ((word / 0x4000_0000) % 2 == 1)) by (bit_vector);
    word & FUTEX_OWNER_DIED != 0
}

/// The state of `word`.
pub fn lock_state(word: u32) -> (state: LockState)
    ensures
        state == state_of(word),
{
    if has_owner_died(word) {
        LockState::OwnerDied
    } else if owner_id(word) == 0 {
        LockState::Free
    } else if has_waiters(word) {
        LockState::LockedContended
    } else {
        LockState::Locked
    }
}

/// `word` with the waiters bit set.
pub fn set_waiters(word: u32) -> (marked: u32)
    ensures
        marked == with_waiters(word),
{
    assert(word | 0x8000_0000 == if word / 0x8000_0000 == 1 {
        word
    } else {
        (word + 0x8000_0000) as u32
    }) by (bit_vector);
    word | FUTEX_WAITERS
}

/// `word` with the owner-died bit set.
pub fn set_owner_died(word: u32) -> (marked: u32)
    ensures
        marked == with_owner_died(word),
{
    assert(word | 0x4000_0000 == if (word / 0x4000_0000) % 2 == 1 {
        word
    } else {
        (word + 0x4000_0000) as u32
    }) by (bit_vector);
    word | FUTEX_OWNER_DIED
}

/// Whether `raw` can stand in the owner field: nonzero and within 30 bits.
pub open spec fn valid_thread_id(raw: int) -> bool {
    0 < raw <= FUTEX_TID_MASK
}

/// The identifier of a thread: a nonzero integer of at most 30 bits.
#[derive(Clone, Copy, Debug, PartialEq, Eq, Structural)]
pub struct ThreadId {
    raw: u32,
}

impl View for ThreadId {
    type V = u32;

    closed spec fn view(&self) -> u32 {
        self.raw
    }
}

impl ThreadId {
    #[verifier::type_invariant]
    spec fn in_range(self) -> bool {
        valid_thread_id(self.raw as int)
    }

    /// The identifier `raw`, if it is nonzero and fits in 30 bits.
    pub fn new(raw: i64) -> (id: Option<ThreadId>)
        ensures
            id is Some <==> valid_thread_id(raw as int),
            id is Some ==> id.unwrap()@ == raw,
    {
        if 0 < raw && raw <= 0x3fff_ffff {
            Some(ThreadId { raw: raw as u32 })
        } else {
            None
        }
    }

    /// The identifier as an integer.
    pub fn get(&self) -> (raw: u32)
        ensures
            raw == self@,
            valid_thread_id(raw as int),
    {
        proof {
            use_type_invariant(self);
        }
        self.raw
    }
}

/// A lock word held by a valid thread, with no other bit set, decodes to that
/// thread and is in state `Locked`.
pub proof fn lemma_word_of_thread(raw: u32)
    requires
        valid_thread_id(raw as int),
    ensures
        owner_of(raw) == raw,
        !died_of(raw),
        !waiters_of(raw),
        state_of(raw) == LockState::Locked,
{
}

} // verus!
