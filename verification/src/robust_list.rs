//! The robust list: the lock words of one thread, linked most recent first, in
//! the form that the kernel walks when the thread terminates.
//!
//! The list is an arena. An entry is a slot of the arena, named by its index,
//! and its link is the index of the next entry. The byte layout that the kernel
//! sees is a contract on top of the indices: entry `i` lies `i` times the stride
//! of the arena into it, and its lock word `futex_offset` bytes from the entry,
//! in the wrapping arithmetic of addresses. A slot is never used twice, so a
//! handle names one entry for good.

use vstd::prelude::*;
use crate::lock::LockWord;

verus! {

/// The distance in bytes from one entry of the arena to the next, unless the
/// list is made with another: a link of eight bytes, the lock word behind it,
/// and padding to the next multiple of eight.
pub const ENTRY_STRIDE: u64 = 16;

/// The walk of a list did not end within the arena: a link points outside it,
/// or the links form a cycle.
#[derive(Clone, Copy, Debug, PartialEq, Eq, Structural)]
pub struct CorruptListError {}

/// The name of an entry of a robust list.
#[derive(Clone, Copy, Debug, PartialEq, Eq, Structural)]
pub struct EntryHandle {
    /// The entry's slot in the arena.
    pub index: usize,
}

/// One entry: the link to the next entry and the lock word that belongs to it.
pub struct RobustList {
    next: Option<usize>,
    word: LockWord,
}

/// The head of a thread's robust list, and the arena of its entries.
pub struct RobustListHead {
    entries: Vec<RobustList>,
    first: Option<usize>,
    futex_offset: i64,
    entry_stride: u64,
    list_op_pending: Option<usize>,
}

/// The entries that a walk meets if it starts at `cur` and follows `links` for
/// at most `fuel` entries, or `None` if it leaves the arena or does not end.
pub open spec fn walk(links: Seq<Option<usize>>, cur: Option<usize>, fuel: nat) -> Option<
    Seq<usize>,
>
    decreases fuel,
{
    match cur {
        None => Some(Seq::empty()),
        Some(i) => if fuel == 0 || i >= links.len() {
            None
        } else {
            match walk(links, links[i as int], (fuel - 1) as nat) {
                Some(rest) => Some(seq![i] + rest),
                None => None,
            }
        },
    }
}

/// The entry that is reached from `cur` after `n` links, if the walk stays in
/// the arena that far.
pub open spec fn nth_entry(links: Seq<Option<usize>>, cur: Option<usize>, n: nat) -> Option<usize>
    decreases n,
{
    match cur {
        None => None,
        Some(i) => if i >= links.len() {
            None
        } else if n == 0 {
            Some(i)
        } else {
            nth_entry(links, links[i as int], (n - 1) as nat)
        },
    }
}

/// The address of the lock word of entry `index`, relative to the start of the
/// arena: the entry lies `index * stride` bytes in, and the word `futex_offset`
/// bytes from the entry, modulo 2^64.
pub open spec fn futex_address_of(index: usize, stride: u64, futex_offset: i64) -> u64 {
    ((index * stride + futex_offset) % 0x1_0000_0000_0000_0000) as u64
}

/// Computes the address of the lock word of entry `index`.
pub fn futex_address(index: usize, stride: u64, futex_offset: i64) -> (address: u64)
    ensures
        address == futex_address_of(index, stride, futex_offset),
{
    assert(0 <= index * stride <= 0xffff_ffff_ffff_ffff * 0xffff_ffff_ffff_ffff) by (nonlinear_arith)
        requires
            0 <= index <= 0xffff_ffff_ffff_ffff,
            0 <= stride <= 0xffff_ffff_ffff_ffff,
    ;
    let product: u128 = (index as u128) * (stride as u128);
    let low: u128 = product % 0x1_0000_0000_0000_0000;
    let wide: i128 = (low as i128) + (futex_offset as i128);
    let shifted: u128 = (wide + 0x1_0000_0000_0000_0000) as u128;
    let reduced: u128 = shifted % 0x1_0000_0000_0000_0000;
    assert(reduced == (product + futex_offset) % 0x1_0000_0000_0000_0000) by {
        let m = 0x1_0000_0000_0000_0000int;
        let q = product as int / m;
        assert(product as int == q * m + low as int);
        let whole = product as int + futex_offset as int;
        assert(whole == m * (q - 1) + (wide as int + m)) by (nonlinear_arith)
            requires
                whole == product as int + futex_offset as int,
                product as int == q * m + low as int,
                wide as int == low as int + futex_offset as int,
        ;
        vstd::arithmetic::div_mod::lemma_mod_multiples_vanish(q - 1, wide as int + m, m);
    }
    reduced as u64
}

/// The bytes that the link of an entry takes, at the start of its slot.
pub const LINK_SIZE: u64 = 8;

/// The bytes that a lock word takes.
pub const WORD_SIZE: u64 = 4;

/// Whether a layout keeps every lock word in the slot of its entry: the word
/// lies behind the link, at a multiple of its size, and ends within the
/// stride.
pub open spec fn layout_sound(stride: u64, futex_offset: i64) -> bool {
    &&& futex_offset >= LINK_SIZE
    &&& (futex_offset as int) % (WORD_SIZE as int) == 0
    &&& futex_offset + WORD_SIZE <= stride
}

/// Tells whether a layout keeps every lock word in the slot of its entry.
pub fn is_layout_sound(stride: u64, futex_offset: i64) -> (sound: bool)
    ensures
        sound == layout_sound(stride, futex_offset),
{
    if futex_offset < 8 {
        false
    } else {
        let offset: u64 = futex_offset as u64;
        offset % 4 == 0 && offset + 4 <= stride
    }
}

/// In a sound layout the lock words lie inside their slots and apart from one
/// another: for entries whose slots fit in the address space, the address of
/// the lock word is the entry's place plus the offset, with no wrapping; the
/// word lies behind the link of its entry and ends within the slot; it touches
/// the link of no entry; and the words of two entries share no byte.
pub proof fn lemma_sound_layout_keeps_words_apart(
    stride: u64,
    futex_offset: i64,
    i: usize,
    j: usize,
)
    requires
        layout_sound(stride, futex_offset),
        (i + 1) * stride <= 0x1_0000_0000_0000_0000,
        (j + 1) * stride <= 0x1_0000_0000_0000_0000,
    ensures
        futex_address_of(i, stride, futex_offset) == i * stride + futex_offset,
        i * stride + LINK_SIZE <= futex_address_of(i, stride, futex_offset),
        futex_address_of(i, stride, futex_offset) + WORD_SIZE <= (i + 1) * stride,
        futex_address_of(i, stride, futex_offset) + WORD_SIZE <= j * stride || j * stride
            + LINK_SIZE <= futex_address_of(i, stride, futex_offset),
        i != j ==> futex_address_of(i, stride, futex_offset) + WORD_SIZE <= futex_address_of(
            j,
            stride,
            futex_offset,
        ) || futex_address_of(j, stride, futex_offset) + WORD_SIZE <= futex_address_of(
            i,
            stride,
            futex_offset,
        ),
{
    let at_i = i * stride;
    let at_j = j * stride;
    assert((i + 1) * stride == at_i + stride) by (nonlinear_arith)
        requires
            at_i == i * stride,
    ;
    assert((j + 1) * stride == at_j + stride) by (nonlinear_arith)
        requires
            at_j == j * stride,
    ;
    assert(0 <= at_i && 0 <= at_j) by (nonlinear_arith)
        requires
            at_i == i * stride,
            at_j == j * stride,
    ;
    if i < j {
        assert(at_i + stride <= at_j) by (nonlinear_arith)
            requires
                at_i == i * stride,
                at_j == j * stride,
                i + 1 <= j,
        ;
    }
    if j < i {
        assert(at_j + stride <= at_i) by (nonlinear_arith)
            requires
                at_i == i * stride,
                at_j == j * stride,
                j + 1 <= i,
        ;
    }
}

/// Whether `chain` lists the entries from `cur` on: each entry lies in the
/// arena and links to the one after it, and the last links to none.
pub open spec fn is_chain(links: Seq<Option<usize>>, cur: Option<usize>, chain: Seq<usize>) -> bool {
    &&& cur is None <==> chain.len() == 0
    &&& chain.len() > 0 ==> cur == Some(chain[0])
    &&& forall|k: int| 0 <= k < chain.len() ==> #[trigger] chain[k] < links.len()
    &&& forall|k: int|
        0 <= k < chain.len() - 1 ==> #[trigger] links[chain[k] as int] == Some(chain[k + 1])
    &&& chain.len() > 0 ==> links[chain[chain.len() - 1] as int] is None
}

/// What a walk returns is the chain from where it started, and is no longer
/// than the fuel.
pub proof fn lemma_walk_is_chain(links: Seq<Option<usize>>, cur: Option<usize>, fuel: nat)
    requires
        walk(links, cur, fuel) is Some,
    ensures
        is_chain(links, cur, walk(links, cur, fuel).unwrap()),
        walk(links, cur, fuel).unwrap().len() <= fuel,
    decreases fuel,
{
    match cur {
        None => {},
        Some(i) => {
            let rest = walk(links, links[i as int], (fuel - 1) as nat).unwrap();
            lemma_walk_is_chain(links, links[i as int], (fuel - 1) as nat);
            let chain = seq![i] + rest;
            assert forall|k: int| 0 <= k < chain.len() implies #[trigger] chain[k]
                < links.len() by {
                if k > 0 {
                    assert(chain[k] == rest[k - 1]);
                }
            }
            assert forall|k: int| 0 <= k < chain.len() - 1 implies #[trigger] links[chain[k] as int]
                == Some(chain[k + 1]) by {
                assert(chain[k + 1] == rest[k]);
                if k > 0 {
                    assert(chain[k] == rest[k - 1]);
                }
            }
            if rest.len() > 0 {
                assert(chain[chain.len() - 1] == rest[rest.len() - 1]);
            }
        },
    }
}

/// A walk with enough fuel returns the chain from where it starts.
pub proof fn lemma_chain_is_walked(
    links: Seq<Option<usize>>,
    cur: Option<usize>,
    chain: Seq<usize>,
    fuel: nat,
)
    requires
        is_chain(links, cur, chain),
        chain.len() <= fuel,
    ensures
        walk(links, cur, fuel) == Some(chain),
    decreases fuel,
{
    match cur {
        None => {
            assert(chain =~= Seq::empty());
        },
        Some(i) => {
            let rest = chain.skip(1);
            assert(chain[0] == i);
            assert forall|k: int| 0 <= k < rest.len() - 1 implies #[trigger] links[rest[k] as int]
                == Some(rest[k + 1]) by {
                assert(rest[k] == chain[k + 1]);
                assert(rest[k + 1] == chain[k + 2]);
            }
            assert forall|k: int| 0 <= k < rest.len() implies #[trigger] rest[k] < links.len() by {
                assert(rest[k] == chain[k + 1]);
            }
            if rest.len() > 0 {
                assert(rest[0] == chain[1]);
                assert(rest[rest.len() - 1] == chain[chain.len() - 1]);
            }
            assert(is_chain(links, links[i as int], rest));
            lemma_chain_is_walked(links, links[i as int], rest, (fuel - 1) as nat);
            assert(seq![i] + rest =~= chain);
        },
    }
}

/// Two entries of a chain that are equal carry on equal to the chain's end.
proof fn lemma_chain_shift(
    links: Seq<Option<usize>>,
    cur: Option<usize>,
    chain: Seq<usize>,
    i: int,
    j: int,
    d: nat,
)
    requires
        is_chain(links, cur, chain),
        0 <= i < j,
        j + d < chain.len(),
        chain[i] == chain[j],
    ensures
        chain[i + d] == chain[j + d],
    decreases d,
{
    if d > 0 {
        lemma_chain_shift(links, cur, chain, i, j, (d - 1) as nat);
        let a = i + d - 1;
        let b = j + d - 1;
        assert(links[chain[a] as int] == Some(chain[a + 1]));
        assert(links[chain[b] as int] == Some(chain[b + 1]));
    }
}

/// No entry occurs twice in a chain.
pub proof fn lemma_chain_no_duplicates(
    links: Seq<Option<usize>>,
    cur: Option<usize>,
    chain: Seq<usize>,
)
    requires
        is_chain(links, cur, chain),
    ensures
        chain.no_duplicates(),
{
    assert forall|i: int, j: int| 0 <= i < chain.len() && 0 <= j < chain.len() && i != j implies
        chain[i] != chain[j] by {
        let lo = if i < j { i } else { j };
        let hi = if i < j { j } else { i };
        if chain[lo] == chain[hi] {
            let d = (chain.len() - 1 - hi) as nat;
            lemma_chain_shift(links, cur, chain, lo, hi, d);
            let a = lo + d;
            assert(links[chain[a] as int] == Some(chain[a + 1]));
            assert(links[chain[hi + d] as int] is None);
        }
    }
}

/// The `n`-th entry from the start of a chain is its `n`-th element, and past
/// the end there is none.
pub proof fn lemma_nth_entry_of_chain(
    links: Seq<Option<usize>>,
    cur: Option<usize>,
    chain: Seq<usize>,
    n: nat,
)
    requires
        is_chain(links, cur, chain),
    ensures
        nth_entry(links, cur, n) == if n < chain.len() {
            Some(chain[n as int])
        } else {
            None
        },
    decreases n,
{
    match cur {
        None => {},
        Some(i) => {
            if n > 0 {
                let rest = chain.skip(1);
                assert forall|k: int| 0 <= k < rest.len() - 1 implies #[trigger] links[rest[k] as int]
                    == Some(rest[k + 1]) by {
                    assert(rest[k] == chain[k + 1]);
                    assert(rest[k + 1] == chain[k + 2]);
                }
                assert forall|k: int| 0 <= k < rest.len() implies #[trigger] rest[k]
                    < links.len() by {
                    assert(rest[k] == chain[k + 1]);
                }
                if rest.len() > 0 {
                    assert(rest[0] == chain[1]);
                    assert(rest[rest.len() - 1] == chain[chain.len() - 1]);
                }
                assert(is_chain(links, links[i as int], rest));
                lemma_nth_entry_of_chain(links, links[i as int], rest, (n - 1) as nat);
                if n < chain.len() {
                    assert(rest[n - 1] == chain[n as int]);
                }
            }
        },
    }
}

impl RobustListHead {
    /// The links of the arena: for each slot the index of the next entry.
    pub closed spec fn links(&self) -> Seq<Option<usize>> {
        Seq::new(self.entries@.len(), |i: int| self.entries@[i].next)
    }

    /// The lock words of the arena, slot by slot.
    pub closed spec fn words(&self) -> Seq<LockWord> {
        Seq::new(self.entries@.len(), |i: int| self.entries@[i].word)
    }

    /// The first entry of the list.
    pub closed spec fn first(&self) -> Option<usize> {
        self.first
    }

    /// The offset in bytes from an entry to its lock word.
    pub closed spec fn offset(&self) -> i64 {
        self.futex_offset
    }

    /// The distance in bytes from one entry of the arena to the next.
    pub closed spec fn stride(&self) -> u64 {
        self.entry_stride
    }

    /// The entry that is being added or removed.
    pub closed spec fn pending(&self) -> Option<usize> {
        self.list_op_pending
    }

    /// The entries of the list from the most recent to the oldest, or `None`
    /// if the list is corrupt.
    pub open spec fn chain(&self) -> Option<Seq<usize>> {
        walk(self.links(), self.first(), self.links().len())
    }

    /// Whether the list is sound and at rest: its walk ends within the arena
    /// and no operation is pending.
    pub open spec fn wf(&self) -> bool {
        &&& self.chain() is Some
        &&& self.pending() is None
        &&& self.words().len() == self.links().len()
    }

    /// Every slot of the arena has a link and a lock word: there are as many
    /// of the one as of the other, in every list.
    pub proof fn lemma_words_match_links(&self)
        ensures
            self.words().len() == self.links().len(),
    {
    }

    /// An empty list whose lock words lie `futex_offset` bytes from their
    /// entries, in an arena of the usual stride.
    pub fn new(futex_offset: i64) -> (head: RobustListHead)
        ensures
            head.links() == Seq::<Option<usize>>::empty(),
            head.words() == Seq::<LockWord>::empty(),
            head.first() is None,
            head.offset() == futex_offset,
            head.stride() == ENTRY_STRIDE,
            head.pending() is None,
            head.chain() == Some(Seq::<usize>::empty()),
            head.wf(),
    {
        RobustListHead::with_stride(futex_offset, ENTRY_STRIDE)
    }

    /// An empty list in an arena whose entries lie `entry_stride` bytes apart
    /// and whose lock words lie `futex_offset` bytes from their entries.
    pub fn with_stride(futex_offset: i64, entry_stride: u64) -> (head: RobustListHead)
        ensures
            head.links() == Seq::<Option<usize>>::empty(),
            head.words() == Seq::<LockWord>::empty(),
            head.first() is None,
            head.offset() == futex_offset,
            head.stride() == entry_stride,
            head.pending() is None,
            head.chain() == Some(Seq::<usize>::empty()),
            head.wf(),
    {
        let head = RobustListHead {
            entries: Vec::new(),
            first: None,
            futex_offset,
            entry_stride,
            list_op_pending: None,
        };
        assert(head.links() =~= Seq::<Option<usize>>::empty());
        assert(head.words() =~= Seq::<LockWord>::empty());
        head
    }

    /// The offset in bytes from an entry to its lock word.
    pub fn futex_offset(&self) -> (offset: i64)
        ensures
            offset == self.offset(),
    {
        self.futex_offset
    }

    /// The distance in bytes from one entry of the arena to the next.
    pub fn entry_stride(&self) -> (stride: u64)
        ensures
            stride == self.stride(),
    {
        self.entry_stride
    }

    /// Whether the layout of the list keeps every lock word in the slot of
    /// its entry.
    pub fn has_sound_layout(&self) -> (sound: bool)
        ensures
            sound == layout_sound(self.stride(), self.offset()),
    {
        is_layout_sound(self.entry_stride, self.futex_offset)
    }

    /// The entry that is being added or removed, if an operation stands
    /// between its two ends.
    pub fn list_op_pending(&self) -> (pending: Option<EntryHandle>)
        ensures
            pending is Some <==> self.pending() is Some,
            pending is Some ==> pending.unwrap().index == self.pending().unwrap(),
    {
        match self.list_op_pending {
            Some(index) => Some(EntryHandle { index }),
            None => None,
        }
    }

    /// The number of slots of the arena, used or vacated.
    pub fn slots(&self) -> (count: usize)
        ensures
            count == self.links().len(),
    {
        self.entries.len()
    }
}

impl RobustListHead {
    /// Whether everything but the pending slot is as in `other`.
    pub open spec fn same_list(&self, other: &RobustListHead) -> bool {
        &&& self.links() == other.links()
        &&& self.words() == other.words()
        &&& self.first() == other.first()
        &&& self.offset() == other.offset()
        &&& self.stride() == other.stride()
    }

    /// Marks entry `index` as the one that an operation is about to add or
    /// remove, so that a walk that comes between sees it.
    fn begin_op(&mut self, index: usize)
        ensures
            final(self).same_list(old(self)),
            final(self).pending() == Some(index),
    {
        self.list_op_pending = Some(index);
        assert(self.links() =~= old(self).links());
        assert(self.words() =~= old(self).words());
    }

    /// Ends the operation that was begun.
    fn end_op(&mut self)
        ensures
            final(self).same_list(old(self)),
            final(self).pending() is None,
    {
        self.list_op_pending = None;
        assert(self.links() =~= old(self).links());
        assert(self.words() =~= old(self).words());
    }

    /// Makes the pending entry the first of the list.
    fn link_first(&mut self, index: usize)
        requires
            old(self).pending() == Some(index),
            index < old(self).links().len(),
            old(self).links()[index as int] == old(self).first(),
        ensures
            final(self).links() == old(self).links(),
            final(self).words() == old(self).words(),
            final(self).first() == Some(index),
            final(self).offset() == old(self).offset(),
            final(self).stride() == old(self).stride(),
            final(self).pending() == old(self).pending(),
    {
        self.first = Some(index);
        assert(self.links() =~= old(self).links());
        assert(self.words() =~= old(self).words());
    }

    /// Takes the pending entry out of the links: what pointed to it, the head
    /// or the entry `before`, points to what it pointed to.
    fn unlink(&mut self, before: Option<usize>, index: usize)
        requires
            old(self).pending() == Some(index),
            index < old(self).links().len(),
            before matches Some(p) ==> p < old(self).links().len() && p != index,
        ensures
            final(self).links() == match before {
                Some(p) => old(self).links().update(
                    p as int,
                    old(self).links()[index as int],
                ).update(index as int, None),
                None => old(self).links().update(index as int, None),
            },
            final(self).first() == match before {
                Some(p) => old(self).first(),
                None => old(self).links()[index as int],
            },
            final(self).words() == old(self).words(),
            final(self).offset() == old(self).offset(),
            final(self).stride() == old(self).stride(),
            final(self).pending() == old(self).pending(),
    {
        let after = self.entries[index].next;
        match before {
            Some(p) => {
                self.entries[p].next = after;
            },
            None => {
                self.first = after;
            },
        }
        self.entries[index].next = None;
        assert(self.links() =~= match before {
            Some(p) => old(self).links().update(p as int, old(self).links()[index as int]).update(
                index as int,
                None,
            ),
            None => old(self).links().update(index as int, None),
        });
        assert(self.words() =~= old(self).words());
    }

    /// Adds an entry for the lock word `futex` at the head of the list and
    /// returns its handle. The entry takes the next slot of the arena. While
    /// the entry is being linked it stands in the pending slot.
    pub fn push(&mut self, futex: LockWord) -> (handle: EntryHandle)
        ensures
            handle.index == old(self).links().len(),
            final(self).links() == old(self).links().push(old(self).first()),
            final(self).words() == old(self).words().push(futex),
            final(self).words().len() == final(self).links().len(),
            final(self).words()[handle.index as int] == futex,
            final(self).first() == Some(handle.index),
            final(self).offset() == old(self).offset(),
            final(self).stride() == old(self).stride(),
            final(self).pending() is None,
            old(self).chain() matches Some(chain) ==> final(self).chain() == Some(
                seq![handle.index] + chain,
            ),
            old(self).wf() ==> final(self).wf(),
    {
        let index = self.entries.len();
        self.entries.push(RobustList { next: self.first, word: futex });
        assert(self.links() =~= old(self).links().push(old(self).first()));
        assert(self.words() =~= old(self).words().push(futex));
        self.begin_op(index);
        self.link_first(index);
        self.end_op();
        proof {
            let before = old(self).links();
            let after = self.links();
            if old(self).chain() is Some {
                let chain = old(self).chain().unwrap();
                lemma_walk_is_chain(before, old(self).first(), before.len());
                let longer = seq![index] + chain;
                assert forall|k: int| 0 <= k < longer.len() implies #[trigger] longer[k]
                    < after.len() by {
                    if k > 0 {
                        assert(longer[k] == chain[k - 1]);
                    }
                }
                assert forall|k: int| 0 <= k < longer.len() - 1 implies #[trigger] after[longer[k] as int]
                    == Some(longer[k + 1]) by {
                    assert(longer[k + 1] == chain[k]);
                    if k > 0 {
                        assert(longer[k] == chain[k - 1]);
                        assert(after[chain[k - 1] as int] == before[chain[k - 1] as int]);
                    }
                }
                if chain.len() > 0 {
                    assert(longer[longer.len() - 1] == chain[chain.len() - 1]);
                    assert(after[chain[chain.len() - 1] as int] == before[chain[chain.len()
                        - 1] as int]);
                }
                assert(is_chain(after, Some(index), longer));
                lemma_chain_is_walked(after, Some(index), longer, after.len());
            }
        }
        EntryHandle { index }
    }

    /// The lock word of the entry that `handle` names, if the arena has it.
    pub fn word(&self, handle: EntryHandle) -> (word: Option<&LockWord>)
        ensures
            word is Some <==> handle.index < self.words().len(),
            word is Some ==> *word.unwrap() == self.words()[handle.index as int],
    {
        if handle.index < self.entries.len() {
            Some(&self.entries[handle.index].word)
        } else {
            None
        }
    }

    /// The entry that is reached from the head after `index` links, or `None`
    /// if the list ends or leaves the arena before.
    pub fn entry_at(&self, index: usize) -> (entry: Option<EntryHandle>)
        ensures
            entry is Some <==> nth_entry(self.links(), self.first(), index as nat) is Some,
            entry is Some ==> entry.unwrap().index == nth_entry(
                self.links(),
                self.first(),
                index as nat,
            ).unwrap(),
            entry is Some ==> entry.unwrap().index < self.words().len(),
    {
        let mut cur = self.first;
        let mut done: usize = 0;
        while done < index
            invariant
                done <= index,
                nth_entry(self.links(), self.first(), index as nat) == nth_entry(
                    self.links(),
                    cur,
                    (index - done) as nat,
                ),
            decreases index - done,
        {
            match cur {
                None => {
                    return None;
                },
                Some(i) => {
                    if i >= self.entries.len() {
                        return None;
                    }
                    cur = self.entries[i].next;
                    done = done + 1;
                },
            }
        }
        match cur {
            None => None,
            Some(i) => {
                if i >= self.entries.len() {
                    None
                } else {
                    Some(EntryHandle { index: i })
                }
            },
        }
    }

    /// The lock word of the entry that is reached from the head after `index`
    /// links, or `None` if the list ends or leaves the arena before.
    pub fn get_futex(&self, index: usize) -> (word: Option<&LockWord>)
        ensures
            word is Some <==> nth_entry(self.links(), self.first(), index as nat) is Some,
            word is Some ==> *word.unwrap() == self.words()[nth_entry(
                self.links(),
                self.first(),
                index as nat,
            ).unwrap() as int],
    {
        match self.entry_at(index) {
            Some(handle) => self.word(handle),
            None => None,
        }
    }

    /// Whether the walk of the list ends within the arena.
    pub fn is_sound(&self) -> (sound: bool)
        ensures
            sound == self.chain() is Some,
    {
        let n = self.entries.len();
        let mut cur = self.first;
        let mut done: usize = 0;
        while done < n
            invariant
                n == self.links().len(),
                done <= n,
                self.chain() is Some <==> walk(self.links(), cur, (n - done) as nat) is Some,
            decreases n - done,
        {
            match cur {
                None => {
                    return true;
                },
                Some(i) => {
                    if i >= n {
                        return false;
                    }
                    cur = self.entries[i].next;
                    done = done + 1;
                },
            }
        }
        cur.is_none()
    }

    /// The entries of the list from the head to the tail, each with the address
    /// of its lock word. The walk is bounded by the size of the arena: a list
    /// that leaves the arena or runs in a cycle gives `CorruptListError`.
    pub fn iterate(&self) -> (result: Result<Vec<(EntryHandle, u64)>, CorruptListError>)
        ensures
            result is Ok <==> self.chain() is Some,
            result matches Ok(entries) ==> {
                &&& entries@.len() == self.chain().unwrap().len()
                &&& forall|k: int|
                    0 <= k < entries@.len() ==> {
                        &&& (#[trigger] entries@[k]).0.index == self.chain().unwrap()[k]
                        &&& entries@[k].1 == futex_address_of(
                            self.chain().unwrap()[k],
                            self.stride(),
                            self.offset(),
                        )
                    }
            },
    {
        let n = self.entries.len();
        let mut out: Vec<(EntryHandle, u64)> = Vec::new();
        let mut cur = self.first;
        let mut done: usize = 0;
        let ghost mut seen: Seq<usize> = Seq::empty();
        while done < n
            invariant
                n == self.links().len(),
                done <= n,
                seen.len() == done,
                out@.len() == done,
                forall|k: int|
                    0 <= k < done ==> {
                        &&& (#[trigger] out@[k]).0.index == seen[k]
                        &&& out@[k].1 == futex_address_of(seen[k], self.stride(), self.offset())
                    },
                self.chain() == match walk(self.links(), cur, (n - done) as nat) {
                    Some(rest) => Some(seen + rest),
                    None => None,
                },
            decreases n - done,
        {
            match cur {
                None => {
                    assert(seen + Seq::<usize>::empty() =~= seen);
                    return Ok(out);
                },
                Some(i) => {
                    if i >= n {
                        return Err(CorruptListError {  });
                    }
                    let address = futex_address(i, self.entry_stride, self.futex_offset);
                    out.push((EntryHandle { index: i }, address));
                    proof {
                        let next = self.links()[i as int];
                        match walk(self.links(), next, (n - done - 1) as nat) {
                            Some(rest) => {
                                assert(seen + (seq![i] + rest) =~= seen.push(i) + rest);
                            },
                            None => {},
                        }
                        seen = seen.push(i);
                    }
                    cur = self.entries[i].next;
                    done = done + 1;
                },
            }
        }
        match cur {
            None => {
                assert(seen + Seq::<usize>::empty() =~= seen);
                Ok(out)
            },
            Some(_) => Err(CorruptListError {  }),
        }
    }

    /// Takes the entry that `handle` names out of the list. The list is walked
    /// from the head to find what links to the entry. The result says whether
    /// the entry was in the list; if not, nothing changes. While the entry is
    /// being unlinked it stands in the pending slot. A corrupt list is left as
    /// it is and gives `CorruptListError`.
    pub fn remove(&mut self, handle: EntryHandle) -> (result: Result<bool, CorruptListError>)
        ensures
            result is Err <==> old(self).chain() is None,
            result matches Ok(found) ==> found == old(self).chain().unwrap().contains(
                handle.index,
            ),
            final(self).words().len() == final(self).links().len(),
            final(self).links().len() == old(self).links().len(),
            !(result matches Ok(true)) ==> final(self).same_list(old(self)),
            !(result matches Ok(true)) ==> final(self).pending() == old(self).pending(),
            result matches Ok(true) ==> {
                let chain = old(self).chain().unwrap();
                let at = chain.index_of(handle.index);
                &&& final(self).chain() == Some(chain.remove(at))
                &&& final(self).links() == if at == 0 {
                    old(self).links().update(handle.index as int, None)
                } else {
                    old(self).links().update(
                        chain[at - 1] as int,
                        old(self).links()[handle.index as int],
                    ).update(handle.index as int, None)
                }
                &&& final(self).words() == old(self).words()
                &&& final(self).offset() == old(self).offset()
                &&& final(self).stride() == old(self).stride()
                &&& final(self).pending() is None
            },
            old(self).wf() ==> final(self).wf(),
    {
        if !self.is_sound() {
            return Err(CorruptListError {  });
        }
        let target = handle.index;
        let slots = self.entries.len();
        let ghost links = self.links();
        let ghost chain = self.chain().unwrap();
        proof {
            lemma_walk_is_chain(links, self.first(), links.len());
            lemma_chain_no_duplicates(links, self.first(), chain);
        }
        let mut cur = self.first;
        let mut before: Option<usize> = None;
        let mut done: usize = 0;
        loop
            invariant
                *self == *old(self),
                old(self).chain() == Some(chain),
                target == handle.index,
                links == self.links(),
                links.len() == slots,
                is_chain(links, self.first(), chain),
                chain.no_duplicates(),
                chain.len() <= links.len(),
                done <= chain.len(),
                cur == if done < chain.len() {
                    Some(chain[done as int])
                } else {
                    None
                },
                before == if done > 0 {
                    Some(chain[done - 1])
                } else {
                    None
                },
                forall|j: int| 0 <= j < done ==> chain[j] != target,
            ensures
                cur == Some(target),
                done < chain.len(),
            decreases chain.len() - done,
        {
            match cur {
                None => {
                    assert(done == chain.len());
                    assert(!chain.contains(target)) by {
                        if chain.contains(target) {
                            let j = choose|j: int| 0 <= j < chain.len() && chain[j] == target;
                            assert(chain[j] != target);
                        }
                    }
                    return Ok(false);
                },
                Some(i) => {
                    if i == target {
                        break;
                    }
                    proof {
                        assert(done < chain.len());
                        assert(links.len() == self.entries@.len());
                        assert(i == chain[done as int]);
                        assert(links[chain[done as int] as int] == self.entries@[i as int].next);
                        if done + 1 < chain.len() {
                            assert(links[chain[done as int] as int] == Some(chain[done + 1]));
                        }
                    }
                    before = Some(i);
                    cur = self.entries[i].next;
                    done = done + 1;
                },
            }
        }
        assert(cur == Some(target));
        let ghost at = done as int;
        proof {
            assert(chain[at] == target);
            assert(chain.contains(target));
            chain.index_of_first_ensures(target);
            assert(chain.index_of(target) == at);
        }
        self.begin_op(target);
        self.unlink(before, target);
        self.end_op();
        proof {
            let after = self.links();
            let shorter = chain.remove(at);
            assert forall|k: int| 0 <= k < shorter.len() implies #[trigger] shorter[k]
                < after.len() by {
                if k < at {
                    assert(shorter[k] == chain[k]);
                } else {
                    assert(shorter[k] == chain[k + 1]);
                }
            }
            assert forall|k: int| 0 <= k < shorter.len() - 1 implies #[trigger] after[shorter[k] as int]
                == Some(shorter[k + 1]) by {
                if k < at - 1 {
                    assert(shorter[k] == chain[k]);
                    assert(shorter[k + 1] == chain[k + 1]);
                    assert(links[chain[k] as int] == Some(chain[k + 1]));
                } else if k == at - 1 {
                    assert(shorter[k] == chain[at - 1]);
                    assert(shorter[k + 1] == chain[at + 1]);
                    assert(links[chain[at] as int] == Some(chain[at + 1]));
                } else {
                    assert(shorter[k] == chain[k + 1]);
                    assert(shorter[k + 1] == chain[k + 2]);
                    assert(links[chain[k + 1] as int] == Some(chain[k + 2]));
                }
            }
            if shorter.len() > 0 {
                if at == chain.len() - 1 {
                    assert(shorter[shorter.len() - 1] == chain[at - 1]);
                } else {
                    assert(shorter[shorter.len() - 1] == chain[chain.len() - 1]);
                }
                if at == 0 {
                    assert(shorter[0] == chain[1]);
                    assert(links[chain[0] as int] == Some(chain[1]));
                } else {
                    assert(shorter[0] == chain[0]);
                }
            }
            assert(is_chain(after, self.first(), shorter));
            lemma_chain_is_walked(after, self.first(), shorter, after.len());
        }
        Ok(true)
    }

    /// The list that a head at `first` and the given links make, with a free
    /// lock word for each slot: the form in which a list that was read back is
    /// handed to the walk, sound or not.
    pub fn from_links(futex_offset: i64, first: Option<usize>, links: Vec<Option<usize>>) -> (head:
        RobustListHead)
        ensures
            head.links() == links@,
            head.words().len() == head.links().len(),
            head.first() == first,
            head.offset() == futex_offset,
            head.stride() == ENTRY_STRIDE,
            head.pending() is None,
    {
        let mut head = RobustListHead {
            entries: Vec::new(),
            first,
            futex_offset,
            entry_stride: ENTRY_STRIDE,
            list_op_pending: None,
        };
        let mut done: usize = 0;
        while done < links.len()
            invariant
                done <= links.len(),
                head.entries@.len() == done,
                forall|k: int| 0 <= k < done ==> head.entries@[k].next == links@[k],
                head.first == first,
                head.futex_offset == futex_offset,
                head.entry_stride == ENTRY_STRIDE,
                head.list_op_pending is None,
            decreases links.len() - done,
        {
            head.entries.push(RobustList { next: links[done], word: LockWord::new() });
            done = done + 1;
        }
        assert(head.links() =~= links@);
        head
    }
}

/// In a sound list the entry reached after `n` links is the `n`-th of the
/// chain, and past the chain's end there is none.
pub proof fn lemma_get_futex_follows_chain(head: &RobustListHead, n: nat)
    requires
        head.chain() is Some,
    ensures
        nth_entry(head.links(), head.first(), n) == if n < head.chain().unwrap().len() {
            Some(head.chain().unwrap()[n as int])
        } else {
            None
        },
{
    lemma_walk_is_chain(head.links(), head.first(), head.links().len());
    lemma_nth_entry_of_chain(head.links(), head.first(), head.chain().unwrap(), n);
}

} // verus!
