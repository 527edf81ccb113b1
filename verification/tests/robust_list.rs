use robust_futex::lock::LockWord;
use robust_futex::robust_list::{
    futex_address, is_layout_sound, CorruptListError, EntryHandle, RobustListHead, ENTRY_STRIDE,
    LINK_SIZE, WORD_SIZE,
};

fn indices(head: &RobustListHead) -> Vec<usize> {
    head.iterate().unwrap().iter().map(|entry| entry.0.index).collect()
}

#[test]
fn a_new_list_is_empty() {
    let head: RobustListHead = RobustListHead::new(8);
    assert_eq!(head.futex_offset(), 8);
    assert_eq!(head.list_op_pending(), None);
    assert_eq!(head.slots(), 0);
    assert!(head.is_sound());
    assert_eq!(head.iterate(), Ok(vec![]));
    assert!(head.get_futex(0).is_none());
}

#[test]
fn the_address_of_a_lock_word() {
    assert_eq!(ENTRY_STRIDE, 16);
    assert_eq!(futex_address(0, 16, 8), 8);
    assert_eq!(futex_address(1, 16, 8), 24);
    assert_eq!(futex_address(3, 16, 8), 56);
    assert_eq!(futex_address(2, 16, 0), 32);
    assert_eq!(futex_address(1, 16, -4), 12);
    assert_eq!(futex_address(5, 24, 16), 136);
    assert_eq!(futex_address(7, 0, 8), 8);
}

#[test]
fn the_address_wraps_like_a_pointer() {
    assert_eq!(futex_address(0, 16, -8), u64::MAX - 7);
    assert_eq!(futex_address(0, 16, i64::MIN), 1u64 << 63);
    assert_eq!(futex_address(1, 16, i64::MAX), (1u64 << 63) + 15);
    assert_eq!(futex_address(usize::MAX, 16, 16), 0);
    assert_eq!(futex_address(usize::MAX, 16, 8), u64::MAX - 7);
    assert_eq!(futex_address(usize::MAX, u64::MAX, 0), 1);
    assert_eq!(futex_address(usize::MAX, u64::MAX, -1), 0);
    assert_eq!(futex_address(usize::MAX, u64::MAX, -2), u64::MAX);
}

#[test]
fn a_list_with_another_stride() {
    let mut head: RobustListHead = RobustListHead::with_stride(16, 24);
    assert_eq!(head.entry_stride(), 24);
    assert_eq!(head.futex_offset(), 16);
    head.push(LockWord::new());
    head.push(LockWord::new());
    assert_eq!(
        head.iterate(),
        Ok(vec![(EntryHandle { index: 1 }, 40), (EntryHandle { index: 0 }, 16)])
    );
    assert_eq!(RobustListHead::new(8).entry_stride(), ENTRY_STRIDE);
}

#[test]
fn push_links_most_recent_first() {
    let mut head: RobustListHead = RobustListHead::new(8);
    let a: EntryHandle = head.push(LockWord::with_value(1));
    let b: EntryHandle = head.push(LockWord::with_value(2));
    let c: EntryHandle = head.push(LockWord::with_value(3));
    assert_eq!((a.index, b.index, c.index), (0, 1, 2));
    assert_eq!(indices(&head), vec![2, 1, 0]);
    assert_eq!(head.list_op_pending(), None);
    assert_eq!(head.slots(), 3);
    assert_eq!(head.get_futex(0).unwrap().load(), 3);
    assert_eq!(head.get_futex(1).unwrap().load(), 2);
    assert_eq!(head.get_futex(2).unwrap().load(), 1);
    assert!(head.get_futex(3).is_none());
    assert!(head.get_futex(usize::MAX).is_none());
}

#[test]
fn iterate_gives_each_entry_with_its_address() {
    let mut head: RobustListHead = RobustListHead::new(8);
    head.push(LockWord::new());
    head.push(LockWord::new());
    assert_eq!(
        head.iterate(),
        Ok(vec![(EntryHandle { index: 1 }, 24), (EntryHandle { index: 0 }, 8)])
    );
    assert_eq!(head.iterate(), head.iterate());
}

#[test]
fn a_handle_gives_the_lock_word() {
    let mut head: RobustListHead = RobustListHead::new(8);
    let a: EntryHandle = head.push(LockWord::with_value(5));
    let b: EntryHandle = head.push(LockWord::with_value(6));
    assert_eq!(head.word(a).unwrap().load(), 5);
    assert_eq!(head.word(b).unwrap().load(), 6);
    assert!(head.word(EntryHandle { index: 2 }).is_none());
}

#[test]
fn remove_the_head() {
    let mut head: RobustListHead = RobustListHead::new(8);
    head.push(LockWord::new());
    head.push(LockWord::new());
    let c: EntryHandle = head.push(LockWord::new());
    assert_eq!(head.remove(c), Ok(true));
    assert_eq!(indices(&head), vec![1, 0]);
    assert_eq!(head.list_op_pending(), None);
}

#[test]
fn remove_from_the_middle() {
    let mut head: RobustListHead = RobustListHead::new(8);
    head.push(LockWord::new());
    let b: EntryHandle = head.push(LockWord::new());
    head.push(LockWord::new());
    assert_eq!(head.remove(b), Ok(true));
    assert_eq!(indices(&head), vec![2, 0]);
}

#[test]
fn remove_the_tail() {
    let mut head: RobustListHead = RobustListHead::new(8);
    let a: EntryHandle = head.push(LockWord::new());
    head.push(LockWord::new());
    head.push(LockWord::new());
    assert_eq!(head.remove(a), Ok(true));
    assert_eq!(indices(&head), vec![2, 1]);
}

#[test]
fn remove_the_only_entry() {
    let mut head: RobustListHead = RobustListHead::new(8);
    let a: EntryHandle = head.push(LockWord::new());
    assert_eq!(head.remove(a), Ok(true));
    assert_eq!(head.iterate(), Ok(vec![]));
    assert!(head.get_futex(0).is_none());
    assert_eq!(head.slots(), 1);
}

#[test]
fn remove_what_is_not_in_the_list() {
    let mut head: RobustListHead = RobustListHead::new(8);
    let a: EntryHandle = head.push(LockWord::new());
    head.push(LockWord::new());
    assert_eq!(head.remove(a), Ok(true));
    assert_eq!(head.remove(a), Ok(false));
    assert_eq!(head.remove(EntryHandle { index: 17 }), Ok(false));
    assert_eq!(indices(&head), vec![1]);
}

#[test]
fn a_slot_is_not_used_twice() {
    let mut head: RobustListHead = RobustListHead::new(8);
    let a: EntryHandle = head.push(LockWord::new());
    assert_eq!(head.remove(a), Ok(true));
    let b: EntryHandle = head.push(LockWord::new());
    assert_eq!(b.index, 1);
    assert_eq!(indices(&head), vec![1]);
}

#[test]
fn the_lock_word_of_a_removed_entry_stays_reachable_by_its_handle() {
    let mut head: RobustListHead = RobustListHead::new(8);
    let a: EntryHandle = head.push(LockWord::with_value(9));
    assert_eq!(head.remove(a), Ok(true));
    assert_eq!(head.word(a).unwrap().load(), 9);
}

#[test]
fn a_cycle_is_corrupt() {
    let mut head: RobustListHead =
        RobustListHead::from_links(8, Some(0), vec![Some(1), Some(2), Some(0)]);
    assert!(!head.is_sound());
    assert_eq!(head.iterate(), Err(CorruptListError {}));
    assert_eq!(head.remove(EntryHandle { index: 1 }), Err(CorruptListError {}));
    assert!(!head.is_sound());
    assert!(head.get_futex(7).is_some());
}

#[test]
fn a_self_loop_is_corrupt() {
    let head: RobustListHead = RobustListHead::from_links(8, Some(0), vec![Some(0)]);
    assert_eq!(head.iterate(), Err(CorruptListError {}));
}

#[test]
fn a_link_out_of_the_arena_is_corrupt() {
    let head: RobustListHead = RobustListHead::from_links(8, Some(0), vec![Some(5), None]);
    assert_eq!(head.iterate(), Err(CorruptListError {}));
    assert!(head.get_futex(0).is_some());
    assert!(head.get_futex(1).is_none());
    let outside: RobustListHead = RobustListHead::from_links(8, Some(3), vec![None]);
    assert_eq!(outside.iterate(), Err(CorruptListError {}));
    assert!(outside.get_futex(0).is_none());
}

#[test]
fn a_list_read_back_is_walked() {
    let head: RobustListHead =
        RobustListHead::from_links(-4, Some(2), vec![None, Some(0), Some(1), Some(0)]);
    assert!(head.is_sound());
    assert_eq!(
        head.iterate(),
        Ok(vec![
            (EntryHandle { index: 2 }, 28),
            (EntryHandle { index: 1 }, 12),
            (EntryHandle { index: 0 }, u64::MAX - 3),
        ])
    );
    assert_eq!(head.futex_offset(), -4);
    assert_eq!(head.slots(), 4);
}

#[test]
fn a_list_of_all_the_arena_is_sound() {
    let head: RobustListHead =
        RobustListHead::from_links(0, Some(0), vec![Some(1), Some(2), None]);
    assert_eq!(indices(&head), vec![0, 1, 2]);
}

#[test]
fn push_after_remove_keeps_the_order() {
    let mut head: RobustListHead = RobustListHead::new(8);
    let a: EntryHandle = head.push(LockWord::new());
    let b: EntryHandle = head.push(LockWord::new());
    assert_eq!(head.remove(a), Ok(true));
    let c: EntryHandle = head.push(LockWord::new());
    assert_eq!(indices(&head), vec![c.index, b.index]);
    assert_eq!(head.remove(b), Ok(true));
    assert_eq!(indices(&head), vec![c.index]);
}

#[test]
fn the_entry_at_a_position() {
    let mut head: RobustListHead = RobustListHead::new(8);
    let a: EntryHandle = head.push(LockWord::with_value(1));
    let b: EntryHandle = head.push(LockWord::with_value(2));
    assert_eq!(head.entry_at(0), Some(b));
    assert_eq!(head.entry_at(1), Some(a));
    assert_eq!(head.entry_at(2), None);
    assert_eq!(head.remove(b), Ok(true));
    assert_eq!(head.entry_at(0), Some(a));
    assert_eq!(head.entry_at(1), None);
    let cycle: RobustListHead = RobustListHead::from_links(8, Some(0), vec![Some(1), Some(0)]);
    assert_eq!(cycle.entry_at(5), Some(EntryHandle { index: 1 }));
    let outside: RobustListHead = RobustListHead::from_links(8, Some(0), vec![Some(9)]);
    assert_eq!(outside.entry_at(0), Some(EntryHandle { index: 0 }));
    assert_eq!(outside.entry_at(1), None);
}

#[test]
fn when_a_layout_is_sound() {
    assert_eq!((LINK_SIZE, WORD_SIZE), (8, 4));
    assert!(is_layout_sound(16, 8));
    assert!(is_layout_sound(16, 12));
    assert!(is_layout_sound(24, 16));
    assert!(is_layout_sound(12, 8));
    assert!(!is_layout_sound(16, 16));
    assert!(!is_layout_sound(16, 13));
    assert!(!is_layout_sound(16, 10));
    assert!(!is_layout_sound(16, 4));
    assert!(!is_layout_sound(16, 0));
    assert!(!is_layout_sound(16, -8));
    assert!(!is_layout_sound(0, 8));
    assert!(!is_layout_sound(11, 8));
    assert!(!is_layout_sound(u64::MAX, i64::MIN));
    assert!(is_layout_sound(u64::MAX, i64::MAX - 3));
    assert!(RobustListHead::new(8).has_sound_layout());
    assert!(!RobustListHead::new(16).has_sound_layout());
    assert!(RobustListHead::with_stride(16, 24).has_sound_layout());
    assert!(!RobustListHead::with_stride(8, 0).has_sound_layout());
}

#[test]
fn in_a_sound_layout_the_words_lie_apart() {
    let mut head: RobustListHead = RobustListHead::new(8);
    for _ in 0..5 {
        head.push(LockWord::new());
    }
    let listed: Vec<(EntryHandle, u64)> = head.iterate().unwrap();
    for (handle, address) in &listed {
        let slot: u64 = (handle.index as u64) * ENTRY_STRIDE;
        assert!(slot + LINK_SIZE <= *address);
        assert!(*address + WORD_SIZE <= slot + ENTRY_STRIDE);
        for (other, elsewhere) in &listed {
            if other.index != handle.index {
                assert!(*address + WORD_SIZE <= *elsewhere || *elsewhere + WORD_SIZE <= *address);
            }
        }
    }
}
