use terminus::decode::{InsnKind, Instruction};
use terminus::icache::{ICache, ICacheBasket, ICacheEntry};

fn insn(ir: u32) -> Instruction {
    Instruction { ir, kind: InsnKind::CLi }
}

#[test]
fn basket_fills_backward_and_hits_move_the_hand() {
    let mut b = ICacheBasket::new();
    for tag in 1..=16u64 {
        b.set_entry(tag, tag as u32, insn(tag as u32));
    }
    // the first insertion went to the tail (15), the last one to entry 0
    assert_eq!(b.ptr, 0);
    assert_eq!(b.entries[15].tag, 1);
    assert_eq!(b.entries[0].tag, 16);
    assert_eq!(b.get_insn(2), Some((2, insn(2))));
    assert_eq!(b.ptr, 14);
    assert_eq!(b.get_insn(1), Some((1, insn(1))));
    assert_eq!(b.ptr, 15);
    assert_eq!(b.get_insn(99), None);
    assert_eq!(b.ptr, 15);
}

#[test]
fn insertion_replaces_first_unaccessed_entry() {
    let mut b = ICacheBasket::new();
    for tag in 1..=16u64 {
        b.set_entry(tag, tag as u32, insn(tag as u32));
    }
    // a miss scans all sixteen entries and clears their accessed bits
    assert_eq!(b.get_insn(99), None);
    assert!(b.entries.iter().all(|e| !e.accessed));
    // so the tail is the first entry not accessed, and it is replaced
    b.set_entry(17, 17, insn(17));
    assert_eq!(b.ptr, 15);
    assert_eq!(b.entries[15].tag, 17);
    assert_eq!(b.entries[14].tag, 2);
    b.invalid_all();
    assert_eq!(b.get_insn(17), None);
}

#[test]
fn cache_indexes_by_half_word_address() {
    let mut c = ICache::new(4);
    c.set_entry(0x1000, 0x4505, insn(0x4505));
    c.set_entry(0x1002, 0x4509, insn(0x4509));
    assert_eq!(c.get_insn(0x1000), Some((0x4505, insn(0x4505))));
    assert_eq!(c.get_insn(0x1002), Some((0x4509, insn(0x4509))));
    assert_eq!(c.get_insn(0x1004), None);
    c.invalid_all();
    assert_eq!(c.get_insn(0x1000), None);
}

#[test]
fn entry_in_the_tail_slot_is_found() {
    let mut b = ICacheBasket::new();
    b.entries[15] = ICacheEntry { accessed: false, tag: 5, insn: Some((5, insn(5))) };
    assert_eq!(b.ptr, 0);
    assert_eq!(b.get_insn(5), Some((5, insn(5))));
    assert_eq!(b.ptr, 15);
    assert!(b.entries[15].accessed);
}

#[test]
fn full_basket_keeps_every_entry_reachable() {
    let mut b = ICacheBasket::new();
    for tag in 1..=16u64 {
        b.set_entry(tag, tag as u32, insn(tag as u32));
    }
    // every entry is accessed: the hand's own entry (tag 16) is replaced, the rest stay reachable
    b.set_entry(17, 17, insn(17));
    for tag in (1..=15u64).chain(17..=17) {
        assert_eq!(b.get_insn(tag), Some((tag as u32, insn(tag as u32))));
    }
    assert_eq!(b.get_insn(16), None);
}
