use bringup::pmm::{Bitmap, ADDRESS_SPACE, BITMAP_BITS, BITMAP_SLOTS};

#[test]
fn bitmap_works() {
    let mut b = Bitmap::new();
    b.set(1);
    assert_eq!(b.get(1), true);
    b.set(1);
    assert_eq!(b.get(1), true);
    b.unset(1);
    assert_eq!(b.get(1), false);

    b.set(2);
    b.unset(3);
    b.set(4);
    assert_eq!(b.get(2), true);
    assert_eq!(b.get(3), false);
    assert_eq!(b.get(4), true);

    let mut iter = b.iter();
    for i in 0..9 {
        let item = iter.next().unwrap();
        if i == 2 || i == 4 {
            assert_eq!(item, true);
        } else {
            assert_eq!(item, false);
        }
    }

    let mut count = 0;

    let mut iter = b.iter();
    while let Some(_) = iter.next() {
        count += 1;
    }

    assert_eq!(count, BITMAP_SLOTS);
}

#[test]
fn bitmap_sizes() {
    assert_eq!(ADDRESS_SPACE, 0xffff_ffff);
    assert_eq!(BITMAP_SLOTS, 0xffff_ffff / 8);
    assert_eq!(BITMAP_BITS, 8 * BITMAP_SLOTS);
}

#[test]
fn new_bitmap_is_clear() {
    let b = Bitmap::new();
    for i in [0, 1, 7, 8, 9, 4095, 4096, BITMAP_SLOTS - 1, BITMAP_SLOTS, BITMAP_BITS - 1] {
        assert_eq!(b.get(i), false, "bit {}", i);
    }
}

#[test]
fn set_then_get_is_true() {
    let mut b = Bitmap::new();
    for i in [0, 1, 7, 8, 15, 16, 1000, BITMAP_SLOTS - 1, BITMAP_SLOTS, BITMAP_BITS - 1] {
        b.set(i);
        assert_eq!(b.get(i), true, "bit {}", i);
    }
}

#[test]
fn unset_then_get_is_false() {
    let mut b = Bitmap::new();
    for i in [0, 1, 7, 8, 15, 16, 1000, BITMAP_SLOTS - 1, BITMAP_SLOTS, BITMAP_BITS - 1] {
        b.set(i);
        b.unset(i);
        assert_eq!(b.get(i), false, "bit {}", i);
        b.unset(i);
        assert_eq!(b.get(i), false, "bit {}", i);
    }
}

#[test]
fn get_reports_a_set_bit_and_only_that() {
    // a bit reads as set exactly when it was set: neighbours stay clear
    let mut b = Bitmap::new();
    b.set(9);
    for i in 0..64 {
        assert_eq!(b.get(i), i == 9, "bit {}", i);
    }
    b.set(10);
    b.set(8);
    b.unset(9);
    for i in 0..64 {
        assert_eq!(b.get(i), i == 8 || i == 10, "bit {}", i);
    }
}

#[test]
fn set_and_unset_leave_the_other_bits() {
    let mut b = Bitmap::new();
    for i in 16..24 {
        b.set(i);
    }
    b.unset(19);
    let expected = [true, true, true, false, true, true, true, true];
    for i in 0..8 {
        assert_eq!(b.get(16 + i), expected[i]);
    }
    assert_eq!(b.get(15), false);
    assert_eq!(b.get(24), false);
}

#[test]
fn iterator_follows_the_history() {
    let mut b = Bitmap::new();
    b.set(0);
    b.set(3);
    b.set(5);
    b.unset(3);
    b.set(11);
    let mut seen = Vec::new();
    let mut iter = b.iter();
    for _ in 0..12 {
        seen.push(iter.next().unwrap());
    }
    assert_eq!(
        seen,
        vec![true, false, false, false, false, true, false, false, false, false, false, true]
    );
    // a new iterator starts again from slot 0
    let mut again = b.iter();
    assert_eq!(again.next(), Some(true));
    assert_eq!(again.next(), Some(false));
}

#[test]
fn iterator_yields_one_item_for_each_slot() {
    let mut b = Bitmap::new();
    b.set(BITMAP_SLOTS - 1);
    b.set(BITMAP_SLOTS);
    let mut count = 0;
    let mut last = None;
    let mut iter = b.iter();
    loop {
        match iter.next() {
            Some(item) => {
                count += 1;
                last = Some(item);
            }
            None => break,
        }
    }
    assert_eq!(count, BITMAP_SLOTS);
    assert_eq!(last, Some(true));
    assert_eq!(iter.next(), None);
}
