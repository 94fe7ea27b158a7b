use seqid::{FiniteSequential, UniqueGenerator};

#[test]
fn plain_counter_gives_its_value_and_steps() {
    let mut counter: u32 = 41;
    assert_eq!(FiniteSequential::next(&mut counter), Some(41));
    assert_eq!(counter, 42);
    assert_eq!(UniqueGenerator::next(&mut counter), Some(42));
    assert_eq!(counter, 43);
}

#[test]
fn plain_counter_starts_at_zero_by_default() {
    let mut counter = u16::default();
    assert_eq!(FiniteSequential::next(&mut counter), Some(0));
    assert_eq!(FiniteSequential::next(&mut counter), Some(1));
    assert_eq!(FiniteSequential::next(&mut counter), Some(2));
}

#[test]
fn plain_counter_never_gives_its_maximum() {
    let mut counter: u8 = u8::MAX - 1;
    assert_eq!(UniqueGenerator::next(&mut counter), Some(u8::MAX - 1));
    assert_eq!(counter, u8::MAX);
    assert_eq!(UniqueGenerator::next(&mut counter), None);
    assert_eq!(counter, u8::MAX);
}

#[test]
fn u8_counter_gives_each_value_once_and_in_order() {
    let mut counter: u8 = 0;
    let mut given = vec![];
    while let Some(id) = UniqueGenerator::next(&mut counter) {
        given.push(id);
    }
    assert_eq!(given.len(), 255);
    for (at, id) in given.iter().enumerate() {
        assert_eq!(*id as usize, at);
    }
    for i in 0..given.len() {
        for j in (i + 1)..given.len() {
            assert_ne!(given[i], given[j]);
        }
    }
    assert_eq!(UniqueGenerator::next(&mut counter), None);
}

#[test]
fn u16_counter_ends_at_its_maximum() {
    let mut counter: u16 = u16::MAX - 1;
    assert_eq!(FiniteSequential::next(&mut counter), Some(u16::MAX - 1));
    assert_eq!(FiniteSequential::next(&mut counter), None);
    assert_eq!(FiniteSequential::next(&mut counter), None);
    assert_eq!(counter, u16::MAX);
    let mut counter: u16 = u16::MAX - 1;
    assert_eq!(UniqueGenerator::next(&mut counter), Some(u16::MAX - 1));
    assert_eq!(UniqueGenerator::next(&mut counter), None);
    assert_eq!(counter, u16::MAX);
}

#[test]
fn u32_counter_ends_at_its_maximum() {
    let mut counter: u32 = u32::MAX - 1;
    assert_eq!(FiniteSequential::next(&mut counter), Some(u32::MAX - 1));
    assert_eq!(FiniteSequential::next(&mut counter), None);
    assert_eq!(FiniteSequential::next(&mut counter), None);
    assert_eq!(counter, u32::MAX);
    let mut counter: u32 = u32::MAX - 1;
    assert_eq!(UniqueGenerator::next(&mut counter), Some(u32::MAX - 1));
    assert_eq!(UniqueGenerator::next(&mut counter), None);
    assert_eq!(counter, u32::MAX);
}

#[test]
fn u64_counter_ends_at_its_maximum() {
    let mut counter: u64 = u64::MAX - 1;
    assert_eq!(FiniteSequential::next(&mut counter), Some(u64::MAX - 1));
    assert_eq!(FiniteSequential::next(&mut counter), None);
    assert_eq!(FiniteSequential::next(&mut counter), None);
    assert_eq!(counter, u64::MAX);
    let mut counter: u64 = 7;
    assert_eq!(UniqueGenerator::next(&mut counter), Some(7));
    assert_eq!(UniqueGenerator::next(&mut counter), Some(8));
    assert_eq!(counter, 9);
}

#[test]
fn u128_counter_ends_at_its_maximum() {
    let mut counter: u128 = u128::MAX - 1;
    assert_eq!(FiniteSequential::next(&mut counter), Some(u128::MAX - 1));
    assert_eq!(FiniteSequential::next(&mut counter), None);
    assert_eq!(FiniteSequential::next(&mut counter), None);
    assert_eq!(counter, u128::MAX);
    let mut counter: u128 = 1 << 100;
    assert_eq!(UniqueGenerator::next(&mut counter), Some(1 << 100));
    assert_eq!(counter, (1 << 100) + 1);
}

#[test]
fn usize_counter_ends_at_its_maximum() {
    let mut counter: usize = usize::MAX - 1;
    assert_eq!(FiniteSequential::next(&mut counter), Some(usize::MAX - 1));
    assert_eq!(FiniteSequential::next(&mut counter), None);
    assert_eq!(FiniteSequential::next(&mut counter), None);
    assert_eq!(counter, usize::MAX);
    let mut counter: usize = 0;
    assert_eq!(UniqueGenerator::next(&mut counter), Some(0));
    assert_eq!(UniqueGenerator::next(&mut counter), Some(1));
    assert_eq!(counter, 2);
}
