use seqid::{
    AtomicCounterU16, AtomicCounterU32, AtomicCounterU64, AtomicCounterU8, AtomicCounterUsize,
    FiniteSequential, SeqHashMap, UniqueGenerator,
};

fn can_move_and_share<X: Send + Sync>() {}

#[test]
fn atomic_counter_gives_its_value_and_steps() {
    let mut counter = AtomicCounterU8::new(3);
    assert_eq!(FiniteSequential::next(&mut counter), Some(3));
    assert_eq!(FiniteSequential::next(&mut counter), Some(4));
    assert_eq!(UniqueGenerator::next(&mut counter), Some(5));
    assert_eq!(UniqueGenerator::next(&mut counter), Some(6));
}

#[test]
fn atomic_counter_starts_at_zero_by_default() {
    let mut counter = AtomicCounterU32::default();
    assert_eq!(UniqueGenerator::next(&mut counter), Some(0));
    assert_eq!(UniqueGenerator::next(&mut counter), Some(1));
    let mut counter = AtomicCounterU32::new(0);
    assert_eq!(UniqueGenerator::next(&mut counter), Some(0));
}

#[test]
fn atomic_counter_at_its_maximum_is_exhausted_for_good() {
    let mut counter = AtomicCounterU8::new(u8::MAX);
    assert_eq!(FiniteSequential::next(&mut counter), None);
    assert_eq!(FiniteSequential::next(&mut counter), None);
    assert_eq!(UniqueGenerator::next(&mut counter), None);
    assert_eq!(UniqueGenerator::next(&mut counter), None);
}

#[test]
fn atomic_counter_never_gives_its_maximum() {
    let mut counter = AtomicCounterU8::new(u8::MAX - 1);
    assert_eq!(UniqueGenerator::next(&mut counter), Some(u8::MAX - 1));
    assert_eq!(UniqueGenerator::next(&mut counter), None);
    assert_eq!(UniqueGenerator::next(&mut counter), None);
}

#[test]
fn atomic_u8_counter_gives_each_value_once_and_in_order() {
    let mut counter = AtomicCounterU8::default();
    let mut given = vec![];
    while let Some(id) = UniqueGenerator::next(&mut counter) {
        given.push(id);
    }
    assert_eq!(given.len(), 255);
    for (at, id) in given.iter().enumerate() {
        assert_eq!(*id as usize, at);
    }
    assert_eq!(UniqueGenerator::next(&mut counter), None);
}

#[test]
fn atomic_counter_gives_what_the_plain_counter_gives() {
    let mut atomic = AtomicCounterU8::new(200);
    let mut plain: u8 = 200;
    for _ in 0..60 {
        assert_eq!(UniqueGenerator::next(&mut atomic), UniqueGenerator::next(&mut plain));
    }
    assert_eq!(plain, u8::MAX);
}

#[test]
fn atomic_u16_counter_ends_at_its_maximum() {
    let mut counter = AtomicCounterU16::new(u16::MAX - 1);
    assert_eq!(FiniteSequential::next(&mut counter), Some(u16::MAX - 1));
    assert_eq!(FiniteSequential::next(&mut counter), None);
    assert_eq!(UniqueGenerator::next(&mut counter), None);
    let mut counter = AtomicCounterU16::new(9);
    assert_eq!(UniqueGenerator::next(&mut counter), Some(9));
    assert_eq!(UniqueGenerator::next(&mut counter), Some(10));
}

#[test]
fn atomic_u32_counter_ends_at_its_maximum() {
    let mut counter = AtomicCounterU32::new(u32::MAX - 1);
    assert_eq!(FiniteSequential::next(&mut counter), Some(u32::MAX - 1));
    assert_eq!(FiniteSequential::next(&mut counter), None);
    assert_eq!(UniqueGenerator::next(&mut counter), None);
    let mut counter = AtomicCounterU32::new(9);
    assert_eq!(UniqueGenerator::next(&mut counter), Some(9));
    assert_eq!(UniqueGenerator::next(&mut counter), Some(10));
}

#[test]
fn atomic_u64_counter_ends_at_its_maximum() {
    let mut counter = AtomicCounterU64::new(u64::MAX - 1);
    assert_eq!(FiniteSequential::next(&mut counter), Some(u64::MAX - 1));
    assert_eq!(FiniteSequential::next(&mut counter), None);
    assert_eq!(UniqueGenerator::next(&mut counter), None);
    let mut counter = AtomicCounterU64::new(9);
    assert_eq!(UniqueGenerator::next(&mut counter), Some(9));
    assert_eq!(UniqueGenerator::next(&mut counter), Some(10));
}

#[test]
fn atomic_usize_counter_ends_at_its_maximum() {
    let mut counter = AtomicCounterUsize::new(usize::MAX - 1);
    assert_eq!(FiniteSequential::next(&mut counter), Some(usize::MAX - 1));
    assert_eq!(FiniteSequential::next(&mut counter), None);
    assert_eq!(UniqueGenerator::next(&mut counter), None);
    let mut counter = AtomicCounterUsize::new(9);
    assert_eq!(UniqueGenerator::next(&mut counter), Some(9));
    assert_eq!(UniqueGenerator::next(&mut counter), Some(10));
}

#[test]
fn atomic_counters_can_move_and_be_shared_between_threads() {
    can_move_and_share::<AtomicCounterU8>();
    can_move_and_share::<AtomicCounterU16>();
    can_move_and_share::<AtomicCounterU32>();
    can_move_and_share::<AtomicCounterU64>();
    can_move_and_share::<AtomicCounterUsize>();
    can_move_and_share::<SeqHashMap<AtomicCounterU64, String>>();
}

#[test]
fn map_over_an_atomic_counter_counts_from_zero() {
    let mut map = SeqHashMap::<AtomicCounterU32, char>::new(Some(0)).unwrap();
    assert_eq!(map.insert('a'), Some(0));
    let reservation = map.reserve().unwrap();
    assert_eq!(map.insert('c'), Some(2));
    assert!(matches!(map.redeem(reservation, 'b'), Ok(1)));
    assert_eq!(map.get(&0), Some(&'a'));
    assert_eq!(map.get(&1), Some(&'b'));
    assert_eq!(map.get(&2), Some(&'c'));
    assert_eq!(map.len(), 3);
}

#[test]
fn maps_over_atomic_and_plain_counters_give_the_same_keys() {
    let mut atomic = SeqHashMap::<AtomicCounterU8, usize>::new(Some(0)).unwrap();
    let mut plain = SeqHashMap::<u8, usize>::new(Some(1)).unwrap();
    for round in 0..300 {
        if round % 3 == 0 {
            let of_atomic = atomic.reserve();
            let of_plain = plain.reserve();
            assert_eq!(of_atomic.is_some(), of_plain.is_some());
            if let (Some(of_atomic), Some(of_plain)) = (of_atomic, of_plain) {
                let key_of_atomic = atomic.redeem(of_atomic, round).ok();
                let key_of_plain = plain.redeem(of_plain, round).ok();
                assert!(key_of_atomic.is_some());
                assert_eq!(key_of_atomic, key_of_plain);
            }
        } else {
            assert_eq!(atomic.insert(round), plain.insert(round));
        }
    }
    assert_eq!(atomic.len(), 255);
    assert_eq!(plain.len(), 255);
    assert_eq!(atomic.insert(0), None);
    assert_eq!(plain.insert(0), None);
}
