use seqid::{FiniteSequential, SeqHashMap, UniqueGenerator};

#[test]
fn reservation_is_taken_only_by_the_map_that_made_it() {
    let mut uids: usize = 0;
    let mut a = SeqHashMap::<u8, &str>::new(UniqueGenerator::next(&mut uids)).unwrap();
    let mut b = SeqHashMap::<u8, &str>::new(UniqueGenerator::next(&mut uids)).unwrap();

    assert_eq!(a.insert("x"), Some(0));
    let reservation = a.reserve().unwrap();

    let reservation = match b.redeem(reservation, "y") {
        Ok(_) => panic!("a map took a reservation that another map made"),
        Err(reservation) => reservation,
    };
    assert_eq!(b.len(), 0);
    assert_eq!(b.get(&1), None);

    assert!(matches!(a.redeem(reservation, "y"), Ok(1)));
    assert_eq!(a.get(&1), Some(&"y"));
    assert_eq!(a.get(&0), Some(&"x"));
    assert_eq!(a.len(), 2);
}

#[test]
fn counter_at_its_maximum_is_exhausted_for_good() {
    let mut counter = u8::MAX;
    assert_eq!(FiniteSequential::next(&mut counter), None);
    assert_eq!(FiniteSequential::next(&mut counter), None);
    assert_eq!(counter, u8::MAX);
    assert_eq!(UniqueGenerator::next(&mut counter), None);
    assert_eq!(UniqueGenerator::next(&mut counter), None);
    assert_eq!(counter, u8::MAX);
}
