use solve_arrow_puzzle::enumerate_2d::Enumerate2d;

#[test]
fn from_3x1_to_1x3() {
    let mut iter = Enumerate2d::new("abc".chars().collect(), 1);
    assert_eq!(iter.next().unwrap(), ((0, 0), 'a'));
    assert_eq!(iter.next().unwrap(), ((0, 1), 'b'));
    assert_eq!(iter.next().unwrap(), ((0, 2), 'c'));
    assert_eq!(iter.next(), None);
}

#[test]
fn from_9x1_to_3x3() {
    let mut iter = Enumerate2d::new("wunderbar".chars().collect(), 3);
    assert_eq!(iter.next().unwrap(), ((0, 0), 'w'));
    assert_eq!(iter.next().unwrap(), ((1, 0), 'u'));
    assert_eq!(iter.next().unwrap(), ((2, 0), 'n'));
    assert_eq!(iter.next().unwrap(), ((0, 1), 'd'));
    assert_eq!(iter.next().unwrap(), ((1, 1), 'e'));
    assert_eq!(iter.next().unwrap(), ((2, 1), 'r'));
    assert_eq!(iter.next().unwrap(), ((0, 2), 'b'));
    assert_eq!(iter.next().unwrap(), ((1, 2), 'a'));
    assert_eq!(iter.next().unwrap(), ((2, 2), 'r'));
    assert_eq!(iter.next(), None);
}

#[test]
fn from_5x1_to_incomplete_2x3() {
    let mut iter = Enumerate2d::new("HELLO".chars().collect(), 2);
    assert_eq!(iter.next().unwrap(), ((0, 0), 'H'));
    assert_eq!(iter.next().unwrap(), ((1, 0), 'E'));
    assert_eq!(iter.next().unwrap(), ((0, 1), 'L'));
    assert_eq!(iter.next().unwrap(), ((1, 1), 'L'));
    assert_eq!(iter.next().unwrap(), ((0, 2), 'O'));
    assert_eq!(iter.next(), None);
}
