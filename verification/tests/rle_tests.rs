use lox_vm::rle::RunLengthEncoder;

#[test]
fn add_should_not_increase_valueslen_when_same_value_added_twice() {
    let mut sut = RunLengthEncoder::<u32>::new();

    sut.add(1);
    sut.add(1);

    assert_eq!(sut.values.len(), 1);
    assert_eq!(sut.values.last().unwrap().0, 1);
    assert_eq!(sut.values.last().unwrap().1, 2);
}

#[test]
fn add_should_increase_valueslen_when_different_values_added() {
    let mut sut = RunLengthEncoder::<u32>::new();

    sut.add(1);
    sut.add(2);

    assert_eq!(sut.values.len(), 2);
    assert_eq!(sut.values[0].1, 1);
    assert_eq!(sut.values[1].1, 1);
}

#[test]
fn find_should_return_some_when_position_in_range() {
    let mut sut = RunLengthEncoder::<u32>::new();
    sut.add(100);
    sut.add(100);
    sut.add(100);
    sut.add(200);

    let end_of_first_range = *sut.find(2).unwrap();
    let start_of_second_range = *sut.find(3).unwrap();

    assert_eq!(end_of_first_range, 100);
    assert_eq!(start_of_second_range, 200);
}

#[test]
fn find_should_return_none_when_position_out_of_range() {
    let mut sut = RunLengthEncoder::<u32>::new();
    sut.add(100);
    sut.add(100);
    sut.add(200);

    let result = sut.find(3);

    assert!(result.is_none());
}

#[test]
fn add_should_keep_one_pair_per_run_when_values_alternate() {
    let mut sut = RunLengthEncoder::<u32>::new();
    for _ in 0..3 {
        sut.add(7);
    }
    for _ in 0..2 {
        sut.add(8);
    }
    sut.add(7);

    assert_eq!(sut.values.len(), 3);
    assert_eq!(sut.values[0], (7, 3));
    assert_eq!(sut.values[1], (8, 2));
    assert_eq!(sut.values[2], (7, 1));
}

#[test]
fn find_should_return_value_at_every_position() {
    let mut sut = RunLengthEncoder::<u32>::new();
    let recorded: [u32; 6] = [5, 5, 9, 9, 9, 4];
    for v in recorded {
        sut.add(v);
    }

    for (position, expected) in recorded.iter().enumerate() {
        assert_eq!(sut.find(position), Some(expected));
    }
    assert!(sut.find(recorded.len()).is_none());
}

#[test]
fn find_should_return_none_on_empty_encoder() {
    let sut = RunLengthEncoder::<u32>::new();

    assert!(sut.find(0).is_none());
}
