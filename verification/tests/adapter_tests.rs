use mark_last::adapter::MarkLastIterator;
use mark_last::providers::{CountFrom, VecSource};
use mark_last::source::{collect_all, take_prefix, PullSource};

#[test]
fn marks_last() {
    let in_data = vec![1, 2, 3, 5, 99];
    let out_data: Vec<(bool, i32)> = collect_all(VecSource::from_vec(in_data).mark_last());
    assert_eq!(
        out_data,
        vec![(false, 1), (false, 2), (false, 3), (false, 5), (true, 99)]
    );
}

#[test]
fn empty_collection() {
    let in_data: Vec<i32> = Vec::new();
    let out_data: Vec<(bool, i32)> = collect_all(VecSource::from_vec(in_data).mark_last());
    assert_eq!(out_data, vec![]);
}

#[test]
fn marks_last_length_one() {
    let in_data = vec![3];
    let out_data: Vec<(bool, i32)> = collect_all(VecSource::from_vec(in_data).mark_last());
    assert_eq!(out_data, vec![(true, 3)]);
}

#[test]
fn marks_nothing_infinite() {
    let mut adapted = CountFrom::starting_at(0).mark_last();
    assert!(take_prefix(&mut adapted, 1_000_000)
        .into_iter()
        .all(|(last, _)| !last));
}

#[test]
fn infinite_prefix_has_requested_length() {
    let mut adapted = CountFrom::starting_at(0).mark_last();
    let prefix = take_prefix(&mut adapted, 1_000_000);
    assert_eq!(prefix.len(), 1_000_000);
    assert_eq!(prefix[0], (false, 0));
    assert_eq!(prefix[999_999], (false, 999_999));
}

#[test]
fn exhaustion_is_terminal() {
    let mut adapted = VecSource::from_vec(vec![41]).mark_last();
    assert_eq!(adapted.next(), Some((true, 41)));
    assert_eq!(adapted.next(), None);
    assert_eq!(adapted.next(), None);
    assert_eq!(adapted.next(), None);
}

#[test]
fn empty_stays_exhausted() {
    let mut adapted = VecSource::from_vec(Vec::<u8>::new()).mark_last();
    assert_eq!(adapted.next(), None);
    assert_eq!(adapted.next(), None);
}

#[test]
fn equal_values_keep_order_and_flags() {
    let out_data: Vec<(bool, u8)> = collect_all(VecSource::from_vec(vec![7, 7]).mark_last());
    assert_eq!(out_data, vec![(false, 7), (true, 7)]);
}

#[test]
fn prefix_longer_than_finite_input() {
    let mut adapted = VecSource::from_vec(vec![4, 8]).mark_last();
    let prefix = take_prefix(&mut adapted, 10);
    assert_eq!(prefix, vec![(false, 4), (true, 8)]);
    assert_eq!(adapted.next(), None);
}

#[test]
fn adapter_composes_with_itself() {
    let twice: Vec<(bool, (bool, u8))> =
        collect_all(VecSource::from_vec(vec![5, 6]).mark_last().mark_last());
    assert_eq!(twice, vec![(false, (false, 5)), (true, (true, 6))]);
}
