use ckb_linked_list::record::bytes::Bytes;
use ckb_linked_list::tool::error::Error;
use ckb_linked_list::tool::order::{slice_eq, slice_lt};
use ckb_linked_list::tool::types::{ListItem, ListItemsSummary};
use ckb_linked_list::tool::{
    check_linked_list_with_ordered_items, check_linked_list_with_unordered_items,
};

fn key(raw: &[u8]) -> Bytes {
    Bytes::new_from_raw_slice(raw)
}

fn items(pairs: &[(&[u8], &[u8])]) -> Vec<ListItem<Bytes>> {
    pairs
        .iter()
        .map(|(curr, next)| ListItem::new(key(curr), key(next)))
        .collect()
}

fn ends(res: Result<ListItemsSummary<Bytes>, Error>) -> Result<(Vec<u8>, Vec<u8>), Error> {
    res.map(|summary| {
        (
            summary.start.raw_data().as_slice().to_vec(),
            summary.end.raw_data().as_slice().to_vec(),
        )
    })
}

fn ordered(pairs: &[(&[u8], &[u8])]) -> Result<(Vec<u8>, Vec<u8>), Error> {
    ends(check_linked_list_with_ordered_items(items(pairs)))
}

fn unordered(pairs: &[(&[u8], &[u8])]) -> Result<(Vec<u8>, Vec<u8>), Error> {
    ends(check_linked_list_with_unordered_items(items(pairs)))
}

fn permutations<T: Clone>(values: &[T]) -> Vec<Vec<T>> {
    if values.len() <= 1 {
        return vec![values.to_vec()];
    }
    let mut all = Vec::new();
    for i in 0..values.len() {
        let mut rest = values.to_vec();
        let picked = rest.remove(i);
        for mut tail in permutations(&rest) {
            tail.insert(0, picked.clone());
            all.push(tail);
        }
    }
    all
}

const LIST: [(&[u8], &[u8]); 4] = [
    (&[1, 1, 1], &[1, 1, 2]),
    (&[1, 1, 2], &[1, 2, 2]),
    (&[1, 2, 2], &[3, 2, 2]),
    (&[3, 2, 2], &[1, 1, 1]),
];

#[test]
fn byte_strings_compare_lexicographically() {
    assert!(slice_lt(&[1, 1, 2], &[1, 2, 2]));
    assert!(!slice_lt(&[1, 2, 2], &[1, 1, 2]));
    assert!(slice_lt(&[1, 1, 1], &[5]));
    assert!(!slice_lt(&[5], &[1, 1, 1]));
    assert!(slice_lt(&[1], &[1, 0]));
    assert!(!slice_lt(&[1, 0], &[1]));
    assert!(slice_lt(&[], &[0]));
    assert!(!slice_lt(&[0], &[]));
    assert!(!slice_lt(&[], &[]));
    assert!(!slice_lt(&[7, 7], &[7, 7]));
    assert!(slice_lt(&[0, 255], &[1]));
}

#[test]
fn byte_strings_are_equal_when_all_bytes_are() {
    assert!(slice_eq(&[], &[]));
    assert!(slice_eq(&[1, 2, 3], &[1, 2, 3]));
    assert!(!slice_eq(&[1, 2, 3], &[1, 2, 4]));
    assert!(!slice_eq(&[1, 2, 3], &[1, 2]));
    assert!(!slice_eq(&[1, 2], &[1, 2, 3]));
}

#[test]
fn ordered_empty_list() {
    assert_eq!(ordered(&[]), Err(Error::EmptyList));
}

#[test]
fn unordered_empty_list() {
    assert_eq!(unordered(&[]), Err(Error::EmptyList));
}

#[test]
fn ordered_single_interior_item() {
    let summary = check_linked_list_with_ordered_items(items(&[(&[1], &[2])])).unwrap();
    assert_eq!(summary.start.raw_data().as_slice(), &[1]);
    assert_eq!(summary.end.raw_data().as_slice(), &[2]);
    assert!(!summary.is_complete());
    assert!(!summary.has_last());
}

#[test]
fn ordered_single_wrap_item() {
    let summary = check_linked_list_with_ordered_items(items(&[(&[2], &[1])])).unwrap();
    assert_eq!(summary.start.raw_data().as_slice(), &[2]);
    assert_eq!(summary.end.raw_data().as_slice(), &[1]);
    assert!(!summary.is_complete());
    assert!(summary.has_last());
}

#[test]
fn unordered_single_item() {
    assert_eq!(unordered(&[(&[1], &[2])]), Ok((vec![1], vec![2])));
    assert_eq!(unordered(&[(&[2], &[1])]), Ok((vec![2], vec![1])));
    assert_eq!(unordered(&[(&[2], &[2])]), Err(Error::NextIsSelfItem));
}

#[test]
fn self_item_is_refused() {
    assert_eq!(ordered(&[(&[1], &[1])]), Err(Error::NextIsSelfItem));
    assert_eq!(
        ordered(&[(&[1], &[2]), (&[2], &[2])]),
        Err(Error::NextIsSelfItem)
    );
    assert_eq!(
        unordered(&[(&[2], &[2]), (&[1], &[2])]),
        Err(Error::NextIsSelfItem)
    );
}

#[test]
fn ordered_checks_the_link_before_the_item() {
    assert_eq!(
        ordered(&[(&[1], &[2]), (&[3], &[3])]),
        Err(Error::Discontinuous)
    );
}

#[test]
fn unordered_checks_the_item_before_the_link() {
    // In ascending order: (1 -> 2), (3 -> 3). The nodes do not close, so the
    // gap would be refused, but the self item is seen first.
    assert_eq!(
        unordered(&[(&[3], &[3]), (&[1], &[2])]),
        Err(Error::NextIsSelfItem)
    );
}

#[test]
fn second_wrap_item_is_refused() {
    assert_eq!(
        ordered(&[(&[3], &[1]), (&[1], &[0])]),
        Err(Error::ReachLastTwice)
    );
    // In ascending order: (5 -> 1), (9 -> 5).
    assert_eq!(
        unordered(&[(&[9], &[5]), (&[5], &[1])]),
        Err(Error::ReachLastTwice)
    );
}

#[test]
fn ordered_gap_is_refused() {
    assert_eq!(
        ordered(&[(&[1], &[2]), (&[3], &[4])]),
        Err(Error::Discontinuous)
    );
}

#[test]
fn unordered_gap_without_closing_is_refused() {
    assert_eq!(
        unordered(&[(&[1], &[2]), (&[3], &[4])]),
        Err(Error::Discontinuous)
    );
}

#[test]
fn unordered_second_gap_is_refused() {
    // In ascending order: (1 -> 2), (4 -> 5), (8 -> 1). The nodes close, the
    // gap before 4 is taken for the seam, the gap before 8 is one too many.
    assert_eq!(
        unordered(&[(&[8], &[1]), (&[1], &[2]), (&[4], &[5])]),
        Err(Error::Discontinuous)
    );
}

#[test]
fn whole_list_in_order() {
    assert_eq!(ordered(&LIST), Ok((vec![1, 1, 1], vec![1, 1, 1])));
    let summary = check_linked_list_with_ordered_items(items(&LIST)).unwrap();
    assert!(summary.is_complete());
    assert!(summary.has_last());
}

#[test]
fn whole_list_in_every_order() {
    let all = permutations(&LIST);
    assert_eq!(all.len(), 24);
    for order in all {
        assert_eq!(unordered(&order), Ok((vec![1, 1, 1], vec![1, 1, 1])));
        let summary = check_linked_list_with_unordered_items(items(&order)).unwrap();
        assert!(summary.is_complete());
    }
}

#[test]
fn every_stretch_names_its_ends() {
    let m = LIST.len();
    for p in 0..m {
        for n in 1..=m {
            let stretch: Vec<(&[u8], &[u8])> = (0..n).map(|i| LIST[(p + i) % m]).collect();
            let start = LIST[p].0.to_vec();
            let end = LIST[(p + n) % m].0.to_vec();
            assert_eq!(ordered(&stretch), Ok((start.clone(), end.clone())));
            let summary = check_linked_list_with_ordered_items(items(&stretch)).unwrap();
            assert_eq!(summary.is_complete(), n == m);
            assert_eq!(summary.has_last(), p + n >= m);
            assert_eq!(slice_lt(&start, &end), p + n < m);
        }
    }
}

#[test]
fn unordered_agrees_with_ordered_on_every_stretch() {
    let m = LIST.len();
    for p in 0..m {
        for n in 1..=m {
            if n == m && p != 0 {
                continue;
            }
            let stretch: Vec<(&[u8], &[u8])> = (0..n).map(|i| LIST[(p + i) % m]).collect();
            let expected = ordered(&stretch);
            assert!(expected.is_ok());
            for order in permutations(&stretch) {
                assert_eq!(unordered(&order), expected);
            }
        }
    }
}

#[test]
fn whole_list_from_another_node_than_its_head() {
    // The ordered check reports the node it was given first, the unordered
    // check the head.
    let turned = [LIST[2], LIST[3], LIST[0], LIST[1]];
    assert_eq!(ordered(&turned), Ok((vec![1, 2, 2], vec![1, 2, 2])));
    assert_eq!(unordered(&turned), Ok((vec![1, 1, 1], vec![1, 1, 1])));
}

#[test]
fn stretch_over_the_end_of_the_list() {
    // 1 -> 2 -> 4 -> 6 -> 8 -> 9 -> 1, of which 6, 8, 9 and 1 are given.
    let expected = Ok((vec![6], vec![2]));
    assert_eq!(
        ordered(&[(&[6], &[8]), (&[8], &[9]), (&[9], &[1]), (&[1], &[2])]),
        expected
    );
    assert_eq!(
        unordered(&[(&[9], &[1]), (&[1], &[2]), (&[6], &[8]), (&[8], &[9])]),
        expected
    );
    let summary = check_linked_list_with_unordered_items(items(&[
        (&[9], &[1]),
        (&[1], &[2]),
        (&[6], &[8]),
        (&[8], &[9]),
    ]))
    .unwrap();
    assert!(summary.has_last());
    assert!(!summary.is_complete());
}

#[test]
fn ordered_refuses_items_out_of_order() {
    for order in permutations(&LIST) {
        let ascending = order == LIST;
        let turned = (1..LIST.len()).any(|k| {
            let mut list = LIST.to_vec();
            list.rotate_left(k);
            order == list
        });
        let res = ordered(&order);
        if ascending || turned {
            assert!(res.is_ok());
        } else {
            assert!(res == Err(Error::Discontinuous) || res == Err(Error::ReachLastTwice));
        }
    }
}

#[test]
fn single_item_is_never_complete() {
    for pair in [(&[1u8][..], &[2u8][..]), (&[2], &[1]), (&[1], &[1])] {
        match check_linked_list_with_ordered_items(items(&[pair])) {
            Ok(summary) => assert!(!summary.is_complete()),
            Err(e) => assert_eq!(e, Error::NextIsSelfItem),
        }
        match check_linked_list_with_unordered_items(items(&[pair])) {
            Ok(summary) => assert!(!summary.is_complete()),
            Err(e) => assert_eq!(e, Error::NextIsSelfItem),
        }
    }
}

#[test]
fn items_that_share_a_key_are_refused() {
    // Without the refusal, the result would depend on which of the two items
    // with key 1 the sort puts first.
    assert_eq!(
        unordered(&[(&[1], &[3]), (&[1], &[2]), (&[2], &[1])]),
        Err(Error::Discontinuous)
    );
    assert_eq!(
        unordered(&[(&[1], &[2]), (&[1], &[3]), (&[2], &[1])]),
        Err(Error::Discontinuous)
    );
    assert_eq!(
        unordered(&[(&[6], &[2]), (&[6], &[2])]),
        Err(Error::Discontinuous)
    );
    assert_eq!(
        unordered(&[(&[1], &[1]), (&[1], &[1])]),
        Err(Error::Discontinuous)
    );
}

#[test]
fn unordered_sorts_its_items() {
    // Fails if the items are walked in the order given.
    assert_eq!(
        unordered(&[(&[3], &[4]), (&[2], &[3]), (&[1], &[2])]),
        Ok((vec![1], vec![4]))
    );
}

#[test]
fn summaries_are_equal_when_both_ends_are() {
    let a = ListItemsSummary::new(key(&[1]), key(&[9]));
    let b = ListItemsSummary::new(key(&[1]), key(&[9]));
    let c = ListItemsSummary::new(key(&[1]), key(&[8]));
    let d = ListItemsSummary::new(key(&[2]), key(&[9]));
    assert!(a == b);
    assert!(a != c);
    assert!(a != d);
}

#[test]
fn summary_predicates() {
    assert!(ListItemsSummary::new(key(&[1]), key(&[1])).is_complete());
    assert!(ListItemsSummary::new(key(&[1]), key(&[1])).has_last());
    assert!(!ListItemsSummary::new(key(&[1]), key(&[2])).is_complete());
    assert!(!ListItemsSummary::new(key(&[1]), key(&[2])).has_last());
    assert!(ListItemsSummary::new(key(&[2]), key(&[1])).has_last());
    assert!(!ListItemsSummary::new(key(&[1]), key(&[1, 0])).is_complete());
}

#[test]
fn error_codes() {
    assert_eq!(Error::EmptyList.code(), 0x00);
    assert_eq!(Error::Discontinuous.code(), 0x01);
    assert_eq!(Error::ReachLastTwice.code(), 0x02);
    assert_eq!(Error::NextIsSelfItem.code(), 0x03);
}

#[test]
fn byte_strings_compare_with_operators() {
    let a = key(&[1, 1, 2]);
    let b = key(&[1, 2, 2]);
    let c = key(&[1, 1, 2]);
    assert!(a == c);
    assert!(a != b);
    assert!(a < b);
    assert!(b > a);
    assert!(a <= c);
    assert!(a >= c);
    assert!(!(a < c));
    assert!(key(&[]) < key(&[0]));
    assert!(key(&[1]) < key(&[1, 0]));
    assert!(a.as_reader() == c.as_reader());
    assert!(a.as_reader() < b.as_reader());
    assert!(!(b.as_reader() < a.as_reader()));
    assert_eq!(a.partial_cmp(&b), Some(std::cmp::Ordering::Less));
    assert_eq!(b.partial_cmp(&a), Some(std::cmp::Ordering::Greater));
    assert_eq!(a.partial_cmp(&c), Some(std::cmp::Ordering::Equal));
}

#[test]
fn plain_vectors_serve_as_keys() {
    let items = vec![
        ListItem::new(vec![9u8], vec![1u8]),
        ListItem::new(vec![1u8], vec![2u8]),
        ListItem::new(vec![6u8], vec![8u8]),
        ListItem::new(vec![8u8], vec![9u8]),
    ];
    let summary = check_linked_list_with_unordered_items(items).unwrap();
    assert_eq!(summary.start, vec![6u8]);
    assert_eq!(summary.end, vec![2u8]);
    let items = vec![
        ListItem::new(vec![1u8, 0], vec![1u8, 1]),
        ListItem::new(vec![1u8, 1], vec![1u8]),
    ];
    let summary = check_linked_list_with_ordered_items(items).unwrap();
    assert_eq!(summary.start, vec![1u8, 0]);
    assert_eq!(summary.end, vec![1u8]);
    assert!(summary.has_last());
}
