use ckb_linked_list::record::demo_data::DemoData;
use ckb_linked_list::script::entry::main;
use ckb_linked_list::script::error::{Error, InternalError};
use ckb_linked_list::script::host::{Cell, Transaction};

struct FullListCase<'a, 'b> {
    demo_data: &'a [(&'b [u8], &'b [u8], &'b [u8])],
    should_passed: bool,
}

impl FullListCase<'_, '_> {
    fn demo_data(&self) -> Vec<Vec<u8>> {
        self.demo_data
            .iter()
            .map(|(x, y, z)| {
                let demo_data = DemoData::new_from_raw_slices(x, y, z);
                demo_data.as_slice().to_vec()
            })
            .collect()
    }
}

const SCRIPT_HASH: [u8; 32] = [0x5a; 32];

fn build(case: &FullListCase) -> Transaction {
    let inputs = case
        .demo_data()
        .into_iter()
        .map(|data| Cell {
            type_hash: Some(SCRIPT_HASH),
            data: Ok(data),
        })
        .collect();
    Transaction {
        script_hash: Ok(SCRIPT_HASH),
        script_args: Ok(vec![0u8; 32]),
        first_input: Ok(vec![0u8; 44]),
        inputs,
        outputs: vec![Cell {
            type_hash: None,
            data: Ok(Vec::new()),
        }],
    }
}

fn run_test(case: FullListCase) -> Result<(), Error> {
    let tx = build(&case);
    let res = main(&tx);
    if case.should_passed {
        assert_eq!(res, Ok(()));
    } else {
        assert!(res.is_err());
    }
    res
}

#[test]
fn destroy_success_shortest() {
    let case = FullListCase {
        demo_data: &[
            (b"1-st", &[1, 1, 1], &[2, 2, 2]),
            (b"2-nd", &[2, 2, 2], &[1, 1, 1]),
        ],
        should_passed: true,
    };
    run_test(case).unwrap();
}

#[test]
fn destroy_success_case_1() {
    let case = FullListCase {
        demo_data: &[
            (b"1-st", &[1, 1, 1], &[1, 1, 2]),
            (b"2-nd", &[1, 1, 2], &[1, 2, 2]),
            (b"3-rd", &[1, 2, 2], &[3, 2, 2]),
            (b"4-th", &[3, 2, 2], &[1, 1, 1]),
        ],
        should_passed: true,
    };
    run_test(case).unwrap();
}

#[test]
fn destroy_single_item() {
    let case = FullListCase {
        demo_data: &[(b"1-st", &[1, 1, 1], &[1, 1, 1])],
        should_passed: false,
    };
    let res = run_test(case);
    assert_eq!(res, Err(Error::Internal(InternalError::UnknownOperation)));
}

#[test]
fn destroy_unordered() {
    let case = FullListCase {
        demo_data: &[
            (b"1-st", &[1, 1, 1], &[1, 1, 2]),
            (b"3-rd", &[1, 2, 2], &[3, 2, 2]),
            (b"2-nd", &[1, 1, 2], &[1, 2, 2]),
            (b"4-th", &[3, 2, 2], &[1, 1, 1]),
        ],
        should_passed: true,
    };
    run_test(case).unwrap();
}

#[test]
fn destroy_incomplete() {
    let case = FullListCase {
        demo_data: &[
            (b"1-st", &[1, 1, 1], &[1, 1, 2]),
            (b"3-rd", &[1, 2, 2], &[3, 2, 2]),
            (b"2-nd", &[1, 1, 2], &[1, 2, 2]),
            (b"4-th", &[3, 2, 2], &[4, 4, 4]),
        ],
        should_passed: false,
    };
    let res = run_test(case);
    assert_eq!(
        res,
        Err(Error::Internal(InternalError::DestroyIncompleteList))
    );
}

#[test]
fn destroy_corrupted() {
    let case = FullListCase {
        demo_data: &[
            (b"1-st", &[1, 1, 1], &[1, 1, 2]),
            (b"3-rd", &[1, 2, 2], &[3, 2, 2]),
            (b"4-th", &[3, 2, 2], &[1, 1, 1]),
        ],
        should_passed: false,
    };
    let res = run_test(case);
    assert_eq!(
        res,
        Err(Error::Internal(InternalError::DestroyIncompleteList))
    );
}
