use ckb_linked_list::record::demo_data::DemoData;
use ckb_linked_list::script::entry::{dispatch, exit_code, main, Operation};
use ckb_linked_list::script::error::{Error, HostError, InternalError};
use ckb_linked_list::script::host::{is_type_hash, matching_indexes, Cell, Transaction};
use ckb_linked_list::script::operations::{create, destroy, summarize, update};
use ckb_linked_list::script::unique_id::calculate_unique_id;
use ckb_linked_list::tool::error::Error as ToolError;

const SCRIPT_HASH: [u8; 32] = [0x5a; 32];
const OTHER_HASH: [u8; 32] = [0x5b; 32];

fn record(curr: &[u8], next: &[u8]) -> Vec<u8> {
    DemoData::new_from_raw_slices(b"demo", curr, next)
        .as_slice()
        .to_vec()
}

fn cell(curr: &[u8], next: &[u8]) -> Cell {
    Cell {
        type_hash: Some(SCRIPT_HASH),
        data: Ok(record(curr, next)),
    }
}

fn other_cell() -> Cell {
    Cell {
        type_hash: Some(OTHER_HASH),
        data: Ok(vec![1, 2, 3]),
    }
}

fn plain_cell() -> Cell {
    Cell {
        type_hash: None,
        data: Err(HostError::ItemMissing),
    }
}

fn first_input() -> Vec<u8> {
    vec![0x11; 44]
}

fn transaction(inputs: Vec<Cell>, outputs: Vec<Cell>) -> Transaction {
    let first_output = outputs
        .iter()
        .position(|cell| cell.type_hash == Some(SCRIPT_HASH))
        .unwrap_or(0);
    Transaction {
        script_hash: Ok(SCRIPT_HASH),
        script_args: Ok(calculate_unique_id(&first_input(), first_output).to_vec()),
        first_input: Ok(first_input()),
        inputs,
        outputs,
    }
}

fn internal(e: InternalError) -> Result<(), Error> {
    Err(Error::Internal(e))
}

#[test]
fn dispatch_shapes() {
    let unknown = Err(Error::Internal(InternalError::UnknownOperation));
    assert_eq!(dispatch(0, 0), unknown);
    assert_eq!(dispatch(0, 1), unknown);
    assert_eq!(dispatch(1, 0), unknown);
    assert_eq!(dispatch(1, 1), unknown);
    assert_eq!(dispatch(0, 2), Ok(Operation::Create));
    assert_eq!(dispatch(0, 7), Ok(Operation::Create));
    assert_eq!(dispatch(2, 0), Ok(Operation::Destroy));
    assert_eq!(dispatch(7, 0), Ok(Operation::Destroy));
    assert_eq!(dispatch(1, 2), Ok(Operation::Update));
    assert_eq!(dispatch(2, 1), Ok(Operation::Update));
    assert_eq!(dispatch(2, 2), Ok(Operation::Update));
    assert_eq!(dispatch(5, 3), Ok(Operation::Update));
}

#[test]
fn exit_codes() {
    assert_eq!(exit_code(Ok(())), 0);
    let table = [
        (InternalError::IndexOutOfBound, 0x01),
        (InternalError::ItemMissing, 0x02),
        (InternalError::LengthNotEnough, 0x03),
        (InternalError::Encoding, 0x04),
        (InternalError::Unknown, 0x05),
        (InternalError::UnknownEnvironment, 0x10),
        (InternalError::UnknownOperation, 0x11),
        (InternalError::CreateInvalidArgsLength, 0x20),
        (InternalError::CreateIncorrectUniqueId, 0x21),
        (InternalError::CreateInvalidOutputData, 0x22),
        (InternalError::CreateIncompleteList, 0x23),
        (InternalError::DestroyInvalidInputData, 0x30),
        (InternalError::DestroyIncompleteList, 0x31),
        (InternalError::UpdateMismatchRange, 0x40),
    ];
    for (error, code) in table {
        assert_eq!(error.code(), code);
        assert_eq!(i8::from(Error::Internal(error)), code);
        assert_eq!(exit_code(Err(Error::from(error))), code);
    }
    let table = [
        (ToolError::EmptyList, 0x60),
        (ToolError::Discontinuous, 0x61),
        (ToolError::ReachLastTwice, 0x62),
        (ToolError::NextIsSelfItem, 0x63),
    ];
    for (error, code) in table {
        assert_eq!(i8::from(Error::Tool(error)), code);
        assert_eq!(exit_code(Err(Error::from(error))), code);
    }
}

#[test]
fn host_errors_keep_their_names() {
    let table = [
        (HostError::IndexOutOfBound, InternalError::IndexOutOfBound),
        (HostError::ItemMissing, InternalError::ItemMissing),
        (HostError::LengthNotEnough(12), InternalError::LengthNotEnough),
        (HostError::Encoding, InternalError::Encoding),
        (HostError::Unknown(77), InternalError::Unknown),
    ];
    for (host, internal) in table {
        assert_eq!(InternalError::from(host), internal);
        assert_eq!(Error::from(host), Error::Internal(internal));
    }
}

#[test]
fn cells_under_the_script_are_found() {
    let cells = vec![
        plain_cell(),
        cell(&[1], &[2]),
        other_cell(),
        cell(&[2], &[1]),
        plain_cell(),
    ];
    assert_eq!(matching_indexes(&SCRIPT_HASH, &cells), vec![1, 3]);
    assert_eq!(matching_indexes(&OTHER_HASH, &cells), vec![2]);
    assert_eq!(matching_indexes(&[0; 32], &cells), Vec::<usize>::new());
    assert_eq!(matching_indexes(&SCRIPT_HASH, &Vec::new()), Vec::<usize>::new());
    assert!(cells[1].has_type(&SCRIPT_HASH));
    assert!(!cells[1].has_type(&OTHER_HASH));
    assert!(!cells[0].has_type(&SCRIPT_HASH));
    assert!(is_type_hash(&Some(SCRIPT_HASH), &SCRIPT_HASH));
    assert!(!is_type_hash(&Some(OTHER_HASH), &SCRIPT_HASH));
    assert!(!is_type_hash(&None, &SCRIPT_HASH));
}

#[test]
fn script_hash_cannot_be_loaded() {
    let mut tx = transaction(vec![], vec![cell(&[1], &[2]), cell(&[2], &[1])]);
    tx.script_hash = Err(HostError::Unknown(9));
    assert_eq!(main(&tx), internal(InternalError::Unknown));
}

#[test]
fn unknown_operations() {
    let one = || cell(&[1], &[2]);
    for (inputs, outputs) in [
        (vec![], vec![]),
        (vec![], vec![one()]),
        (vec![one()], vec![]),
        (vec![one()], vec![one()]),
        (vec![plain_cell(), other_cell()], vec![other_cell()]),
    ] {
        let tx = transaction(inputs, outputs);
        assert_eq!(main(&tx), internal(InternalError::UnknownOperation));
    }
}

#[test]
fn cells_of_other_scripts_do_not_count() {
    let tx = transaction(
        vec![plain_cell(), other_cell()],
        vec![other_cell(), cell(&[1], &[2]), plain_cell(), cell(&[2], &[1])],
    );
    assert_eq!(main(&tx), Ok(()));
}

#[test]
fn create_binds_the_first_output_under_the_script() {
    let mut tx = transaction(
        vec![plain_cell()],
        vec![other_cell(), cell(&[1], &[2]), cell(&[2], &[1])],
    );
    assert_eq!(main(&tx), Ok(()));
    tx.script_args = Ok(calculate_unique_id(&first_input(), 0).to_vec());
    assert_eq!(main(&tx), internal(InternalError::CreateIncorrectUniqueId));
}

#[test]
fn create_script_args() {
    let outputs = || vec![cell(&[1], &[2]), cell(&[2], &[1])];
    let mut tx = transaction(vec![plain_cell()], outputs());
    assert_eq!(main(&tx), Ok(()));
    tx.script_args = Err(HostError::Encoding);
    assert_eq!(main(&tx), internal(InternalError::Encoding));
    for length in [0, 31, 33] {
        tx.script_args = Ok(vec![0; length]);
        assert_eq!(main(&tx), internal(InternalError::CreateInvalidArgsLength));
    }
    tx.script_args = Ok(vec![0; 32]);
    assert_eq!(main(&tx), internal(InternalError::CreateIncorrectUniqueId));
    tx.script_args = Ok(calculate_unique_id(&first_input(), 1).to_vec());
    assert_eq!(main(&tx), internal(InternalError::CreateIncorrectUniqueId));
    let mut other_input = first_input();
    other_input[43] ^= 1;
    tx.script_args = Ok(calculate_unique_id(&other_input, 0).to_vec());
    assert_eq!(main(&tx), internal(InternalError::CreateIncorrectUniqueId));
}

#[test]
fn create_first_input_cannot_be_loaded() {
    let mut tx = transaction(vec![plain_cell()], vec![cell(&[1], &[2]), cell(&[2], &[1])]);
    tx.first_input = Err(HostError::IndexOutOfBound);
    assert_eq!(main(&tx), internal(InternalError::IndexOutOfBound));
    // The length of the arguments is looked at first.
    tx.script_args = Ok(vec![0; 3]);
    assert_eq!(main(&tx), internal(InternalError::CreateInvalidArgsLength));
}

#[test]
fn create_output_data() {
    let mut tx = transaction(
        vec![plain_cell()],
        vec![cell(&[1], &[2]), cell(&[2], &[3]), cell(&[3], &[1])],
    );
    assert_eq!(main(&tx), Ok(()));
    tx.outputs[1].data = Ok(vec![1, 2, 3]);
    assert_eq!(main(&tx), internal(InternalError::CreateInvalidOutputData));
    // Data that cannot be loaded is reported before data that is no record.
    tx.outputs[2].data = Err(HostError::LengthNotEnough(5));
    assert_eq!(main(&tx), internal(InternalError::LengthNotEnough));
    tx.outputs[0].data = Err(HostError::ItemMissing);
    assert_eq!(main(&tx), internal(InternalError::ItemMissing));
}

#[test]
fn create_incomplete_list() {
    let tx = transaction(vec![plain_cell()], vec![cell(&[1], &[2]), cell(&[2], &[3])]);
    assert_eq!(main(&tx), internal(InternalError::CreateIncompleteList));
}

#[test]
fn create_list_faults() {
    let tx = transaction(vec![plain_cell()], vec![cell(&[1], &[1]), cell(&[1], &[1])]);
    assert_eq!(main(&tx), Err(Error::Tool(ToolError::NextIsSelfItem)));
    let tx = transaction(vec![plain_cell()], vec![cell(&[3], &[1]), cell(&[1], &[0])]);
    assert_eq!(main(&tx), Err(Error::Tool(ToolError::ReachLastTwice)));
    let tx = transaction(vec![plain_cell()], vec![cell(&[1], &[2]), cell(&[3], &[1])]);
    assert_eq!(main(&tx), Err(Error::Tool(ToolError::Discontinuous)));
}

#[test]
fn create_accepts_a_list_from_another_node_than_its_head() {
    let tx = transaction(
        vec![plain_cell()],
        vec![cell(&[2], &[3]), cell(&[3], &[1]), cell(&[1], &[2])],
    );
    assert_eq!(main(&tx), Ok(()));
}

#[test]
fn create_with_one_output_always_fails() {
    for (curr, next) in [(&[1u8][..], &[2u8][..]), (&[2], &[1]), (&[1], &[1])] {
        let tx = transaction(vec![plain_cell()], vec![cell(curr, next)]);
        assert_eq!(main(&tx), internal(InternalError::UnknownOperation));
        assert!(create(&tx, vec![0]).is_err());
    }
}

#[test]
fn destroy_input_data() {
    let mut tx = transaction(
        vec![cell(&[3], &[1]), cell(&[1], &[2]), cell(&[2], &[3])],
        vec![plain_cell()],
    );
    assert_eq!(main(&tx), Ok(()));
    tx.inputs[2].data = Ok(vec![1, 2, 3]);
    assert_eq!(main(&tx), internal(InternalError::DestroyInvalidInputData));
    // The inputs are read one after the other: the first fault is reported.
    tx.inputs[1].data = Err(HostError::Encoding);
    assert_eq!(main(&tx), internal(InternalError::Encoding));
    tx.inputs[0].data = Ok(vec![]);
    assert_eq!(main(&tx), internal(InternalError::DestroyInvalidInputData));
}

#[test]
fn destroy_does_not_look_at_the_unique_id() {
    let mut tx = transaction(vec![cell(&[2], &[1]), cell(&[1], &[2])], vec![]);
    tx.script_args = Err(HostError::Encoding);
    tx.first_input = Err(HostError::Encoding);
    assert_eq!(main(&tx), Ok(()));
}

#[test]
fn destroy_list_faults() {
    let tx = transaction(vec![cell(&[3], &[4]), cell(&[1], &[2])], vec![]);
    assert_eq!(main(&tx), Err(Error::Tool(ToolError::Discontinuous)));
    let tx = transaction(vec![cell(&[2], &[2]), cell(&[1], &[2])], vec![]);
    assert_eq!(main(&tx), Err(Error::Tool(ToolError::NextIsSelfItem)));
    let tx = transaction(vec![cell(&[9], &[5]), cell(&[5], &[1])], vec![]);
    assert_eq!(main(&tx), Err(Error::Tool(ToolError::ReachLastTwice)));
    let tx = transaction(vec![cell(&[1], &[2]), cell(&[2], &[3])], vec![]);
    assert_eq!(main(&tx), internal(InternalError::DestroyIncompleteList));
}

#[test]
fn update_data() {
    let mut tx = transaction(
        vec![cell(&[1], &[9])],
        vec![cell(&[5], &[9]), cell(&[1], &[5])],
    );
    assert_eq!(main(&tx), Ok(()));
    tx.outputs[1].data = Ok(vec![0; 5]);
    assert_eq!(main(&tx), internal(InternalError::CreateInvalidOutputData));
    tx.outputs[0].data = Err(HostError::IndexOutOfBound);
    assert_eq!(main(&tx), internal(InternalError::IndexOutOfBound));
    // The inputs are read before the outputs.
    tx.inputs[0].data = Ok(vec![0; 5]);
    assert_eq!(main(&tx), internal(InternalError::DestroyInvalidInputData));
    tx.inputs[0].data = Err(HostError::ItemMissing);
    assert_eq!(main(&tx), internal(InternalError::ItemMissing));
}

#[test]
fn update_does_not_look_at_the_unique_id() {
    let mut tx = transaction(
        vec![cell(&[1], &[9])],
        vec![cell(&[5], &[9]), cell(&[1], &[5])],
    );
    tx.script_args = Err(HostError::Encoding);
    tx.first_input = Err(HostError::Encoding);
    assert_eq!(main(&tx), Ok(()));
}

#[test]
fn update_list_faults() {
    // A fault of the inputs is reported before a fault of the outputs.
    let tx = transaction(
        vec![cell(&[1], &[1]), cell(&[2], &[3])],
        vec![cell(&[1], &[2]), cell(&[3], &[4])],
    );
    assert_eq!(main(&tx), Err(Error::Tool(ToolError::NextIsSelfItem)));
    let tx = transaction(
        vec![cell(&[1], &[2]), cell(&[2], &[3])],
        vec![cell(&[1], &[2]), cell(&[3], &[4])],
    );
    assert_eq!(main(&tx), Err(Error::Tool(ToolError::Discontinuous)));
    let tx = transaction(
        vec![cell(&[1], &[2]), cell(&[2], &[3])],
        vec![cell(&[1], &[2]), cell(&[2], &[4])],
    );
    assert_eq!(main(&tx), internal(InternalError::UpdateMismatchRange));
}

#[test]
fn update_shrinks_the_list_over_its_end() {
    let inputs = || {
        vec![
            cell(&[6], &[8]),
            cell(&[8], &[9]),
            cell(&[9], &[1]),
            cell(&[1], &[2]),
        ]
    };
    let tx = transaction(inputs(), vec![cell(&[6], &[2])]);
    assert_eq!(main(&tx), Ok(()));
    let tx = transaction(inputs(), vec![cell(&[2], &[6])]);
    assert_eq!(main(&tx), internal(InternalError::UpdateMismatchRange));
}

#[test]
fn operations_on_given_indexes() {
    let tx = transaction(
        vec![other_cell(), cell(&[2], &[1]), cell(&[1], &[2])],
        vec![cell(&[1], &[2]), plain_cell(), cell(&[2], &[1])],
    );
    assert_eq!(destroy(&tx, vec![2, 1]), Ok(()));
    assert_eq!(destroy(&tx, vec![1]), internal(InternalError::DestroyIncompleteList));
    assert_eq!(destroy(&tx, vec![0]), internal(InternalError::DestroyInvalidInputData));
    assert_eq!(destroy(&tx, vec![]), Err(Error::Tool(ToolError::EmptyList)));
    assert_eq!(create(&tx, vec![0, 2]), Ok(()));
    assert_eq!(
        create(&tx, vec![2, 0]),
        internal(InternalError::CreateIncorrectUniqueId)
    );
    assert_eq!(create(&tx, vec![0, 1]), internal(InternalError::ItemMissing));
    assert_eq!(update(&tx, vec![1, 2], vec![0, 2]), Ok(()));
    assert_eq!(update(&tx, vec![1], vec![2]), Ok(()));
    assert_eq!(
        update(&tx, vec![1], vec![0]),
        internal(InternalError::UpdateMismatchRange)
    );
    assert_eq!(
        update(&tx, vec![], vec![0]),
        Err(Error::Tool(ToolError::EmptyList))
    );
}

fn permutations<T: Clone>(values: &[T]) -> Vec<Vec<T>> {
    if values.len() <= 1 {
        return vec![values.to_vec()];
    }
    let mut all = Vec::new();
    for i in 0..values.len() {
        let mut rest = values.to_vec();
        let picked = rest.remove(i);
        for mut tail in permutations(&rest) {
            tail.insert(0, picked.clone());
            all.push(tail);
        }
    }
    all
}

const LIST: [(&[u8], &[u8]); 4] = [
    (&[1, 1, 1], &[1, 1, 2]),
    (&[1, 1, 2], &[1, 2, 2]),
    (&[1, 2, 2], &[3, 2, 2]),
    (&[3, 2, 2], &[1, 1, 1]),
];

#[test]
fn destroy_accepts_a_whole_list_in_every_order() {
    for order in permutations(&LIST) {
        let inputs = order.iter().map(|(curr, next)| cell(curr, next)).collect();
        let tx = transaction(inputs, vec![plain_cell()]);
        assert_eq!(main(&tx), Ok(()));
    }
}

#[test]
fn create_accepts_a_whole_list_only_in_its_order() {
    for order in permutations(&LIST) {
        let turned = (0..LIST.len()).any(|k| {
            let mut list = LIST.to_vec();
            list.rotate_left(k);
            order == list
        });
        let outputs = order.iter().map(|(curr, next)| cell(curr, next)).collect();
        let tx = transaction(vec![plain_cell()], outputs);
        let res = main(&tx);
        if turned {
            assert_eq!(res, Ok(()));
        } else {
            assert!(
                res == Err(Error::Tool(ToolError::Discontinuous))
                    || res == Err(Error::Tool(ToolError::ReachLastTwice))
            );
        }
    }
}

#[test]
fn accepted_updates_keep_the_ends() {
    let stretches: [&[(&[u8], &[u8])]; 6] = [
        &[(&[1], &[9])],
        &[(&[1], &[5]), (&[5], &[9])],
        &[(&[5], &[9]), (&[3], &[5]), (&[1], &[3])],
        &[(&[1], &[8])],
        &[(&[6], &[2])],
        &[(&[9], &[1]), (&[1], &[2]), (&[6], &[8]), (&[8], &[9])],
    ];
    for inputs in stretches {
        for outputs in stretches {
            if inputs.len() == 1 && outputs.len() == 1 {
                continue;
            }
            let tx = transaction(
                inputs.iter().map(|(curr, next)| cell(curr, next)).collect(),
                outputs.iter().map(|(curr, next)| cell(curr, next)).collect(),
            );
            let ins: Vec<usize> = (0..inputs.len()).collect();
            let outs: Vec<usize> = (0..outputs.len()).collect();
            let before = summarize(&tx.inputs, &ins, InternalError::DestroyInvalidInputData)
                .unwrap();
            let after = summarize(&tx.outputs, &outs, InternalError::CreateInvalidOutputData)
                .unwrap();
            let same = before.start.raw_data() == after.start.raw_data()
                && before.end.raw_data() == after.end.raw_data();
            assert_eq!(before == after, same);
            if same {
                assert_eq!(main(&tx), Ok(()));
            } else {
                assert_eq!(main(&tx), internal(InternalError::UpdateMismatchRange));
            }
        }
    }
}
