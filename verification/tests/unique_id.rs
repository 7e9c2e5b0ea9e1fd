use ckb_linked_list::script::unique_id::calculate_unique_id;

fn first_input() -> Vec<u8> {
    let mut bytes = vec![0u8; 8];
    bytes.extend_from_slice(&[0xc1; 32]);
    bytes.extend_from_slice(&[2, 0, 0, 0]);
    bytes
}

/// The identifier as it is made by feeding the hasher piece by piece.
fn streamed(input: &[u8], output_index: u64) -> [u8; 32] {
    let mut blake2b = ckb_hash::new_blake2b();
    blake2b.update(input);
    blake2b.update(&output_index.to_le_bytes());
    let mut ret = [0; 32];
    blake2b.finalize(&mut ret);
    ret
}

#[test]
fn unique_id_known_answer() {
    let id = calculate_unique_id(&first_input(), 0);
    assert_eq!(
        id,
        [
            232, 148, 190, 30, 65, 163, 55, 31, 62, 73, 16, 77, 67, 225, 78, 69, 136, 151, 50, 10,
            46, 152, 6, 95, 108, 222, 151, 95, 72, 76, 113, 143
        ]
    );
}

#[test]
fn unique_id_known_answer_of_empty_input() {
    let id = calculate_unique_id(&[], 1);
    assert_eq!(
        id,
        [
            14, 47, 208, 180, 178, 7, 214, 183, 240, 36, 132, 115, 111, 241, 150, 114, 116, 98, 51,
            236, 60, 182, 3, 144, 143, 150, 248, 161, 40, 58, 28, 65
        ]
    );
}

#[test]
fn unique_id_is_the_hash_of_input_and_index() {
    let input = first_input();
    for index in [0usize, 1, 2, 255, 256, 65_535, 65_536, 0x0102_0304, usize::MAX] {
        assert_eq!(calculate_unique_id(&input, index), streamed(&input, index as u64));
    }
    assert_eq!(calculate_unique_id(&[], 0), streamed(&[], 0));
    assert_eq!(calculate_unique_id(&[1, 2, 3], 7), streamed(&[1, 2, 3], 7));
}

#[test]
fn unique_id_hashes_the_index_as_eight_bytes_least_first() {
    // The index 0x0807060504030201 adds the bytes 1, 2, .., 8 to the input.
    let input = [9u8, 9, 9];
    let whole = [9u8, 9, 9, 1, 2, 3, 4, 5, 6, 7, 8];
    assert_eq!(
        calculate_unique_id(&input, 0x0807_0605_0403_0201),
        ckb_hash::blake2b_256(whole)
    );
}

#[test]
fn unique_id_is_the_same_for_the_same_arguments() {
    let input = first_input();
    assert_eq!(calculate_unique_id(&input, 3), calculate_unique_id(&input, 3));
}

#[test]
fn unique_id_changes_with_the_index() {
    let input = first_input();
    let at_zero = calculate_unique_id(&input, 0);
    for index in 1..64 {
        assert_ne!(calculate_unique_id(&input, index), at_zero);
    }
}

#[test]
fn unique_id_changes_with_every_byte_of_the_input() {
    let input = first_input();
    let id = calculate_unique_id(&input, 0);
    for at in 0..input.len() {
        let mut other = input.clone();
        other[at] ^= 1;
        assert_ne!(calculate_unique_id(&other, 0), id);
    }
}

#[test]
fn unique_id_is_not_its_input() {
    let input = [7u8; 32];
    let id = calculate_unique_id(&input, 0);
    assert_ne!(id, input);
    assert_eq!(id.len(), 32);
}
