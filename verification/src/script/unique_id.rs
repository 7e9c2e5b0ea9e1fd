//! The identifier that pins a list to the transaction that created it.

use vstd::prelude::*;

verus! {

/// The digest that `ckb_hash::blake2b_256` gives for `data`: BLAKE2b with
/// 32 bytes of output and the personalisation of the ledger.
pub uninterp spec fn blake2b_256(data: Seq<u8>) -> Seq<u8>;

/// Hashes `data` with `ckb_hash::blake2b_256`.
///
/// Taken on trust of that function: the digest depends on the bytes of
/// `data` alone. Nothing more is claimed of it.
#[verifier::external_body]
pub(crate) fn hash_blake2b_256(data: &[u8]) -> (digest: [u8; 32])
    ensures
        digest@ == blake2b_256(data@),
{
    ckb_hash::blake2b_256(data)
}

/// The `k` lowest bytes of `n`, least significant byte first.
pub open spec fn low_bytes(n: nat, k: nat) -> Seq<u8>
    decreases k,
{
    if k == 0 {
        Seq::<u8>::empty()
    } else {
        seq![(n % 0x100) as u8] + low_bytes(n / 0x100, (k - 1) as nat)
    }
}

/// The eight bytes that spell `n`, least significant byte first.
pub open spec fn le64(n: u64) -> Seq<u8> {
    low_bytes(n as nat, 8)
}

proof fn lemma_low_bytes_len(n: nat, k: nat)
    ensures
        low_bytes(n, k).len() == k,
    decreases k,
{
    if k > 0 {
        lemma_low_bytes_len(n / 0x100, (k - 1) as nat);
    }
}

/// Numbers with the same `k` lowest bytes differ by a number that has no
/// byte below the `k`-th: if they are small enough to be spelled in `k`
/// bytes, they are the same.
proof fn lemma_low_bytes_tell(n: nat, m: nat, k: nat, bound: nat)
    requires
        low_bytes(n, k) == low_bytes(m, k),
        bound == vstd::arithmetic::power::pow(0x100, k),
        n < bound,
        m < bound,
    ensures
        n == m,
    decreases k,
{
    vstd::arithmetic::power::lemma_pow0(0x100);
    if k > 0 {
        let rest = vstd::arithmetic::power::pow(0x100, (k - 1) as nat) as nat;
        vstd::arithmetic::power::lemma_pow_positive(0x100, (k - 1) as nat);
        assert(bound == 0x100 * rest) by {
            reveal(vstd::arithmetic::power::pow);
        }
        let a = low_bytes(n, k);
        let b = low_bytes(m, k);
        lemma_low_bytes_len(n / 0x100, (k - 1) as nat);
        lemma_low_bytes_len(m / 0x100, (k - 1) as nat);
        assert(a[0] == (n % 0x100) as u8);
        assert(b[0] == (m % 0x100) as u8);
        assert(low_bytes(n / 0x100, (k - 1) as nat) =~= a.subrange(1, k as int));
        assert(low_bytes(m / 0x100, (k - 1) as nat) =~= b.subrange(1, k as int));
        assert(n / 0x100 < rest) by (nonlinear_arith)
            requires
                n < 0x100 * rest,
        ;
        assert(m / 0x100 < rest) by (nonlinear_arith)
            requires
                m < 0x100 * rest,
        ;
        lemma_low_bytes_tell(n / 0x100, m / 0x100, (k - 1) as nat, rest);
    }
}

/// Eight bytes tell the number that they spell.
pub proof fn lemma_le64_injective(n: u64, m: u64)
    requires
        le64(n) == le64(m),
    ensures
        n == m,
        le64(n).len() == 8,
{
    lemma_low_bytes_len(n as nat, 8);
    assert(vstd::arithmetic::power::pow(0x100, 8) == 0x1_0000_0000_0000_0000) by {
        reveal_with_fuel(vstd::arithmetic::power::pow, 9);
    }
    lemma_low_bytes_tell(n as nat, m as nat, 8, 0x1_0000_0000_0000_0000);
}

/// What is hashed: the bytes of the first input of the transaction, and
/// then the index of the output as eight bytes.
pub open spec fn unique_id_preimage(first_input: Seq<u8>, output_index: u64) -> Seq<u8> {
    first_input + le64(output_index)
}

/// The identifier for a first input and the index of an output.
pub open spec fn unique_id(first_input: Seq<u8>, output_index: u64) -> Seq<u8> {
    blake2b_256(unique_id_preimage(first_input, output_index))
}

/// What is hashed tells the first input and the index of the output: two
/// identifiers are digests of the same bytes only if they were made from the
/// same input and the same index.
pub proof fn lemma_unique_id_preimage_injective(
    first_input: Seq<u8>,
    output_index: u64,
    other_input: Seq<u8>,
    other_index: u64,
)
    requires
        unique_id_preimage(first_input, output_index) == unique_id_preimage(
            other_input,
            other_index,
        ),
    ensures
        first_input == other_input,
        output_index == other_index,
{
    let a = unique_id_preimage(first_input, output_index);
    let b = unique_id_preimage(other_input, other_index);
    lemma_low_bytes_len(output_index as nat, 8);
    lemma_low_bytes_len(other_index as nat, 8);
    assert(a.len() == first_input.len() + 8);
    assert(b.len() == other_input.len() + 8);
    assert(first_input =~= a.subrange(0, first_input.len() as int));
    assert(other_input =~= b.subrange(0, other_input.len() as int));
    assert(le64(output_index) =~= a.subrange(first_input.len() as int, a.len() as int));
    assert(le64(other_index) =~= b.subrange(other_input.len() as int, b.len() as int));
    lemma_le64_injective(output_index, other_index);
}

/// Spells `n` as eight bytes, least significant byte first.
fn u64_le_bytes(n: u64) -> (bytes: Vec<u8>)
    ensures
        bytes@ == le64(n),
{
    let mut bytes: Vec<u8> = Vec::with_capacity(8);
    let mut rest = n;
    let mut k: usize = 0;
    while k < 8
        invariant
            k <= 8,
            bytes@.len() == k,
            le64(n) == bytes@ + low_bytes(rest as nat, (8 - k) as nat),
        decreases 8 - k,
    {
        proof {
            assert(bytes@.push((rest % 0x100) as u8) + low_bytes(
                (rest / 0x100) as nat,
                (8 - k - 1) as nat,
            ) =~= bytes@ + low_bytes(rest as nat, (8 - k) as nat));
        }
        bytes.push((rest % 0x100) as u8);
        rest = rest / 0x100;
        k += 1;
    }
    bytes
}

/// Calculates the identifier from the bytes of the first input of the
/// transaction and the index of the first output that is under the script.
pub fn calculate_unique_id(first_input: &[u8], output_index: usize) -> (id: [u8; 32])
    ensures
        id@ == unique_id(first_input@, output_index as u64),
{
    let mut message = vstd::slice::slice_to_vec(first_input);
    let mut index_bytes = u64_le_bytes(output_index as u64);
    message.append(&mut index_bytes);
    hash_blake2b_256(message.as_slice())
}

} // verus!
