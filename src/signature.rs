//! Canonical function signatures and the identifiers derived from them.
use vstd::prelude::*;

use crate::grammar::{be_u32, function_sig, input_id_of, output_id_of, signature_id};
use crate::text::string_from_chars;
use crate::types::{fields_of, push_decimal, push_str, write_signature_list, Param};

verus! {

/// The SHA-256 digest of a byte string.
pub uninterp spec fn sha256(data: Seq<u8>) -> Seq<u8>;

/// Relies on `sha2::Sha256::digest`: the 32-byte SHA-256 digest of `data`.
#[verifier::external_body]
fn sha256_digest(data: &[u8]) -> (r: Vec<u8>)
    ensures
        r@ == sha256(data@),
        r@.len() == 32,
{
    <sha2::Sha256 as sha2::Digest>::digest(data).to_vec()
}

} // verus!

verus! {

/// The canonical signature of a function: its name, the signatures of its
/// input and output types, and the major version of its interface.
pub fn get_function_signature(
    name: &str,
    inputs: &Vec<Param>,
    outputs: &Vec<Param>,
    abi_version: u8,
) -> (r: String)
    ensures
        r@ == function_sig(name@, fields_of(inputs@), fields_of(outputs@), abi_version as nat),
{
    let mut out: Vec<char> = Vec::new();
    push_str(&mut out, name);
    push_str(&mut out, "(");
    write_signature_list(inputs, &mut out);
    push_str(&mut out, ")(");
    write_signature_list(outputs, &mut out);
    push_str(&mut out, ")v");
    push_decimal(&mut out, abi_version as usize);
    proof {
        assert(out@ =~= function_sig(
            name@,
            fields_of(inputs@),
            fields_of(outputs@),
            abi_version as nat,
        ));
    }
    string_from_chars(out.as_slice())
}

/// The big-endian value of the first four bytes of a digest.
pub fn id_from_digest(digest: &[u8]) -> (r: u32)
    requires
        digest@.len() >= 4,
    ensures
        r == be_u32(digest@),
{
    let b0 = digest[0] as u32;
    let b1 = digest[1] as u32;
    let b2 = digest[2] as u32;
    let b3 = digest[3] as u32;
    b0 * 0x1000000 + b1 * 0x10000 + b2 * 0x100 + b3
}

/// The identifier of a canonical signature: the first four bytes of its
/// SHA-256 digest, read big-endian.
pub fn calc_function_id(signature: &str) -> (r: u32)
    ensures
        r == signature_id(signature@),
{
    let bytes = signature.as_bytes();
    let digest = sha256_digest(bytes);
    id_from_digest(digest.as_slice())
}

/// The call and return identifiers derived from one base identifier: the top
/// bit cleared for the call, set for the return.
pub fn split_function_id(base: u32) -> (r: (u32, u32))
    ensures
        r.0 == input_id_of(base),
        r.1 == output_id_of(base),
        r.0 < 0x8000_0000,
        r.1 >= 0x8000_0000,
        r.0 % 0x8000_0000 == base % 0x8000_0000,
        r.1 % 0x8000_0000 == base % 0x8000_0000,
{
    let input = base & 0x7FFF_FFFF;
    let output = base | 0x8000_0000;
    assert(input < 0x8000_0000 && output >= 0x8000_0000 && input % 0x8000_0000 == base % 0x8000_0000
        && output % 0x8000_0000 == base % 0x8000_0000) by (bit_vector)
        requires
            input == base & 0x7FFF_FFFF,
            output == base | 0x8000_0000,
    ;
    (input, output)
}

/// Exclusive or of all identifiers.
pub open spec fn xor_all(ids: Seq<u32>) -> u32
    decreases ids.len(),
{
    if ids.len() == 0 {
        0
    } else {
        xor_all(ids.drop_last()) ^ ids.last()
    }
}

/// The identifier of an interface: the exclusive or of its methods' identifiers.
pub fn compute_tip6_interface_id(method_ids: &[u32]) -> (r: u32)
    ensures
        r == xor_all(method_ids@),
{
    let mut result: u32 = 0;
    let mut i: usize = 0;
    while i < method_ids.len()
        invariant
            i <= method_ids@.len(),
            result == xor_all(method_ids@.take(i as int)),
        decreases method_ids@.len() - i,
    {
        proof {
            assert(method_ids@.take(i + 1).drop_last() =~= method_ids@.take(i as int));
        }
        result = result ^ method_ids[i];
        i = i + 1;
    }
    proof {
        assert(method_ids@.take(i as int) =~= method_ids@);
    }
    result
}

} // verus!
