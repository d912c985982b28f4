//! The 128-bit identity of a task, as read from the sixteen bytes that a
//! runner sends.

use vstd::prelude::*;

verus! {

/// The identity of a task.
pub type TaskId = u128;

/// Declares `uuid::Error`, the complaint of `uuid::Uuid::from_slice`, as a
/// type that is carried and never looked into.
#[verifier::external_type_specification]
#[verifier::external_body]
pub struct ExUuidError(uuid::Error);

/// The number that a byte string spells when read as one big-endian integer.
pub open spec fn big_endian_value(bytes: Seq<u8>) -> nat
    decreases bytes.len(),
{
    if bytes.len() == 0 {
        0
    } else {
        big_endian_value(bytes.drop_last()) * 256 + bytes.last() as nat
    }
}

/// The bound below which every byte string of a length spells its number:
/// 256 to the power of the length.
pub open spec fn big_endian_bound(len: nat) -> nat
    decreases len,
{
    if len == 0 {
        1
    } else {
        big_endian_bound((len - 1) as nat) * 256
    }
}

/// A byte string spells a number below the bound of its length; sixteen
/// bytes spell a number that a `u128` holds.
pub proof fn lemma_big_endian_value_bounded(bytes: Seq<u8>)
    ensures
        big_endian_value(bytes) < big_endian_bound(bytes.len()),
        bytes.len() == 16 ==> big_endian_value(bytes) <= u128::MAX,
    decreases bytes.len(),
{
    if bytes.len() > 0 {
        lemma_big_endian_value_bounded(bytes.drop_last());
        let shorter = big_endian_value(bytes.drop_last());
        let bound = big_endian_bound((bytes.len() - 1) as nat);
        assert(shorter * 256 + 255 < bound * 256) by (nonlinear_arith)
            requires
                shorter < bound,
        ;
    }
    if bytes.len() == 16 {
        assert(big_endian_bound(16) == 0x1_0000_0000_0000_0000_0000_0000_0000_0000) by {
            reveal_with_fuel(big_endian_bound, 17);
        }
    }
}

/// Calls `uuid::Uuid::from_slice` and, where it succeeds, `Uuid::as_u128`.
///
/// Trusted of the `uuid` crate: `from_slice` accepts a slice exactly when it
/// holds sixteen bytes, and `as_u128` packs the sixteen bytes of the
/// identity into a `u128` in big-endian order.
#[verifier::external_body]
fn uuid_from_slice(bytes: &[u8]) -> (parsed: Result<u128, uuid::Error>)
    ensures
        parsed is Ok <==> bytes@.len() == 16,
        parsed matches Ok(value) ==> value as nat == big_endian_value(bytes@),
{
    match uuid::Uuid::from_slice(bytes) {
        Ok(id) => Ok(id.as_u128()),
        Err(error) => Err(error),
    }
}

/// Reads a task identity from the bytes that carry it: sixteen bytes, read
/// as one big-endian number. Any other length is refused, and the length
/// that was found is handed back.
pub fn task_id_from_bytes(bytes: &[u8]) -> (parsed: Result<TaskId, usize>)
    ensures
        parsed == if bytes@.len() == 16 {
            Ok::<TaskId, usize>(big_endian_value(bytes@) as u128)
        } else {
            Err::<TaskId, usize>(bytes@.len() as usize)
        },
{
    match uuid_from_slice(bytes) {
        Ok(value) => Ok(value),
        Err(_) => Err(bytes.len()),
    }
}

} // verus!
