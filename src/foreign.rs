use vstd::prelude::*;

use crate::operand::{be_value, Operand, OperandTuple, WORD_BYTES};
use crate::ops::Op;

verus! {

/// Why the foreign oracle produced no value.
#[derive(Debug, Clone, Copy, PartialEq, Eq, Structural)]
pub enum AdapterError {
    /// The foreign routine returned a nonzero status code.
    ForeignFailure { op: Op, code: i32 },
    /// The foreign routine reported success with a reply longer than a word.
    ReplyTooLong { op: Op, len: usize },
}

/// The byte arguments handed to the foreign routine for `op`: the 32-byte
/// big-endian form of each operand that the operation reads, in order.
pub fn marshal(op: Op, operands: &OperandTuple) -> (r: Vec<Vec<u8>>)
    requires
        op.spec_arity() <= operands.width(),
    ensures
        r@.len() == op.spec_arity(),
        forall|i: int| 0 <= i < r@.len() ==> (#[trigger] r@[i])@ == operands.items@[i].bytes@,
{
    let n = op.arity();
    let mut r: Vec<Vec<u8>> = Vec::new();
    let mut i: usize = 0;
    while i < n
        invariant
            n == op.spec_arity(),
            n <= operands.width(),
            i <= n,
            r@.len() == i,
            forall|j: int| 0 <= j < i ==> (#[trigger] r@[j])@ == operands.items@[j].bytes@,
        decreases n - i,
    {
        r.push(operands.get(i).to_be_bytes());
        i = i + 1;
    }
    r
}

/// What a reply of the foreign routine for `op` means: the failure it
/// reports, or the value it carries.
pub open spec fn reply_meaning(op: Op, status: i32, reply: Seq<u8>) -> Result<nat, AdapterError> {
    if status != 0 {
        Err(AdapterError::ForeignFailure { op, code: status })
    } else if reply.len() > 32 {
        Err(AdapterError::ReplyTooLong { op, len: reply.len() as usize })
    } else {
        Ok(be_value(reply))
    }
}

/// Interprets what the foreign routine for `op` handed back: a nonzero
/// `status` is a failure carrying that code, and the reply is not read;
/// on success the reply, at most one word long, is read big-endian.
pub fn decode_reply(op: Op, status: i32, reply: &[u8]) -> (r: Result<Operand, AdapterError>)
    ensures
        r matches Ok(v) ==> reply_meaning(op, status, reply@) == Ok::<nat, AdapterError>(v.value()),
        r matches Err(e) ==> reply_meaning(op, status, reply@) == Err::<nat, AdapterError>(e),
{
    if status != 0 {
        return Err(AdapterError::ForeignFailure { op, code: status });
    }
    if reply.len() > WORD_BYTES {
        return Err(AdapterError::ReplyTooLong { op, len: reply.len() });
    }
    Ok(Operand::from_be_slice(reply))
}

} // verus!
