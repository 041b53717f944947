use vstd::prelude::*;
use vstd::slice::slice_subrange;

use crate::foreign::{reply_meaning, AdapterError};
use crate::operand::{be_value, padded_word, Operand, OperandTuple};
use crate::ops::Op;

verus! {

/// How many operands a fuzz target reads from each input.
#[derive(Debug, Clone, Copy, PartialEq, Eq, Structural)]
pub enum Target {
    /// Two operands; inputs shorter than two bytes are skipped.
    TwoOperand,
    /// Three operands; inputs shorter than ten bytes are skipped.
    ThreeOperand,
}

impl Target {
    pub open spec fn spec_width(self) -> usize {
        match self {
            Target::TwoOperand => 2,
            Target::ThreeOperand => 3,
        }
    }

    pub open spec fn spec_min_input_len(self) -> usize {
        match self {
            Target::TwoOperand => 2,
            Target::ThreeOperand => 10,
        }
    }

    /// Number of operands decoded from each input.
    #[verifier::when_used_as_spec(spec_width)]
    pub fn width(self) -> (r: usize)
        ensures
            r == self.spec_width(),
    {
        match self {
            Target::TwoOperand => 2,
            Target::ThreeOperand => 3,
        }
    }

    /// Shortest input that is decoded rather than skipped.
    #[verifier::when_used_as_spec(spec_min_input_len)]
    pub fn min_input_len(self) -> (r: usize)
        ensures
            r == self.spec_min_input_len(),
    {
        match self {
            Target::TwoOperand => 2,
            Target::ThreeOperand => 10,
        }
    }
}

/// Start of piece `i` when `len` bytes are cut into `n` pieces: every piece
/// but the last is `len / n` bytes long, and the last takes the remainder.
pub open spec fn piece_start(len: nat, n: nat, i: nat) -> nat {
    i * (len / n)
}

pub open spec fn piece_end(len: nat, n: nat, i: nat) -> nat {
    if i + 1 == n {
        len
    } else {
        (i + 1) * (len / n)
    }
}

/// The bytes of operand `i` of a seed cut from `data` into `n` operands.
pub open spec fn seed_word(data: Seq<u8>, n: nat, i: nat) -> Seq<u8> {
    padded_word(
        data.subrange(
            piece_start(data.len(), n, i) as int,
            piece_end(data.len(), n, i) as int,
        ),
    )
}

/// Round trip through the codec: the 32 big-endian bytes of an operand,
/// decoded again by the seed padding rule or read back as a successful
/// foreign reply, give the same bytes and the same value.
pub proof fn lemma_codec_round_trip(o: Operand, op: Op)
    ensures
        padded_word(o.bytes@) == o.bytes@,
        be_value(padded_word(o.bytes@)) == o.value(),
        reply_meaning(op, 0, o.bytes@) == Ok::<nat, AdapterError>(o.value()),
{
    assert(padded_word(o.bytes@) =~= o.bytes@);
}

/// Cuts `data` into the target's number of nearly equal pieces and turns
/// each into an operand by the padding rule; `None` when `data` is too
/// short, in which case the input is skipped.
pub fn decode_seed(data: &[u8], target: Target) -> (r: Option<OperandTuple>)
    ensures
        r is None <==> data@.len() < target.spec_min_input_len(),
        r matches Some(t) ==> {
            &&& t.width() == target.spec_width()
            &&& forall|i: int|
                0 <= i < t.width() ==> (#[trigger] t.items@[i]).bytes@ == seed_word(
                    data@,
                    target.spec_width() as nat,
                    i as nat,
                )
        },
{
    if data.len() < target.min_input_len() {
        return None;
    }
    let n = target.width();
    let part = data.len() / n;
    let mut items: Vec<Operand> = Vec::new();
    let mut i: usize = 0;
    while i < n
        invariant
            n == target.spec_width(),
            2 <= n <= 3,
            part == data@.len() / (n as nat),
            data@.len() <= usize::MAX,
            i <= n,
            items@.len() == i,
            forall|j: int|
                0 <= j < i ==> (#[trigger] items@[j]).bytes@ == seed_word(data@, n as nat, j as nat),
        decreases n - i,
    {
        proof {
            assert(i * part <= (i + 1) * part <= data@.len()) by (nonlinear_arith)
                requires part == data@.len() / (n as nat), n > 0, i < n;
        }
        let start: usize = i * part;
        let end: usize = if i + 1 == n { data.len() } else { (i + 1) * part };
        let w = Operand::from_slice_padded(slice_subrange(data, start, end));
        items.push(w);
        i = i + 1;
    }
    Some(OperandTuple { items })
}

} // verus!
