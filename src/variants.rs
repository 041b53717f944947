use vstd::prelude::*;

use crate::operand::{complement_bytes, i128_min_word, word_max, Operand, OperandTuple};

verus! {

/// The seed rotated one place to the right: `[c, a, b]`, or `[b, a]`.
pub open spec fn rotated(seed: Seq<Operand>) -> Seq<Operand> {
    seq![seed.last()] + seed.drop_last()
}

/// `t` is `s` with every bit of every operand flipped.
pub open spec fn is_complement_of(t: Seq<Operand>, s: Seq<Operand>) -> bool {
    &&& t.len() == s.len()
    &&& forall|i: int| 0 <= i < s.len() ==> #[trigger] t[i].bytes@ == complement_bytes(s[i].bytes@)
}

/// `t` is `base` with the operand at `pos` replaced by one of value `v`.
pub open spec fn substituted(t: Seq<Operand>, base: Seq<Operand>, pos: int, v: nat) -> bool {
    &&& t.len() == base.len()
    &&& t[pos].value() == v
    &&& forall|i: int| 0 <= i < base.len() && i != pos ==> #[trigger] t[i] == base[i]
}

/// The three substituted constants, in the order the generator uses them:
/// `i128::MIN` sign-extended, the largest 256-bit value, `u64::MAX`.
pub open spec fn edge_constant(k: int) -> nat {
    if k == 0 {
        i128_min_word()
    } else if k == 1 {
        word_max()
    } else {
        0xffff_ffff_ffff_ffffnat
    }
}

/// The rearranged seed whose last operand is replaced in the second variant
/// of each constant's pair.
pub open spec fn pair_base(seed: Seq<Operand>, k: int) -> Seq<Operand> {
    if seed.len() == 2 {
        seq![seed[1], seed[0]]
    } else if k == 0 {
        seq![seed[1], seed[0], seed[2]]
    } else if k == 1 {
        seq![seed[2], seed[1], seed[0]]
    } else {
        seq![seed[1], seed[2], seed[0]]
    }
}

/// The variant set of a seed, in order: the seed; its rotation; its
/// complement; then for each edge constant a pair, the seed with its second
/// operand replaced and a rearranged seed with its last operand replaced.
pub open spec fn is_variant_set(seed: Seq<Operand>, vs: Seq<Seq<Operand>>) -> bool {
    &&& vs.len() == 9
    &&& vs[0] == seed
    &&& vs[1] == rotated(seed)
    &&& is_complement_of(vs[2], seed)
    &&& forall|k: int|
        0 <= k < 3 ==> {
            &&& substituted(#[trigger] vs[3 + 2 * k], seed, 1, edge_constant(k))
            &&& substituted(vs[4 + 2 * k], pair_base(seed, k), seed.len() - 1, edge_constant(k))
        }
}

pub open spec fn tuples_view(vs: Seq<OperandTuple>) -> Seq<Seq<Operand>> {
    vs.map_values(|t: OperandTuple| t.items@)
}

/// Expands a seed into its variant set. The seed comes first and unchanged,
/// and the third variant is its bitwise complement.
pub fn gen_alts(seed: &OperandTuple) -> (r: Vec<OperandTuple>)
    requires
        seed.width() == 2 || seed.width() == 3,
    ensures
        is_variant_set(seed.items@, tuples_view(r@)),
        r@[0].items@ == seed.items@,
        is_complement_of(r@[2].items@, seed.items@),
        forall|j: int| 0 <= j < r@.len() ==> (#[trigger] r@[j]).width() == seed.width(),
{
    let im = Operand::i128_min();
    let mx = Operand::max_value();
    let um = Operand::from_u64(u64::MAX);
    let a = seed.get(0);
    let b = seed.get(1);
    let mut r: Vec<OperandTuple> = Vec::new();
    if seed.len() == 3 {
        let c = seed.get(2);
        r.push(OperandTuple { items: vec![a, b, c] });
        r.push(OperandTuple { items: vec![c, a, b] });
        r.push(OperandTuple { items: vec![a.complement(), b.complement(), c.complement()] });
        r.push(OperandTuple { items: vec![a, im, c] });
        r.push(OperandTuple { items: vec![b, a, im] });
        r.push(OperandTuple { items: vec![a, mx, c] });
        r.push(OperandTuple { items: vec![c, b, mx] });
        r.push(OperandTuple { items: vec![a, um, c] });
        r.push(OperandTuple { items: vec![b, c, um] });
        proof {
            assert(seed.items@ =~= seq![a, b, c]);
            assert(rotated(seed.items@) =~= seq![c, a, b]);
        }
    } else {
        r.push(OperandTuple { items: vec![a, b] });
        r.push(OperandTuple { items: vec![b, a] });
        r.push(OperandTuple { items: vec![a.complement(), b.complement()] });
        r.push(OperandTuple { items: vec![a, im] });
        r.push(OperandTuple { items: vec![b, im] });
        r.push(OperandTuple { items: vec![a, mx] });
        r.push(OperandTuple { items: vec![b, mx] });
        r.push(OperandTuple { items: vec![a, um] });
        r.push(OperandTuple { items: vec![b, um] });
        proof {
            assert(seed.items@ =~= seq![a, b]);
            assert(rotated(seed.items@) =~= seq![b, a]);
        }
    }
    proof {
        let vs = tuples_view(r@);
        assert(vs[0] =~= seed.items@);
        assert forall|k: int|
            0 <= k < 3 implies {
                &&& substituted(#[trigger] vs[3 + 2 * k], seed.items@, 1, edge_constant(k))
                &&& substituted(
                    vs[4 + 2 * k],
                    pair_base(seed.items@, k),
                    seed.items@.len() - 1,
                    edge_constant(k),
                )
            } by {
            if k == 0 {
            } else if k == 1 {
            } else {
            }
        }
    }
    r
}

} // verus!
