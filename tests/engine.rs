use arith_fuzz::codec::{decode_seed, Target};
use arith_fuzz::compare::{compare, Batch, Campaign, ConfigError, Failure, Verdict};
use arith_fuzz::foreign::{decode_reply, marshal, AdapterError};
use arith_fuzz::operand::{Operand, OperandTuple};
use arith_fuzz::ops::Op;
use arith_fuzz::variants::gen_alts;

fn word(v: u64) -> Operand {
    Operand::from_u64(v)
}

fn tuple(vals: &[Operand]) -> OperandTuple {
    OperandTuple { items: vals.to_vec() }
}

fn top_bit() -> Operand {
    let mut bytes = [0u8; 32];
    bytes[0] = 0x80;
    Operand { bytes }
}

#[test]
fn registry_lists_all_ops_in_order() {
    let ops = Op::iterator();
    assert_eq!(ops.len(), 18);
    assert_eq!(ops[0], Op::ADD);
    assert_eq!(ops[3], Op::DIV);
    assert_eq!(ops[15], Op::SAR);
    assert_eq!(ops[16], Op::ADDMOD);
    assert_eq!(ops[17], Op::MULMOD);
}

#[test]
fn high_value_subset() {
    let ops = Op::hv_iter();
    assert_eq!(
        ops,
        vec![Op::DIV, Op::SDIV, Op::MOD, Op::SMOD, Op::EXP, Op::SIGNEXT, Op::SAR, Op::ADDMOD, Op::MULMOD]
    );
}

#[test]
fn arity_of_modular_ops_is_three() {
    for op in Op::iterator() {
        let expected = if op == Op::ADDMOD || op == Op::MULMOD { 3 } else { 2 };
        assert_eq!(op.arity(), expected);
    }
}

#[test]
fn from_u64_is_big_endian() {
    let w = word(0x0102);
    let mut expected = [0u8; 32];
    expected[30] = 1;
    expected[31] = 2;
    assert_eq!(w.bytes, expected);
    let m = word(u64::MAX);
    assert_eq!(&m.bytes[..24], &[0u8; 24][..]);
    assert_eq!(&m.bytes[24..], &[0xffu8; 8][..]);
}

#[test]
fn edge_constants() {
    assert_eq!(Operand::max_value().bytes, [0xffu8; 32]);
    assert_eq!(Operand::zero().bytes, [0u8; 32]);
    let i = Operand::i128_min();
    assert_eq!(&i.bytes[..16], &[0xffu8; 16][..]);
    assert_eq!(i.bytes[16], 0x80);
    assert_eq!(&i.bytes[17..], &[0u8; 15][..]);
}

#[test]
fn complement_flips_every_bit() {
    let c = word(6).complement();
    assert_eq!(&c.bytes[..31], &[0xffu8; 31][..]);
    assert_eq!(c.bytes[31], 0xf9);
    assert_eq!(Operand::zero().complement(), Operand::max_value());
}

#[test]
fn short_inputs_are_skipped() {
    assert!(decode_seed(&[1u8; 9], Target::ThreeOperand).is_none());
    assert!(decode_seed(&[1u8; 1], Target::TwoOperand).is_none());
    assert!(decode_seed(&[], Target::TwoOperand).is_none());
    assert!(decode_seed(&[1u8; 10], Target::ThreeOperand).is_some());
    assert!(decode_seed(&[1u8; 2], Target::TwoOperand).is_some());
}

#[test]
fn seed_is_cut_in_thirds_and_left_aligned() {
    let data: Vec<u8> = (1u8..=10).collect();
    let seed = decode_seed(&data, Target::ThreeOperand).unwrap();
    assert_eq!(seed.items.len(), 3);
    let mut a = [0u8; 32];
    a[..3].copy_from_slice(&[1, 2, 3]);
    let mut b = [0u8; 32];
    b[..3].copy_from_slice(&[4, 5, 6]);
    let mut c = [0u8; 32];
    c[..4].copy_from_slice(&[7, 8, 9, 10]);
    assert_eq!(seed.items[0].bytes, a);
    assert_eq!(seed.items[1].bytes, b);
    assert_eq!(seed.items[2].bytes, c);
}

#[test]
fn long_pieces_keep_their_first_word() {
    let data: Vec<u8> = (0u8..80).collect();
    let seed = decode_seed(&data, Target::TwoOperand).unwrap();
    let first: Vec<u8> = (0u8..32).collect();
    let second: Vec<u8> = (40u8..72).collect();
    assert_eq!(seed.items[0].bytes.to_vec(), first);
    assert_eq!(seed.items[1].bytes.to_vec(), second);
}

#[test]
fn codec_round_trip_on_a_full_word() {
    let o = Operand::i128_min();
    let bytes = o.to_be_bytes();
    assert_eq!(bytes.len(), 32);
    assert_eq!(Operand::from_slice_padded(&bytes), o);
    assert_eq!(decode_reply(Op::ADD, 0, &bytes).unwrap(), o);
    assert_eq!(Operand::from_be_slice(&bytes), o);
}

#[test]
fn variants_of_three_operands() {
    let (a, b, c) = (word(2), word(4), word(6));
    let vs = gen_alts(&tuple(&[a, b, c]));
    let im = Operand::i128_min();
    let mx = Operand::max_value();
    let um = word(u64::MAX);
    let expected = vec![
        vec![a, b, c],
        vec![c, a, b],
        vec![a.complement(), b.complement(), c.complement()],
        vec![a, im, c],
        vec![b, a, im],
        vec![a, mx, c],
        vec![c, b, mx],
        vec![a, um, c],
        vec![b, c, um],
    ];
    let got: Vec<Vec<Operand>> = vs.into_iter().map(|t| t.items).collect();
    assert_eq!(got, expected);
}

#[test]
fn variants_of_two_operands() {
    let (a, b) = (word(2), word(0));
    let vs = gen_alts(&tuple(&[a, b]));
    let im = Operand::i128_min();
    let mx = Operand::max_value();
    let um = word(u64::MAX);
    let expected = vec![
        vec![a, b],
        vec![b, a],
        vec![a.complement(), b.complement()],
        vec![a, im],
        vec![b, im],
        vec![a, mx],
        vec![b, mx],
        vec![a, um],
        vec![b, um],
    ];
    let got: Vec<Vec<Operand>> = vs.into_iter().map(|t| t.items).collect();
    assert_eq!(got, expected);
}

#[test]
fn variant_set_starts_with_seed_and_holds_complement() {
    let seed = tuple(&[word(0), Operand::max_value(), word(77)]);
    let vs = gen_alts(&seed);
    assert_eq!(vs[0].items, seed.items);
    assert!(vs.iter().any(|t| t.items.iter().zip(seed.items.iter()).all(|(x, y)| *x == y.complement())));
}

#[test]
fn marshal_hands_over_words_by_arity() {
    let t = tuple(&[word(2), word(4), word(6)]);
    let two = marshal(Op::ADD, &t);
    assert_eq!(two.len(), 2);
    assert_eq!(two[1], word(4).to_be_bytes());
    let three = marshal(Op::MULMOD, &t);
    assert_eq!(three.len(), 3);
    assert_eq!(three[2][31], 6);
}

#[test]
fn reply_with_nonzero_status_is_a_foreign_failure() {
    let r = decode_reply(Op::DIV, 7, &[1, 2, 3]);
    assert_eq!(r, Err(AdapterError::ForeignFailure { op: Op::DIV, code: 7 }));
    let r = decode_reply(Op::SAR, -1, &[]);
    assert_eq!(r, Err(AdapterError::ForeignFailure { op: Op::SAR, code: -1 }));
}

#[test]
fn reply_longer_than_a_word_is_rejected() {
    let r = decode_reply(Op::MUL, 0, &[0u8; 33]);
    assert_eq!(r, Err(AdapterError::ReplyTooLong { op: Op::MUL, len: 33 }));
}

#[test]
fn short_reply_is_read_big_endian() {
    assert_eq!(decode_reply(Op::ADD, 0, &[6]).unwrap(), word(6));
    assert_eq!(decode_reply(Op::ADD, 0, &[1, 0]).unwrap(), word(256));
    assert_eq!(decode_reply(Op::ADD, 0, &[]).unwrap(), word(0));
}

#[test]
fn add_two_and_four_agree_on_six() {
    let t = tuple(&[word(2), word(4)]);
    let foreign = decode_reply(Op::ADD, 0, &[6]);
    match compare(Op::ADD, &t, word(6), foreign) {
        Ok(Verdict::Agree(v)) => assert_eq!(v, word(6)),
        other => panic!("unexpected {:?}", other),
    }
}

#[test]
fn div_by_zero_agrees_on_zero() {
    let t = tuple(&[word(2), word(0)]);
    let foreign = decode_reply(Op::DIV, 0, &[0]);
    match compare(Op::DIV, &t, word(0), foreign) {
        Ok(Verdict::Agree(v)) => assert_eq!(v, Operand::zero()),
        other => panic!("unexpected {:?}", other),
    }
}

#[test]
fn sar_of_sign_bit_mismatch_is_caught() {
    let t = tuple(&[top_bit(), word(1)]);
    let mut propagated = [0u8; 32];
    propagated[0] = 0xc0;
    let logical = {
        let mut b = [0u8; 32];
        b[0] = 0x40;
        Operand { bytes: b }
    };
    let native = Operand { bytes: propagated };
    let agree = compare(Op::SAR, &t, native, decode_reply(Op::SAR, 0, &propagated));
    assert!(matches!(agree, Ok(Verdict::Agree(v)) if v == native));
    match compare(Op::SAR, &t, native, Ok(logical)) {
        Ok(Verdict::Disagree { op, operands, native: n, foreign: f }) => {
            assert_eq!(op, Op::SAR);
            assert_eq!(operands.items, t.items);
            assert_eq!(n, native);
            assert_eq!(f, logical);
        }
        other => panic!("unexpected {:?}", other),
    }
}

#[test]
fn mulmod_of_two_four_six_agrees_on_two() {
    let t = tuple(&[word(2), word(4), word(6)]);
    let foreign = decode_reply(Op::MULMOD, 0, &[2]);
    match compare(Op::MULMOD, &t, word(2), foreign) {
        Ok(Verdict::Agree(v)) => assert_eq!(v, word(2)),
        other => panic!("unexpected {:?}", other),
    }
}

#[test]
fn compare_passes_foreign_errors_on() {
    let t = tuple(&[word(1), word(1)]);
    let e = AdapterError::ForeignFailure { op: Op::EXP, code: 3 };
    assert!(matches!(compare(Op::EXP, &t, word(1), Err(e)), Err(x) if x == e));
}

#[test]
fn three_operand_ops_are_rejected_for_two_operand_target() {
    match Campaign::new(Target::TwoOperand, Op::iterator()) {
        Err(ConfigError::ArityMismatch { op, width }) => {
            assert_eq!(op, Op::ADDMOD);
            assert_eq!(width, 2);
        }
        Ok(_) => panic!("configuration accepted"),
    }
    assert!(Campaign::new(Target::TwoOperand, vec![Op::ADD, Op::SAR]).is_ok());
    assert!(Campaign::new(Target::ThreeOperand, Op::iterator()).is_ok());
}

fn ternary_batch() -> Batch {
    let campaign = Campaign::new(Target::ThreeOperand, Op::iterator()).ok().unwrap();
    assert!(campaign.start(&[0u8; 9]).is_none());
    let data = [0u8, 0, 2, 0, 0, 4, 0, 0, 0, 6];
    campaign.start(&data).unwrap()
}

#[test]
fn agreeing_batch_visits_every_case_in_order() {
    let mut batch = ternary_batch();
    let mut seen = 0usize;
    while let Some((op, t)) = batch.next_case() {
        assert_eq!(op, Op::iterator()[seen / 9]);
        assert_eq!(t.items.len(), 3);
        let v = t.items[0];
        batch.record(v, Ok(v));
        seen += 1;
    }
    assert_eq!(seen, 18 * 9);
    assert!(batch.is_finished());
    assert!(batch.into_outcome().is_ok());
}

#[test]
fn mismatch_stops_the_batch() {
    let mut batch = ternary_batch();
    batch.record(word(1), Ok(word(1)));
    let (op, t) = batch.next_case().unwrap();
    assert_eq!(op, Op::ADD);
    batch.record(word(1), Ok(word(2)));
    assert!(batch.is_finished());
    assert!(batch.next_case().is_none());
    match batch.into_outcome() {
        Err(Failure::Mismatch { op: o, operands, native, foreign }) => {
            assert_eq!(o, Op::ADD);
            assert_eq!(operands.items, t.items);
            assert_eq!(native, word(1));
            assert_eq!(foreign, word(2));
        }
        other => panic!("unexpected {:?}", other),
    }
}

#[test]
fn nonzero_status_is_reported_as_adapter_failure() {
    let mut batch = ternary_batch();
    let (op, t) = batch.next_case().unwrap();
    let foreign = decode_reply(op, 5, &[]);
    batch.record(word(6), foreign);
    match batch.into_outcome() {
        Err(Failure::Adapter { operands, error }) => {
            assert_eq!(operands.items, t.items);
            assert_eq!(error, AdapterError::ForeignFailure { op: Op::ADD, code: 5 });
        }
        other => panic!("unexpected {:?}", other),
    }
}

#[test]
fn same_outcomes_give_same_batch_state() {
    let mut first = ternary_batch();
    let mut second = ternary_batch();
    for step in 0..12u64 {
        let native = word(step);
        let foreign = if step == 11 { Ok(word(step + 1)) } else { Ok(word(step)) };
        first.record(native, foreign);
        second.record(native, foreign);
        assert_eq!(first.op_pos, second.op_pos);
        assert_eq!(first.case_pos, second.case_pos);
    }
    assert_eq!((first.op_pos, first.case_pos), (1, 2));
    match (first.into_outcome(), second.into_outcome()) {
        (Err(Failure::Mismatch { foreign: f1, .. }), Err(Failure::Mismatch { foreign: f2, .. })) => {
            assert_eq!(f1, f2);
            assert_eq!(f1, word(12));
        }
        _ => panic!("both batches should stop on the same mismatch"),
    }
}
