use vstd::prelude::*;

use crate::codec::{decode_seed, seed_word, Target};
use crate::foreign::{reply_meaning, AdapterError};
use crate::operand::{Operand, OperandTuple};
use crate::ops::Op;
use crate::variants::{gen_alts, is_variant_set, tuples_view};

verus! {

/// What comparing the two oracles on one case found.
#[derive(Debug)]
pub enum Verdict {
    /// Both oracles returned this value.
    Agree(Operand),
    /// Both oracles returned, with different values.
    Disagree { op: Op, operands: OperandTuple, native: Operand, foreign: Operand },
}

/// Why a batch stopped before its last case.
#[derive(Debug)]
pub enum Failure {
    /// Both oracles returned, with different values.
    Mismatch { op: Op, operands: OperandTuple, native: Operand, foreign: Operand },
    /// The foreign oracle itself failed on these operands.
    Adapter { operands: OperandTuple, error: AdapterError },
}

/// A registry subset that cannot run on the configured operand count.
#[derive(Debug, Clone, Copy, PartialEq, Eq, Structural)]
pub enum ConfigError {
    /// `op` reads more operands than each tuple holds.
    ArityMismatch { op: Op, width: usize },
}

/// Compares the native oracle's value with the foreign oracle's outcome for
/// `op` on `operands`. A foreign failure is passed on as it is; two values
/// agree when they are equal in every bit.
pub fn compare(
    op: Op,
    operands: &OperandTuple,
    native: Operand,
    foreign: Result<Operand, AdapterError>,
) -> (r: Result<Verdict, AdapterError>)
    ensures
        foreign matches Err(e) ==> r == Err::<Verdict, AdapterError>(e),
        foreign matches Ok(f) ==> (f.bytes@ == native.bytes@ <==> r == Ok::<Verdict, AdapterError>(
            Verdict::Agree(native),
        )),
        foreign matches Ok(f) ==> (f.bytes@ != native.bytes@ <==> (r matches Ok(
            Verdict::Disagree { op: o, operands: t, native: n, foreign: g },
        ) && o == op && t.items@ == operands.items@ && n == native && g == f)),
{
    match foreign {
        Err(e) => Err(e),
        Ok(f) => {
            if f == native {
                Ok(Verdict::Agree(native))
            } else {
                Ok(Verdict::Disagree { op, operands: operands.duplicate(), native, foreign: f })
            }
        },
    }
}

/// Where a batch goes after the case at (`op_pos`, `case_pos`) agreed: the
/// next variant of the same operation, or the first variant of the next.
pub open spec fn next_position(op_pos: nat, case_pos: nat, n_cases: nat) -> (nat, nat) {
    if case_pos + 1 < n_cases {
        (op_pos, case_pos + 1)
    } else {
        (op_pos + 1, 0)
    }
}

/// How recording `native` and `foreign` on the current case of `before`
/// leaves the batch: a foreign failure or a mismatch is kept as the batch's
/// failure at the same position, and agreement moves to the next case.
pub open spec fn recorded(
    before: Batch,
    native: Operand,
    foreign: Result<Operand, AdapterError>,
    after: Batch,
) -> bool {
    &&& after.wf()
    &&& after.seed == before.seed
    &&& after.ops@ == before.ops@
    &&& after.cases@ == before.cases@
    &&& foreign matches Err(e) ==> {
        &&& after.op_pos == before.op_pos
        &&& after.case_pos == before.case_pos
        &&& after.failure matches Some(Failure::Adapter { operands, error })
        &&& operands.items@ == before.current_operands()
        &&& error == e
    }
    &&& foreign matches Ok(f) ==> f.bytes@ == native.bytes@ ==> {
        &&& after.failure is None
        &&& (after.op_pos as nat, after.case_pos as nat) == next_position(
            before.op_pos as nat,
            before.case_pos as nat,
            before.cases@.len(),
        )
    }
    &&& foreign matches Ok(f) ==> f.bytes@ != native.bytes@ ==> {
        &&& after.op_pos == before.op_pos
        &&& after.case_pos == before.case_pos
        &&& after.failure matches Some(Failure::Mismatch { op, operands, native: n, foreign: g })
        &&& op == before.current_op()
        &&& operands.items@ == before.current_operands()
        &&& n == native
        &&& g == f
    }
}

/// A nonzero status from the foreign routine is read as a foreign failure
/// with that code, and recording it stops the batch with an adapter
/// failure, never with a value mismatch.
pub proof fn lemma_foreign_status_is_adapter_failure(
    status: i32,
    reply: Seq<u8>,
    native: Operand,
    before: Batch,
    after: Batch,
)
    requires
        status != 0,
        before.wf(),
        !before.spec_is_finished(),
        recorded(
            before,
            native,
            Err((AdapterError::ForeignFailure { op: before.current_op(), code: status })),
            after,
        ),
    ensures
        reply_meaning(before.current_op(), status, reply) == Err::<nat, AdapterError>(
            (AdapterError::ForeignFailure { op: before.current_op(), code: status }),
        ),
        (after.failure matches Some(Failure::Adapter { operands, error }) && error
            == (AdapterError::ForeignFailure { op: before.current_op(), code: status })
            && operands.items@ == before.current_operands()),
        (after.failure matches Some(f) ==> (f !is Mismatch)),
{
}

/// No hidden state: recording the same outcomes on the same batch always
/// leads to the same position and the same failure, operand for operand.
pub proof fn lemma_record_is_deterministic(
    before: Batch,
    native: Operand,
    foreign: Result<Operand, AdapterError>,
    a1: Batch,
    a2: Batch,
)
    requires
        before.wf(),
        !before.spec_is_finished(),
        recorded(before, native, foreign, a1),
        recorded(before, native, foreign, a2),
    ensures
        a1.op_pos == a2.op_pos,
        a1.case_pos == a2.case_pos,
        a1.failure is None <==> a2.failure is None,
        (a1.failure matches Some(Failure::Adapter { operands: t1, error: e1 }) ==> (a2.failure matches Some(
            Failure::Adapter { operands: t2, error: e2 },
        ) && t1.items@ == t2.items@ && e1 == e2)),
        (a1.failure matches Some(Failure::Mismatch { op: o1, operands: t1, native: n1, foreign: f1 })
            ==> (a2.failure matches Some(Failure::Mismatch { op: o2, operands: t2, native: n2, foreign: f2 })
            && o1 == o2 && t1.items@ == t2.items@ && n1 == n2 && f1 == f2)),
{
}

/// One fuzz iteration: every operation of a registry subset, run over every
/// variant of one seed, operation by operation, stopping at the first case
/// where the oracles do not agree.
pub struct Batch {
    pub seed: OperandTuple,
    pub ops: Vec<Op>,
    pub cases: Vec<OperandTuple>,
    pub op_pos: usize,
    pub case_pos: usize,
    pub failure: Option<Failure>,
}

impl Batch {
    /// The variants as sequences of operands.
    pub open spec fn case_seqs(&self) -> Seq<Seq<Operand>> {
        tuples_view(self.cases@)
    }

    pub open spec fn wf(&self) -> bool {
        &&& self.cases@.len() > 0
        &&& self.op_pos <= self.ops@.len()
        &&& self.case_pos < self.cases@.len()
        &&& self.failure is Some ==> self.op_pos < self.ops@.len()
        &&& forall|i: int, j: int|
            0 <= i < self.ops@.len() && 0 <= j < self.cases@.len() ==> (#[trigger] self.ops@[i]).spec_arity()
                <= (#[trigger] self.cases@[j]).width()
    }

    /// Nothing is left to evaluate: a case failed or every case agreed.
    pub open spec fn spec_is_finished(&self) -> bool {
        self.failure is Some || self.op_pos == self.ops@.len()
    }

    /// The operation of the case to evaluate next.
    pub open spec fn current_op(&self) -> Op {
        self.ops@[self.op_pos as int]
    }

    /// The operands of the case to evaluate next.
    pub open spec fn current_operands(&self) -> Seq<Operand> {
        self.cases@[self.case_pos as int].items@
    }

    #[verifier::when_used_as_spec(spec_is_finished)]
    pub fn is_finished(&self) -> (r: bool)
        requires
            self.wf(),
        ensures
            r == self.spec_is_finished(),
    {
        self.failure.is_some() || self.op_pos == self.ops.len()
    }

    /// The case to evaluate next, or `None` once the batch is finished.
    pub fn next_case(&self) -> (r: Option<(Op, OperandTuple)>)
        requires
            self.wf(),
        ensures
            self.spec_is_finished() <==> r is None,
            r matches Some((op, t)) ==> op == self.current_op() && t.items@ == self.current_operands()
                && op.spec_arity() <= t.width(),
    {
        if self.is_finished() {
            None
        } else {
            let t = self.cases[self.case_pos].duplicate();
            Some((self.ops[self.op_pos], t))
        }
    }

    /// Records both oracles' outcomes for the current case. Agreement moves
    /// on to the next case; a mismatch or a foreign failure ends the batch.
    pub fn record(&mut self, native: Operand, foreign: Result<Operand, AdapterError>)
        requires
            old(self).wf(),
            !old(self).spec_is_finished(),
        ensures
            recorded(*old(self), native, foreign, *final(self)),
    {
        let op = self.ops[self.op_pos];
        let verdict = compare(op, &self.cases[self.case_pos], native, foreign);
        match verdict {
            Err(e) => {
                let operands = self.cases[self.case_pos].duplicate();
                self.failure = Some(Failure::Adapter { operands, error: e });
            },
            Ok(Verdict::Disagree { op, operands, native, foreign }) => {
                self.failure = Some(Failure::Mismatch { op, operands, native, foreign });
            },
            Ok(Verdict::Agree(_)) => {
                let n_cases = self.cases.len();
                let n_ops = self.ops.len();
                assert(self.op_pos < n_ops);
                if self.case_pos + 1 < n_cases {
                    self.case_pos = self.case_pos + 1;
                } else {
                    self.op_pos = self.op_pos + 1;
                    self.case_pos = 0;
                }
            },
        }
    }

    /// How the batch ended: `Ok` when every case agreed, else the failure
    /// that stopped it.
    pub fn into_outcome(self) -> (r: Result<(), Failure>)
        requires
            self.wf(),
            self.spec_is_finished(),
        ensures
            self.failure is None <==> r is Ok,
            self.failure matches Some(f) ==> r == Err::<(), Failure>(f),
    {
        match self.failure {
            Some(f) => Err(f),
            None => Ok(()),
        }
    }
}

/// Copies a list of operations.
fn copy_ops(ops: &Vec<Op>) -> (r: Vec<Op>)
    ensures
        r@ == ops@,
{
    let mut r: Vec<Op> = Vec::new();
    let mut i: usize = 0;
    while i < ops.len()
        invariant
            i <= ops@.len(),
            r@ == ops@.subrange(0, i as int),
        decreases ops@.len() - i,
    {
        r.push(ops[i]);
        i = i + 1;
    }
    assert(r@ =~= ops@);
    r
}

/// A fuzz campaign: how many operands each input yields, and the registry
/// subset run on each of them.
pub struct Campaign {
    pub target: Target,
    pub ops: Vec<Op>,
}

/// Every operation of `ops` reads no more than `width` operands.
pub open spec fn arities_fit(ops: Seq<Op>, width: nat) -> bool {
    forall|i: int| 0 <= i < ops.len() ==> (#[trigger] ops[i]).spec_arity() <= width
}

impl Campaign {
    pub open spec fn wf(&self) -> bool {
        arities_fit(self.ops@, self.target.spec_width() as nat)
    }

    /// Checks the configuration once, before any input: an operation that
    /// reads more operands than the target decodes is rejected.
    pub fn new(target: Target, ops: Vec<Op>) -> (r: Result<Campaign, ConfigError>)
        ensures
            r is Ok <==> arities_fit(ops@, target.spec_width() as nat),
            r matches Ok(c) ==> c.target == target && c.ops@ == ops@,
            r matches Err(ConfigError::ArityMismatch { op, width }) ==> {
                &&& ops@.contains(op)
                &&& width == target.spec_width()
                &&& op.spec_arity() > width
            },
    {
        let width = target.width();
        let mut i: usize = 0;
        while i < ops.len()
            invariant
                width == target.spec_width(),
                i <= ops@.len(),
                arities_fit(ops@.subrange(0, i as int), width as nat),
            decreases ops@.len() - i,
        {
            let op = ops[i];
            if op.arity() > width {
                return Err(ConfigError::ArityMismatch { op, width });
            }
            proof {
                assert forall|j: int| 0 <= j < i + 1 implies (#[trigger] ops@.subrange(
                    0,
                    i + 1,
                )[j]).spec_arity() <= width by {
                    if j < i {
                        assert(ops@.subrange(0, i + 1)[j] == ops@.subrange(0, i as int)[j]);
                    }
                }
            }
            i = i + 1;
        }
        assert(ops@.subrange(0, ops@.len() as int) =~= ops@);
        Ok(Campaign { target, ops })
    }

    /// Leaves the idle state with one input: decodes the seed, expands it
    /// into its variants and sets up the batch at its first case. `None`
    /// when the input is too short, and the iteration is skipped.
    pub fn start(&self, data: &[u8]) -> (r: Option<Batch>)
        requires
            self.wf(),
        ensures
            r is None <==> data@.len() < self.target.spec_min_input_len(),
            r matches Some(b) ==> {
                &&& b.wf()
                &&& b.ops@ == self.ops@
                &&& b.op_pos == 0
                &&& b.case_pos == 0
                &&& b.failure is None
                &&& b.seed.width() == self.target.spec_width()
                &&& forall|i: int|
                    0 <= i < b.seed.width() ==> (#[trigger] b.seed.items@[i]).bytes@ == seed_word(
                        data@,
                        self.target.spec_width() as nat,
                        i as nat,
                    )
                &&& is_variant_set(b.seed.items@, b.case_seqs())
            },
    {
        match decode_seed(data, self.target) {
            None => None,
            Some(seed) => {
                let cases = gen_alts(&seed);
                let ops = copy_ops(&self.ops);
                let b = Batch { seed, ops, cases, op_pos: 0, case_pos: 0, failure: None };
                proof {
                    assert(tuples_view(b.cases@).len() == 9);
                }
                Some(b)
            },
        }
    }
}

} // verus!
