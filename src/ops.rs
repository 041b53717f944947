use vstd::prelude::*;

verus! {

/// The operations that both oracles implement, in registry order.
#[derive(Debug, Clone, Copy, PartialEq, Eq, Structural)]
pub enum Op {
    ADD,
    SUB,
    MUL,
    DIV,
    SDIV,
    MOD,
    SMOD,
    EXP,
    SIGNEXT,
    LT,
    GT,
    EQ,
    BYTE,
    SHL,
    SHR,
    SAR,
    ADDMOD,
    MULMOD,
}

/// Every supported operation, in the order in which a campaign runs them.
pub open spec fn all_ops() -> Seq<Op> {
    seq![
        Op::ADD,
        Op::SUB,
        Op::MUL,
        Op::DIV,
        Op::SDIV,
        Op::MOD,
        Op::SMOD,
        Op::EXP,
        Op::SIGNEXT,
        Op::LT,
        Op::GT,
        Op::EQ,
        Op::BYTE,
        Op::SHL,
        Op::SHR,
        Op::SAR,
        Op::ADDMOD,
        Op::MULMOD,
    ]
}

/// The operations whose algorithms are the hardest to get right.
pub open spec fn high_value_ops() -> Seq<Op> {
    seq![
        Op::DIV,
        Op::SDIV,
        Op::MOD,
        Op::SMOD,
        Op::EXP,
        Op::SIGNEXT,
        Op::SAR,
        Op::ADDMOD,
        Op::MULMOD,
    ]
}

impl Op {
    /// Number of operands the operation reads.
    pub open spec fn spec_arity(self) -> usize {
        match self {
            Op::ADDMOD | Op::MULMOD => 3,
            _ => 2,
        }
    }

    #[verifier::when_used_as_spec(spec_arity)]
    pub fn arity(self) -> (r: usize)
        ensures
            r == self.spec_arity(),
    {
        match self {
            Op::ADDMOD | Op::MULMOD => 3,
            _ => 2,
        }
    }

    /// The full registry, in order.
    pub fn iterator() -> (r: Vec<Op>)
        ensures
            r@ == all_ops(),
    {
        let r = vec![
            Op::ADD,
            Op::SUB,
            Op::MUL,
            Op::DIV,
            Op::SDIV,
            Op::MOD,
            Op::SMOD,
            Op::EXP,
            Op::SIGNEXT,
            Op::LT,
            Op::GT,
            Op::EQ,
            Op::BYTE,
            Op::SHL,
            Op::SHR,
            Op::SAR,
            Op::ADDMOD,
            Op::MULMOD,
        ];
        assert(r@ =~= all_ops());
        r
    }

    /// The high-value subset of the registry, in order.
    pub fn hv_iter() -> (r: Vec<Op>)
        ensures
            r@ == high_value_ops(),
    {
        let r = vec![
            Op::DIV,
            Op::SDIV,
            Op::MOD,
            Op::SMOD,
            Op::EXP,
            Op::SIGNEXT,
            Op::SAR,
            Op::ADDMOD,
            Op::MULMOD,
        ];
        assert(r@ =~= high_value_ops());
        r
    }
}

} // verus!
