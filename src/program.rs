//! The exponential engine as a program of steps over five named buffers,
//! built here and proved correct against a symbolic reading of each buffer;
//! a numeric back end only has to carry out the steps.
use crate::pade::{
    degree_in_range, is_term_sequence, pade_terms, pade_terms_2x2, Coefficient, ExpmError,
    PadeTerm, MAX_DEGREE, MAX_DEGREE_2X2,
};
use crate::scaling::squaring_plan;
use vstd::prelude::*;

verus! {

/// The engine's working matrices. `Num` and `Den` start as the identity and
/// `Num` holds the result at the end.
#[derive(Clone, Copy, Debug, PartialEq, Eq, Structural)]
pub enum Buffer {
    Num,
    Den,
    Power,
    Scratch,
    Base,
}

/// One step of the engine.
#[derive(Clone, Copy, Debug, PartialEq, Eq, Structural)]
pub enum Step {
    /// `Base = Power = A / 2^exponent`.
    ScaleInput { exponent: u32 },
    /// `target += ±coefficient · source`, with `-` when `negate` holds.
    Accumulate { target: Buffer, source: Buffer, coefficient: Coefficient, negate: bool },
    /// `out = left · right`.
    Multiply { left: Buffer, right: Buffer, out: Buffer },
    /// `Num = Den⁻¹ · Num`.
    Solve,
    /// Exchanges the contents of two buffers.
    Swap { a: Buffer, b: Buffer },
}

/// What a buffer holds, in terms of `A_s = A / 2^s`.
pub enum Content {
    /// Nothing the engine relies on.
    Unset,
    /// `A_s^k`.
    Power(nat),
    /// `I + Σ ±c·A_s^k` over its terms `(k, c, negated)`.
    Series(Seq<(nat, Coefficient, bool)>),
    /// `(Q⁻¹·P)^(2^j)` for the series `P` and `Q`.
    Quotient(Seq<(nat, Coefficient, bool)>, Seq<(nat, Coefficient, bool)>, nat),
}

pub struct Machine {
    pub num: Content,
    pub den: Content,
    pub power: Content,
    pub scratch: Content,
    pub base: Content,
}

pub open spec fn get(m: Machine, b: Buffer) -> Content {
    match b {
        Buffer::Num => m.num,
        Buffer::Den => m.den,
        Buffer::Power => m.power,
        Buffer::Scratch => m.scratch,
        Buffer::Base => m.base,
    }
}

pub open spec fn set(m: Machine, b: Buffer, c: Content) -> Machine {
    match b {
        Buffer::Num => Machine { num: c, ..m },
        Buffer::Den => Machine { den: c, ..m },
        Buffer::Power => Machine { power: c, ..m },
        Buffer::Scratch => Machine { scratch: c, ..m },
        Buffer::Base => Machine { base: c, ..m },
    }
}

/// Product of two contents: powers add, and a quotient power times itself
/// doubles its exponent of two; any other product is not relied on.
pub open spec fn product(l: Content, r: Content) -> Content {
    match (l, r) {
        (Content::Power(a), Content::Power(b)) => Content::Power(a + b),
        (Content::Quotient(p, q, j), Content::Quotient(p2, q2, j2)) => if p == p2 && q == q2 && j
            == j2 {
            Content::Quotient(p, q, j + 1)
        } else {
            Content::Unset
        },
        _ => Content::Unset,
    }
}

/// The effect of one step. A product whose output is one of its operands
/// is not relied on: the back ends need distinct buffers.
pub open spec fn step_effect(m: Machine, st: Step) -> Machine {
    match st {
        Step::ScaleInput { .. } => set(set(m, Buffer::Base, Content::Power(1)), Buffer::Power, Content::Power(1)),
        Step::Accumulate { target, source, coefficient, negate } => match (get(m, target), get(m, source)) {
            (Content::Series(ts), Content::Power(k)) => set(
                m,
                target,
                Content::Series(ts.push((k, coefficient, negate))),
            ),
            _ => set(m, target, Content::Unset),
        },
        Step::Multiply { left, right, out } => if out == left || out == right {
            set(m, out, Content::Unset)
        } else {
            set(m, out, product(get(m, left), get(m, right)))
        },
        Step::Solve => match (m.num, m.den) {
            (Content::Series(p), Content::Series(q)) => Machine { num: Content::Quotient(p, q, 0), ..m },
            _ => Machine { num: Content::Unset, ..m },
        },
        Step::Swap { a, b } => set(set(m, a, get(m, b)), b, get(m, a)),
    }
}

/// The state after running `prog` from `m`.
pub open spec fn run(m: Machine, prog: Seq<Step>) -> Machine
    decreases prog.len(),
{
    if prog.len() == 0 {
        m
    } else {
        step_effect(run(m, prog.drop_last()), prog.last())
    }
}

/// `Num` and `Den` are the identity; the rest hold nothing yet.
pub open spec fn initial() -> Machine {
    Machine {
        num: Content::Series(Seq::empty()),
        den: Content::Series(Seq::empty()),
        power: Content::Unset,
        scratch: Content::Unset,
        base: Content::Unset,
    }
}

/// `ts` is the Padé numerator series of degree `p` (terms `c_k A_s^k`), or,
/// with `for_den`, the denominator series (terms `(-1)^k c_k A_s^k`).
pub open spec fn is_pade_series(ts: Seq<(nat, Coefficient, bool)>, p: nat, for_den: bool) -> bool {
    &&& ts.len() == p
    &&& forall|i: int|
        0 <= i < p ==> {
            &&& (#[trigger] ts[i]).0 == i + 1
            &&& ts[i].1.is_pade(p, (i + 1) as nat)
            &&& ts[i].2 == (for_den && (i + 1) % 2 == 1)
        }
}

/// Every product writes to a buffer other than its operands.
pub open spec fn products_unaliased(prog: Seq<Step>) -> bool {
    forall|i: int|
        0 <= i < prog.len() ==> match #[trigger] prog[i] {
            Step::Multiply { left, right, out } => out != left && out != right,
            _ => true,
        }
}

/// `prog` scales the input by `2^-s` once, first; running it from the
/// identity pair leaves `(Q⁻¹·P)^(2^s)` in `Num`, where `P` and `Q` are the
/// degree-`p` Padé numerator and denominator in `A_s = A / 2^s`: the
/// scaling-and-squaring approximant of `exp(A)`.
pub open spec fn computes_exponential(prog: Seq<Step>, p: nat, s: nat) -> bool {
    &&& prog.len() > 0
    &&& prog[0] == (Step::ScaleInput { exponent: s as u32 })
    &&& forall|i: int| 0 < i < prog.len() ==> !(#[trigger] prog[i] is ScaleInput)
    &&& products_unaliased(prog)
    &&& match run(initial(), prog).num {
        Content::Quotient(num, den, j) => {
            &&& j == s
            &&& is_pade_series(num, p, false)
            &&& is_pade_series(den, p, true)
        },
        _ => false,
    }
}

proof fn lemma_run_push(m: Machine, prog: Seq<Step>, st: Step)
    ensures
        run(m, prog.push(st)) == step_effect(run(m, prog), st),
{
    assert(prog.push(st).drop_last() =~= prog);
}

/// The program for the terms `terms` of degree `p` and scaling exponent `s`.
fn build_program(terms: &Vec<PadeTerm>, Ghost(p): Ghost<nat>, s: u32) -> (prog: Vec<Step>)
    requires
        1 <= p <= MAX_DEGREE,
        is_term_sequence(terms@, p),
    ensures
        computes_exponential(prog@, p, s as nat),
{
    let mut prog: Vec<Step> = Vec::new();
    let scale = Step::ScaleInput { exponent: s };
    prog.push(scale);
    proof {
        lemma_run_push(initial(), Seq::empty(), scale);
        assert(prog@ =~= Seq::<Step>::empty().push(scale));
    }
    let mut i: usize = 0;
    while i < terms.len()
        invariant
            i <= terms@.len() == p <= MAX_DEGREE,
            is_term_sequence(terms@, p),
            products_unaliased(prog@),
            prog@.len() > 0,
            prog@[0] == (Step::ScaleInput { exponent: s }),
            forall|k: int| 0 < k < prog@.len() ==> !(#[trigger] prog@[k] is ScaleInput),
            ({
                let st = run(initial(), prog@);
                &&& st.base == Content::Power(1)
                &&& st.power == Content::Power(if i == 0 { 1 } else { i as nat })
                &&& st.num matches Content::Series(ns) && ns.len() == i && forall|t: int|
                    0 <= t < i ==> {
                        &&& (#[trigger] ns[t]).0 == t + 1
                        &&& ns[t].1.is_pade(p, (t + 1) as nat)
                        &&& !ns[t].2
                    }
                &&& st.den matches Content::Series(ds) && ds.len() == i && forall|t: int|
                    0 <= t < i ==> {
                        &&& (#[trigger] ds[t]).0 == t + 1
                        &&& ds[t].1.is_pade(p, (t + 1) as nat)
                        &&& ds[t].2 == ((t + 1) % 2 == 1)
                    }
            }),
        decreases terms@.len() - i,
    {
        let term = terms[i];
        assert(term.is_term(p, (i + 1) as nat));
        if i > 0 {
            let mul = Step::Multiply { left: Buffer::Base, right: Buffer::Power, out: Buffer::Scratch };
            let swap = Step::Swap { a: Buffer::Power, b: Buffer::Scratch };
            proof {
                lemma_run_push(initial(), prog@, mul);
                lemma_run_push(initial(), prog@.push(mul), swap);
            }
            prog.push(mul);
            prog.push(swap);
        }
        let to_num = Step::Accumulate {
            target: Buffer::Num,
            source: Buffer::Power,
            coefficient: term.coefficient,
            negate: false,
        };
        let to_den = Step::Accumulate {
            target: Buffer::Den,
            source: Buffer::Power,
            coefficient: term.coefficient,
            negate: term.negate_in_q,
        };
        proof {
            lemma_run_push(initial(), prog@, to_num);
            lemma_run_push(initial(), prog@.push(to_num), to_den);
        }
        prog.push(to_num);
        prog.push(to_den);
        i = i + 1;
    }
    proof {
        lemma_run_push(initial(), prog@, Step::Solve);
    }
    prog.push(Step::Solve);
    let plan = squaring_plan(s);
    let mut d: u32 = 0;
    while d < plan.double_squarings
        invariant
            d <= plan.double_squarings,
            plan.double_squarings == s / 2,
            products_unaliased(prog@),
            prog@.len() > 0,
            prog@[0] == (Step::ScaleInput { exponent: s }),
            forall|k: int| 0 < k < prog@.len() ==> !(#[trigger] prog@[k] is ScaleInput),
            run(initial(), prog@).num matches Content::Quotient(ns, ds, j) && j == 2 * d
                && is_pade_series(ns, p, false) && is_pade_series(ds, p, true),
        decreases plan.double_squarings - d,
    {
        let first = Step::Multiply { left: Buffer::Num, right: Buffer::Num, out: Buffer::Scratch };
        let second = Step::Multiply { left: Buffer::Scratch, right: Buffer::Scratch, out: Buffer::Num };
        proof {
            lemma_run_push(initial(), prog@, first);
            lemma_run_push(initial(), prog@.push(first), second);
        }
        prog.push(first);
        prog.push(second);
        d = d + 1;
    }
    if plan.final_squaring {
        let last = Step::Multiply { left: Buffer::Num, right: Buffer::Num, out: Buffer::Scratch };
        let swap = Step::Swap { a: Buffer::Num, b: Buffer::Scratch };
        proof {
            lemma_run_push(initial(), prog@, last);
            lemma_run_push(initial(), prog@.push(last), swap);
        }
        prog.push(last);
        prog.push(swap);
    }
    prog
}

/// The program of the dense and triangular engines for degree `p` and
/// scaling exponent `s`; a degree outside `[2, 7]` is reported and no program
/// is built.
pub fn expm_program(p: i32, s: u32) -> (r: Result<Vec<Step>, ExpmError>)
    ensures
        match r {
            Ok(prog) => degree_in_range(p as int) && computes_exponential(prog@, p as nat, s as nat),
            Err(e) => !degree_in_range(p as int) && e == ExpmError::DegreeOutOfRange(p),
        },
{
    match pade_terms(p) {
        Ok(terms) => Ok(build_program(&terms, Ghost(p as nat), s)),
        Err(e) => Err(e),
    }
}

/// The program of the 2×2 engine, whose table runs from degree 1 to 6.
pub fn expm_program_2x2(p: u32, s: u32) -> (prog: Vec<Step>)
    requires
        1 <= p <= MAX_DEGREE_2X2,
    ensures
        computes_exponential(prog@, p as nat, s as nat),
{
    let terms = pade_terms_2x2(p);
    build_program(&terms, Ghost(p as nat), s)
}

} // verus!
