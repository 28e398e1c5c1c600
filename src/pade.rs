//! The Padé coefficient table and the term sequence that builds the
//! numerator `P` and denominator `Q` of the rational approximation.
use vstd::prelude::*;

verus! {

/// Smallest degree the dense and triangular engines accept.
pub const MIN_DEGREE: u32 = 2;

/// Largest degree the dense and triangular engines accept.
pub const MAX_DEGREE: u32 = 7;

/// Largest degree of the 2×2 engine's coefficient table.
pub const MAX_DEGREE_2X2: u32 = 6;

pub open spec fn factorial(n: nat) -> nat
    decreases n,
{
    if n == 0 {
        1
    } else {
        n * factorial((n - 1) as nat)
    }
}

/// Numerator of the `k`-th Padé coefficient of degree `p`:
/// `c_k = (2p-k)! p! / ((2p)! k! (p-k)!)`.
pub open spec fn pade_numer(p: nat, k: nat) -> nat {
    factorial((2 * p - k) as nat) * factorial(p)
}

/// Denominator of the `k`-th Padé coefficient of degree `p`.
pub open spec fn pade_denom(p: nat, k: nat) -> nat {
    factorial(2 * p) * factorial(k) * factorial((p - k) as nat)
}

/// A positive rational number `numer / denom`.
#[derive(Clone, Copy, Debug, PartialEq, Eq, Structural)]
pub struct Coefficient {
    pub numer: u64,
    pub denom: u64,
}

impl Coefficient {
    /// This fraction equals the `k`-th Padé coefficient of degree `p`.
    pub open spec fn is_pade(self, p: nat, k: nat) -> bool {
        &&& self.denom > 0
        &&& self.numer * pade_denom(p, k) == self.denom * pade_numer(p, k)
    }
}

/// Errors that a caller of the exponential engine is expected to handle.
#[derive(Clone, Copy, Debug, PartialEq, Eq, Structural)]
pub enum ExpmError {
    /// The Padé degree has no entry in the coefficient table.
    DegreeOutOfRange(i32),
    /// The dense solver met an exactly zero pivot at this (1-based) position.
    SingularSystem(isize),
    /// The dense solver rejected its argument at this (1-based) position.
    IllegalSolverArgument(isize),
}

/// One correction term `c_k · A_s^k` of the Padé pair: it is added to `P`,
/// and added to `Q` with sign `(-1)^k`.
#[derive(Clone, Copy, Debug, PartialEq, Eq, Structural)]
pub struct PadeTerm {
    pub power: u32,
    pub coefficient: Coefficient,
    pub negate_in_q: bool,
}

impl PadeTerm {
    pub open spec fn is_term(self, p: nat, k: nat) -> bool {
        &&& self.power == k
        &&& self.coefficient.is_pade(p, k)
        &&& self.negate_in_q == (k % 2 == 1)
    }
}

/// The full term sequence `c_1 A_s, ..., c_p A_s^p` of degree `p`.
pub open spec fn is_term_sequence(terms: Seq<PadeTerm>, p: nat) -> bool {
    &&& terms.len() == p
    &&& forall|i: int| 0 <= i < p ==> (#[trigger] terms[i]).is_term(p, (i + 1) as nat)
}

pub open spec fn degree_in_range(p: int) -> bool {
    MIN_DEGREE <= p <= MAX_DEGREE
}

spec fn pow_nat(b: nat, e: nat) -> nat
    decreases e,
{
    if e == 0 {
        1
    } else {
        b * pow_nat(b, (e - 1) as nat)
    }
}

proof fn lemma_factorial_positive(n: nat)
    ensures
        factorial(n) > 0,
    decreases n,
{
    if n > 0 {
        lemma_factorial_positive((n - 1) as nat);
        assert(n * factorial((n - 1) as nat) > 0) by (nonlinear_arith)
            requires
                n > 0,
                factorial((n - 1) as nat) > 0,
        ;
    }
}

/// Stepping from `c_k` to `c_{k+1}` multiplies by `(p-k) / ((k+1)(2p-k))`.
proof fn lemma_pade_step(p: nat, k: nat, numer: nat, denom: nat)
    requires
        k < p,
        numer * pade_denom(p, k) == denom * pade_numer(p, k),
    ensures
        (numer * (p - k) as nat) * pade_denom(p, k + 1) == (denom * ((k + 1) * (2 * p - k) as nat))
            * pade_numer(p, k + 1),
{
    let f2p = factorial(2 * p);
    let fk = factorial(k);
    let fpk1 = factorial((p - k - 1) as nat);
    let f2pk1 = factorial((2 * p - k - 1) as nat);
    let fp = factorial(p);
    let a = (p - k) as nat;
    let b = (2 * p - k) as nat;
    assert(factorial(k + 1) == (k + 1) * fk);
    assert(factorial((p - k) as nat) == a * fpk1);
    assert(factorial((2 * p - k) as nat) == b * f2pk1);
    assert(pade_denom(p, k) == f2p * fk * (a * fpk1));
    assert(pade_denom(p, k + 1) == f2p * ((k + 1) * fk) * fpk1);
    assert(pade_numer(p, k) == (b * f2pk1) * fp);
    assert(pade_numer(p, k + 1) == f2pk1 * fp);
    assert((numer * a) * (f2p * ((k + 1) * fk) * fpk1) == (k + 1) * (numer * (f2p * fk * (a
        * fpk1)))) by (nonlinear_arith);
    assert((denom * ((k + 1) * b)) * (f2pk1 * fp) == (k + 1) * (denom * ((b * f2pk1) * fp)))
        by (nonlinear_arith);
}

/// The Padé coefficient `c_k` of degree `p`, as an exact fraction.
pub fn pade_coefficient(p: u32, k: u32) -> (c: Coefficient)
    requires
        k <= p <= MAX_DEGREE,
    ensures
        c.is_pade(p as nat, k as nat),
{
    let mut numer: u64 = 1;
    let mut denom: u64 = 1;
    let mut j: u32 = 0;
    proof {
        lemma_factorial_positive(p as nat);
        lemma_factorial_positive(2 * p as nat);
        reveal_with_fuel(pow_nat, 2);
        assert(factorial(0) == 1);
        assert(pade_denom(p as nat, 0) == factorial(2 * p as nat) * 1 * factorial(p as nat));
        assert(pade_numer(p as nat, 0) == factorial(2 * p as nat) * factorial(p as nat));
    }
    while j < k
        invariant
            j <= k <= p <= MAX_DEGREE,
            denom > 0,
            numer as nat * pade_denom(p as nat, j as nat) == denom as nat * pade_numer(
                p as nat,
                j as nat,
            ),
            numer <= pow_nat(7, j as nat),
            denom <= pow_nat(196, j as nat),
        decreases k - j,
    {
        let a: u64 = (p - j) as u64;
        assert((j + 1) * (2 * p - j) <= 196) by (nonlinear_arith)
            requires
                j < p <= 7,
        ;
        let b: u64 = (j as u64 + 1) * (2 * p as u64 - j as u64);
        proof {
            lemma_pade_step(p as nat, j as nat, numer as nat, denom as nat);
            lemma_pow_bounds(j as nat);
            assert(b <= 196) by (nonlinear_arith)
                requires
                    b == (j + 1) * (2 * p - j),
                    j < p <= 7,
            ;
            assert(b > 0) by (nonlinear_arith)
                requires
                    b == (j + 1) * (2 * p - j),
                    j < p,
            ;
            assert(numer * a <= pow_nat(7, (j + 1) as nat)) by (nonlinear_arith)
                requires
                    numer <= pow_nat(7, j as nat),
                    a <= 7,
                    pow_nat(7, (j + 1) as nat) == 7 * pow_nat(7, j as nat),
            ;
            assert(denom * b <= pow_nat(196, (j + 1) as nat)) by (nonlinear_arith)
                requires
                    denom <= pow_nat(196, j as nat),
                    b <= 196,
                    pow_nat(196, (j + 1) as nat) == 196 * pow_nat(196, j as nat),
            ;
            assert(denom * b > 0) by (nonlinear_arith)
                requires
                    denom > 0,
                    b > 0,
            ;
        }
        numer = numer * a;
        denom = denom * b;
        j = j + 1;
    }
    Coefficient { numer, denom }
}

proof fn lemma_pow_bounds(j: nat)
    requires
        j < 7,
    ensures
        pow_nat(7, j + 1) == 7 * pow_nat(7, j),
        pow_nat(196, j + 1) == 196 * pow_nat(196, j),
        pow_nat(7, j + 1) <= 823543,
        pow_nat(196, j + 1) <= 11112006825558016,
{
    reveal_with_fuel(pow_nat, 8);
}

/// The first coefficient of every degree is one half, so the pair always
/// starts from `P = I + A_s / 2` and `Q = I - A_s / 2`.
pub proof fn lemma_first_coefficient_is_half(p: nat)
    requires
        p >= 1,
    ensures
        2 * pade_numer(p, 1) == pade_denom(p, 1),
{
    let fp1 = factorial((p - 1) as nat);
    let f2p1 = factorial((2 * p - 1) as nat);
    assert(factorial(1) == 1) by {
        assert(factorial(0) == 1);
    }
    assert(factorial(p) == p * fp1);
    assert(factorial(2 * p) == (2 * p) * f2p1);
    assert(2 * (f2p1 * (p * fp1)) == ((2 * p) * f2p1) * 1 * fp1) by (nonlinear_arith);
}

/// Accepts a Padé degree of the dense and triangular engines; any other
/// value is reported, never computed with.
pub fn check_degree(p: i32) -> (r: Result<u32, ExpmError>)
    ensures
        degree_in_range(p as int) ==> r == Ok::<u32, ExpmError>(p as u32),
        !degree_in_range(p as int) ==> r == Err::<u32, ExpmError>(ExpmError::DegreeOutOfRange(p)),
{
    if MIN_DEGREE as i32 <= p && p <= MAX_DEGREE as i32 {
        Ok(p as u32)
    } else {
        Err(ExpmError::DegreeOutOfRange(p))
    }
}

/// Turns the status code of the dense LU solver into the reported error
/// class: `0` is success, a positive code names an exactly zero pivot, a
/// negative one an argument the solver rejected.
pub fn solver_status(info: isize) -> (r: Result<(), ExpmError>)
    ensures
        info == 0 ==> r == Ok::<(), ExpmError>(()),
        info > 0 ==> r == Err::<(), ExpmError>(ExpmError::SingularSystem(info)),
        info < 0 ==> r == Err::<(), ExpmError>(ExpmError::IllegalSolverArgument(info)),
{
    if info == 0 {
        Ok(())
    } else if info > 0 {
        Err(ExpmError::SingularSystem(info))
    } else {
        Err(ExpmError::IllegalSolverArgument(info))
    }
}

/// The terms `c_1 A_s, ..., c_p A_s^p` of a degree that has a table entry.
fn terms_up_to(p: u32) -> (terms: Vec<PadeTerm>)
    requires
        1 <= p <= MAX_DEGREE,
    ensures
        is_term_sequence(terms@, p as nat),
{
    let mut terms: Vec<PadeTerm> = Vec::new();
    let mut k: u32 = 1;
    while k <= p
        invariant
            1 <= k <= p + 1,
            p <= MAX_DEGREE,
            terms.len() == k - 1,
            forall|i: int| 0 <= i < k - 1 ==> (#[trigger] terms@[i]).is_term(p as nat, (i + 1) as nat),
        decreases p + 1 - k,
    {
        let coefficient = pade_coefficient(p, k);
        terms.push(PadeTerm { power: k, coefficient, negate_in_q: k % 2 == 1 });
        k = k + 1;
    }
    terms
}

/// The correction terms of the dense and triangular engines for degree `p`,
/// in increasing power; a degree outside `[2, 7]` is reported.
pub fn pade_terms(p: i32) -> (r: Result<Vec<PadeTerm>, ExpmError>)
    ensures
        match r {
            Ok(terms) => degree_in_range(p as int) && is_term_sequence(terms@, p as nat),
            Err(e) => !degree_in_range(p as int) && e == ExpmError::DegreeOutOfRange(p),
        },
{
    match check_degree(p) {
        Ok(degree) => Ok(terms_up_to(degree)),
        Err(e) => Err(e),
    }
}

/// The correction terms of the 2×2 engine, whose table runs from degree 1
/// (the half step alone) to degree 6.
pub fn pade_terms_2x2(p: u32) -> (terms: Vec<PadeTerm>)
    requires
        1 <= p <= MAX_DEGREE_2X2,
    ensures
        is_term_sequence(terms@, p as nat),
{
    terms_up_to(p)
}

} // verus!
