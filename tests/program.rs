use rpade::pade::{Coefficient, ExpmError};
use rpade::program::{expm_program, expm_program_2x2, Buffer, Step};

fn is_fraction(c: Coefficient, numer: u64, denom: u64) -> bool {
    (c.numer as u128) * (denom as u128) == (c.denom as u128) * (numer as u128)
}

fn accumulate(step: &Step) -> (Buffer, Buffer, Coefficient, bool) {
    match *step {
        Step::Accumulate { target, source, coefficient, negate } => (target, source, coefficient, negate),
        _ => panic!("expected an accumulation, found {:?}", step),
    }
}

#[test]
fn degree_two_program_without_scaling() {
    let prog = expm_program(2, 0).unwrap();
    assert_eq!(prog.len(), 8);
    assert_eq!(prog[0], Step::ScaleInput { exponent: 0 });
    let (t, src, c, neg) = accumulate(&prog[1]);
    assert_eq!((t, src, neg), (Buffer::Num, Buffer::Power, false));
    assert!(is_fraction(c, 1, 2));
    let (t, src, c, neg) = accumulate(&prog[2]);
    assert_eq!((t, src, neg), (Buffer::Den, Buffer::Power, true));
    assert!(is_fraction(c, 1, 2));
    assert_eq!(prog[3], Step::Multiply { left: Buffer::Base, right: Buffer::Power, out: Buffer::Scratch });
    assert_eq!(prog[4], Step::Swap { a: Buffer::Power, b: Buffer::Scratch });
    let (t, _, c, neg) = accumulate(&prog[5]);
    assert_eq!((t, neg), (Buffer::Num, false));
    assert!(is_fraction(c, 1, 12));
    let (t, _, c, neg) = accumulate(&prog[6]);
    assert_eq!((t, neg), (Buffer::Den, false));
    assert!(is_fraction(c, 1, 12));
    assert_eq!(prog[7], Step::Solve);
}

#[test]
fn odd_scaling_ends_with_one_squaring_and_swap() {
    let prog = expm_program(2, 3).unwrap();
    assert_eq!(prog.len(), 12);
    assert_eq!(prog[0], Step::ScaleInput { exponent: 3 });
    let sq = Step::Multiply { left: Buffer::Num, right: Buffer::Num, out: Buffer::Scratch };
    let back = Step::Multiply { left: Buffer::Scratch, right: Buffer::Scratch, out: Buffer::Num };
    assert_eq!(&prog[8..], &[sq, back, sq, Step::Swap { a: Buffer::Num, b: Buffer::Scratch }]);
}

#[test]
fn program_lengths_follow_degree_and_scaling() {
    for p in 2..=7i32 {
        for s in [0u32, 1, 2, 5, 10].iter() {
            let prog = expm_program(p, *s).unwrap();
            let terms = 3 + 4 * (p as usize - 1);
            let squarings = 2 * (*s as usize / 2) + 2 * (*s as usize % 2);
            assert_eq!(prog.len(), terms + 1 + squarings);
            let solves = prog.iter().filter(|st| **st == Step::Solve).count();
            assert_eq!(solves, 1);
            let scalings = prog.iter().filter(|st| matches!(st, Step::ScaleInput { .. })).count();
            assert_eq!(scalings, 1);
            assert_eq!(prog[0], Step::ScaleInput { exponent: *s });
        }
    }
}

#[test]
fn denominator_signs_alternate() {
    let prog = expm_program(7, 0).unwrap();
    let den: Vec<bool> = prog
        .iter()
        .filter_map(|st| match *st {
            Step::Accumulate { target: Buffer::Den, negate, .. } => Some(negate),
            _ => None,
        })
        .collect();
    assert_eq!(den, vec![true, false, true, false, true, false, true]);
}

#[test]
fn products_never_write_an_operand() {
    for p in 2..=7i32 {
        for s in 0..8u32 {
            for st in expm_program(p, s).unwrap() {
                if let Step::Multiply { left, right, out } = st {
                    assert!(out != left && out != right);
                }
            }
        }
    }
}

#[test]
fn out_of_range_degree_builds_no_program() {
    for &p in [0i32, 1, 8, -1, 100].iter() {
        assert_eq!(expm_program(p, 4), Err(ExpmError::DegreeOutOfRange(p)));
    }
}

#[test]
fn two_by_two_program_accepts_degree_one() {
    let prog = expm_program_2x2(1, 0);
    assert_eq!(prog.len(), 4);
    assert_eq!(prog[3], Step::Solve);
    let prog = expm_program_2x2(6, 2);
    assert_eq!(prog.len(), 3 + 4 * 5 + 1 + 2);
}
