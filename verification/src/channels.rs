//! Arithmetic on five digits: four operators between them, applied from
//! left to right, and the question whether the result is ten.

use vstd::prelude::*;

verus! {

/// The result that is looked for.
pub const TARGET: i32 = 10;

/// The division that truncates towards zero.
pub open spec fn quotient(a: int, b: int) -> int {
    if a == 0 {
        0
    } else if a > 0 && b > 0 {
        a / b
    } else if a < 0 && b < 0 {
        ((a * -1) / (b * -1))
    } else if a < 0 {
        ((a * -1) / b) * -1
    } else {
        (a / (b * -1)) * -1
    }
}

/// What the operator gives for two numbers; nothing for a division by
/// zero or one whose result does not fit in 32 bits.
pub open spec fn operated(num1: int, num2: int, op: char) -> Option<int> {
    if op == '+' {
        Some(num1 + num2)
    } else if op == '-' {
        Some(num1 - num2)
    } else if op == '*' {
        Some(num1 * num2)
    } else if num2 == 0 || quotient(num1, num2) < i32::MIN || quotient(num1, num2) > i32::MAX {
        None
    } else {
        Some(quotient(num1, num2))
    }
}

pub open spec fn is_operator(op: char) -> bool {
    op == '+' || op == '-' || op == '*' || op == '/'
}

/// Applies one operator to two numbers. A division by zero, or one whose
/// result does not fit, is an error. Sums, differences and products must
/// fit.
pub fn operate(num1: i32, num2: i32, op: char) -> (result: Result<i32, ()>)
    requires
        is_operator(op),
        op != '/' ==> i32::MIN <= operated(num1 as int, num2 as int, op)->0 <= i32::MAX,
    ensures
        match result {
            Ok(value) => operated(num1 as int, num2 as int, op) == Some(value as int),
            Err(_) => operated(num1 as int, num2 as int, op) is None,
        },
{
    if op == '+' {
        Ok(num1 + num2)
    } else if op == '-' {
        Ok(num1 - num2)
    } else if op == '*' {
        Ok(num1 * num2)
    } else {
        match num1.checked_div(num2) {
            Some(value) => Ok(value),
            None => Err(()),
        }
    }
}

/// What the operators give when they are applied to the digits from left
/// to right; nothing where a division by zero comes up.
pub open spec fn chained(digits: Seq<i32>, operators: Seq<char>) -> Option<int> {
    match operated(digits[0] as int, digits[1] as int, operators[0]) {
        Some(first) => match operated(first, digits[2] as int, operators[1]) {
            Some(second) => match operated(second, digits[3] as int, operators[2]) {
                Some(third) => operated(third, digits[4] as int, operators[3]),
                None => None,
            },
            None => None,
        },
        None => None,
    }
}

/// True when the digits and operators can be calculated: five digits from
/// 0 to 9 and four operators.
pub open spec fn well_formed(digits: Seq<i32>, operators: Seq<char>) -> bool {
    &&& digits.len() == 5
    &&& operators.len() == 4
    &&& forall|i: int| 0 <= i < 5 ==> 0 <= #[trigger] digits[i] <= 9
    &&& forall|i: int| 0 <= i < 4 ==> is_operator(#[trigger] operators[i])
}

/// The size of a number does not grow by a division by a digit.
pub proof fn lemma_quotient_bound(a: int, b: int, bound: int)
    requires
        -bound <= a <= bound,
        b > 0,
    ensures
        -bound <= quotient(a, b) <= bound,
{
    if a > 0 {
        assert(0 <= a / b <= a) by (nonlinear_arith)
            requires
                a > 0,
                b > 0,
        ;
    } else if a < 0 {
        let n = a * -1;
        assert(0 <= n / b <= n) by (nonlinear_arith)
            requires
                n > 0,
                b > 0,
        ;
    }
}

/// What an operator gives for a number of bounded size and a digit is at
/// most nine times as large, and at least nine larger.
pub proof fn lemma_operated_bound(a: int, b: int, op: char, bound: int)
    requires
        -bound <= a <= bound,
        0 <= b <= 9,
        9 <= bound <= 100000,
        is_operator(op),
    ensures
        match operated(a, b, op) {
            Some(value) => -9 * bound <= value <= 9 * bound,
            None => op == '/' && b == 0,
        },
        op != '/' ==> -9 * bound <= operated(a, b, op)->0 <= 9 * bound,
{
    if op == '*' {
        assert(-9 * bound <= a * b <= 9 * bound) by (nonlinear_arith)
            requires
                -bound <= a <= bound,
                0 <= b <= 9,
        ;
    } else if op == '/' && b != 0 {
        lemma_quotient_bound(a, b, bound);
    }
}

/// Applies the operators to the digits from left to right and says whether
/// the result is ten. A division by zero on the way is an error.
pub fn calculate(digits: Vec<i32>, operators: Vec<char>) -> (result: Result<bool, ()>)
    requires
        well_formed(digits@, operators@),
    ensures
        match result {
            Ok(hit) => chained(digits@, operators@) is Some && hit == (chained(
                digits@,
                operators@,
            )->0 == TARGET),
            Err(_) => chained(digits@, operators@) is None,
        },
{
    let num1 = digits[0];
    let num2 = digits[1];
    let num3 = digits[2];
    let num4 = digits[3];
    let num5 = digits[4];
    let op1 = operators[0];
    let op2 = operators[1];
    let op3 = operators[2];
    let op4 = operators[3];
    proof {
        lemma_operated_bound(num1 as int, num2 as int, op1, 9);
    }
    let first = match operate(num1, num2, op1) {
        Ok(value) => value,
        Err(_) => {
            return Err(());
        },
    };
    proof {
        lemma_operated_bound(first as int, num3 as int, op2, 81);
    }
    let second = match operate(first, num3, op2) {
        Ok(value) => value,
        Err(_) => {
            return Err(());
        },
    };
    proof {
        lemma_operated_bound(second as int, num4 as int, op3, 729);
    }
    let third = match operate(second, num4, op3) {
        Ok(value) => value,
        Err(_) => {
            return Err(());
        },
    };
    proof {
        lemma_operated_bound(third as int, num5 as int, op4, 6561);
    }
    let result = match operate(third, num5, op4) {
        Ok(value) => value,
        Err(_) => {
            return Err(());
        },
    };
    Ok(result == TARGET)
}

/// True when the digits and operators of an arrangement give ten.
pub open spec fn hits(arrangement: (Vec<i32>, Vec<char>)) -> bool {
    chained(arrangement.0@, arrangement.1@) == Some(TARGET as int)
}

/// How many of the arrangements give ten.
pub open spec fn count_hits(arrangements: Seq<(Vec<i32>, Vec<char>)>) -> nat
    decreases arrangements.len(),
{
    if arrangements.len() == 0 {
        0
    } else {
        count_hits(arrangements.drop_last()) + if hits(arrangements.last()) {
            1nat
        } else {
            0nat
        }
    }
}

/// Counts the arrangements of digits and operators that give ten.
pub fn count_solutions(arrangements: &Vec<(Vec<i32>, Vec<char>)>) -> (count: usize)
    requires
        forall|i: int|
            0 <= i < arrangements@.len() ==> well_formed(
                (#[trigger] arrangements@[i]).0@,
                arrangements@[i].1@,
            ),
    ensures
        count == count_hits(arrangements@),
{
    let mut count: usize = 0;
    let mut i: usize = 0;
    while i < arrangements.len()
        invariant
            i <= arrangements@.len(),
            count <= i,
            count == count_hits(arrangements@.take(i as int)),
            forall|k: int|
                0 <= k < arrangements@.len() ==> well_formed(
                    (#[trigger] arrangements@[k]).0@,
                    arrangements@[k].1@,
                ),
        decreases arrangements@.len() - i,
    {
        proof {
            assert(arrangements@.take(i + 1).drop_last() == arrangements@.take(i as int));
            assert(arrangements@.take(i + 1).last() == arrangements@[i as int]);
        }
        let digits = arrangements[i].0.clone();
        let operators = arrangements[i].1.clone();
        match calculate(digits, operators) {
            Ok(true) => {
                count += 1;
            },
            _ => {},
        }
        i += 1;
    }
    proof {
        assert(arrangements@.take(arrangements@.len() as int) == arrangements@);
    }
    count
}

} // verus!
