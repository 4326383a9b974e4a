//! What the emitted checks and operations compute, on a model of the few
//! registers and the one stack slot they use.
use vstd::prelude::*;
use crate::assembly::{InstrV, Reg, Val};
use crate::compiler::{
    binary_code, bool_check_code, bool_result_code, inequality_code, number_check_code, same_types_code,
    unary_code, vec_test_code,
};
use crate::constants::{
    is_bool_word, is_number_word, is_pointer_word, is_valid_word, same_class, FALSE_VAL,
    TRUE_VAL, lemma_comparison_checks, lemma_tag_soundness,
};
use crate::syntax::{Op1, Op2};

verus! {

/// The registers that the checks use, one stack slot at offset `off`, and the
/// condition flags.
pub struct Machine {
    pub rax: i64,
    pub rbx: i64,
    pub r10: i64,
    pub off: i64,
    pub slot: i64,
    /// Zero, or equal after a comparison.
    pub zf: bool,
    /// Signed less after a comparison.
    pub lt: bool,
    /// Signed greater after a comparison.
    pub gt: bool,
    /// Signed overflow after an addition or subtraction.
    pub of: bool,
}

pub open spec fn read(m: Machine, v: Val) -> i64 {
    match v {
        Val::Reg(Reg::RAX) => m.rax,
        Val::Reg(Reg::RBX) => m.rbx,
        Val::Reg(Reg::R10) => m.r10,
        Val::Imm(n) => n,
        Val::RegOff(Reg::RBP, o) => if o == m.off { m.slot } else { 0 },
        _ => 0,
    }
}

pub open spec fn write(m: Machine, v: Val, x: i64) -> Machine {
    match v {
        Val::Reg(Reg::RAX) => Machine { rax: x, ..m },
        Val::Reg(Reg::RBX) => Machine { rbx: x, ..m },
        Val::Reg(Reg::R10) => Machine { r10: x, ..m },
        Val::RegOff(Reg::RBP, o) => if o == m.off { Machine { slot: x, ..m } } else { m },
        _ => m,
    }
}

/// The effect of one instruction; jumps, labels and calls change nothing here.
pub open spec fn exec(m: Machine, i: InstrV) -> Machine {
    match i {
        InstrV::Mov(a, b) => write(m, a, read(m, b)),
        InstrV::Not(a) => write(m, a, !read(m, a)),
        InstrV::And(a, b) => {
            let r = read(m, a) & read(m, b);
            Machine { zf: r == 0, ..write(m, a, r) }
        },
        InstrV::Or(a, b) => {
            let r = read(m, a) | read(m, b);
            Machine { zf: r == 0, ..write(m, a, r) }
        },
        InstrV::Xor(a, b) => {
            let r = read(m, a) ^ read(m, b);
            Machine { zf: r == 0, ..write(m, a, r) }
        },
        InstrV::Test(a, b) => Machine { zf: read(m, a) & read(m, b) == 0, ..m },
        InstrV::Cmp(a, b) => Machine {
            zf: read(m, a) == read(m, b),
            lt: read(m, a) < read(m, b),
            gt: read(m, a) > read(m, b),
            ..m
        },
        InstrV::Add(a, b) => {
            let s = read(m, a) + read(m, b);
            Machine {
                of: !(i64::MIN <= s <= i64::MAX),
                zf: s as i64 == 0,
                ..write(m, a, s as i64)
            }
        },
        InstrV::Sub(a, b) => {
            let s = read(m, a) - read(m, b);
            Machine {
                of: !(i64::MIN <= s <= i64::MAX),
                zf: s as i64 == 0,
                ..write(m, a, s as i64)
            }
        },
        InstrV::CMove(a, b) => if m.zf { write(m, a, read(m, b)) } else { m },
        InstrV::CMovl(a, b) => if m.lt { write(m, a, read(m, b)) } else { m },
        InstrV::CMovg(a, b) => if m.gt { write(m, a, read(m, b)) } else { m },
        InstrV::CMovle(a, b) => if !m.gt { write(m, a, read(m, b)) } else { m },
        InstrV::CMovge(a, b) => if !m.lt { write(m, a, read(m, b)) } else { m },
        _ => m,
    }
}

/// The machine after the first `n` instructions of `s`.
pub open spec fn run(m: Machine, s: Seq<InstrV>, n: nat) -> Machine
    decreases n,
{
    if n == 0 {
        m
    } else {
        exec(run(m, s, (n - 1) as nat), s[n - 1])
    }
}

/// The type tests: the code that `isnum` and `isbool` emit after their
/// operand leaves `true` in `rax` exactly when the operand's word is a number,
/// or a boolean, and `false` otherwise.
pub proof fn lemma_type_tests(m: Machine)
    requires
        is_valid_word(m.rax),
    ensures
        run(m, unary_code(Op1::IsNum), 7).rax == if is_number_word(m.rax) { TRUE_VAL } else { FALSE_VAL },
        run(m, unary_code(Op1::IsBool), 6).rax == if is_bool_word(m.rax) { TRUE_VAL } else { FALSE_VAL },
{
    lemma_tag_soundness(m.rax);
    reveal_with_fuel(run, 8);
    assert(unary_code(Op1::IsNum) =~= number_check_code() + bool_result_code());
    assert(unary_code(Op1::IsBool) =~= bool_check_code() + bool_result_code());
}

/// The vector test: the code that `isvec` emits after its operand leaves
/// `true` in `rax` exactly when the operand's word is a vector, not nil, and
/// `false` otherwise.
pub proof fn lemma_vector_test(m: Machine)
    requires
        is_valid_word(m.rax),
    ensures
        run(m, unary_code(Op1::IsVec), 10).rax == if is_pointer_word(m.rax) { TRUE_VAL } else { FALSE_VAL },
{
    lemma_tag_soundness(m.rax);
    let c = unary_code(Op1::IsVec);
    assert(c == vec_test_code());
    let w = m.rax;
    assert(run(m, c, 0) == m);
    assert(run(m, c, 1) == exec(run(m, c, 0), c[0]));
    assert(run(m, c, 2) == exec(run(m, c, 1), c[1]));
    assert(run(m, c, 3) == exec(run(m, c, 2), c[2]));
    let m3 = run(m, c, 3);
    assert(m3.zf == (w & 3 == 1));
    assert(m3.rax == w);
    assert(run(m, c, 4) == exec(m3, c[3]));
    assert(run(m, c, 5) == exec(run(m, c, 4), c[4]));
    assert(run(m, c, 6) == exec(run(m, c, 5), c[5]));
    let m6 = run(m, c, 6);
    assert(m6.rbx == if w & 3 == 1 { TRUE_VAL } else { FALSE_VAL });
    assert(m6.rax == w);
    assert(run(m, c, 7) == exec(m6, c[6]));
    assert(run(m, c, 8) == exec(run(m, c, 7), c[7]));
    assert(run(m, c, 9) == exec(run(m, c, 8), c[8]));
    let m9 = run(m, c, 9);
    assert(m9.rbx == if w & 3 == 1 && w != 1 { TRUE_VAL } else { FALSE_VAL });
    assert(run(m, c, 10) == exec(m9, c[9]));
}

/// Orderings: with the first operand in the slot and the second in `rax`, the
/// emitted guard jumps to the type error exactly when one of them is not a
/// number, and otherwise the comparison and a `cmovl` leave `true` in `rax`
/// exactly when the first is less than the second.
pub proof fn lemma_less_than(m: Machine)
    requires
        is_valid_word(m.rax),
        is_valid_word(m.slot),
    ensures
        ({
            let c = inequality_code(m.off);
            let guard = run(m, c, 3);
            &&& (!guard.zf <==> !(is_number_word(m.slot) && is_number_word(m.rax)))
            &&& (guard.zf ==> run(m, c.push(InstrV::CMovl(Val::Reg(Reg::RAX), Val::Reg(Reg::RBX))), 8).rax
                == if m.slot < m.rax { TRUE_VAL } else { FALSE_VAL })
        }),
{
    lemma_comparison_checks(m.slot, m.rax);
    reveal_with_fuel(run, 9);
    let a = m.slot;
    let b = m.rax;
    assert((b | a) & 1 == (a | b) & 1) by (bit_vector);
}

/// Equality's guard: with the first operand in the slot and the second in
/// `rax`, the emitted same-type check jumps to the type error exactly when the
/// two valid words are of different classes.
/// Equality's guard: with the first operand in the slot and the second in
/// `rax`, the emitted same-type check jumps to the type error exactly when the
/// two valid words are of different classes.
pub proof fn lemma_same_type_guard(m: Machine)
    requires
        is_valid_word(m.rax),
        is_valid_word(m.slot),
    ensures
        ({
            let c = same_types_code(m.off);
            let first = run(m, c, 3);
            let second = run(m, c, 9);
            (!first.zf || second.zf) <==> !same_class(m.slot, m.rax)
        }),
{
    lemma_comparison_checks(m.rax, m.slot);
    let c = same_types_code(m.off);
    let a = m.rax;
    let b = m.slot;
    assert(run(m, c, 0) == m);
    assert(run(m, c, 1) == exec(run(m, c, 0), c[0]));
    assert(run(m, c, 2) == exec(run(m, c, 1), c[1]));
    assert(run(m, c, 3) == exec(run(m, c, 2), c[2]));
    assert(run(m, c, 4) == exec(run(m, c, 3), c[3]));
    assert(run(m, c, 5) == exec(run(m, c, 4), c[4]));
    assert(run(m, c, 6) == exec(run(m, c, 5), c[5]));
    assert(run(m, c, 7) == exec(run(m, c, 6), c[6]));
    assert(run(m, c, 8) == exec(run(m, c, 7), c[7]));
    assert(run(m, c, 9) == exec(run(m, c, 8), c[8]));
    assert(run(m, c, 3).zf == ((a ^ b) & 1 == 0));
    assert(run(m, c, 9).zf == (((a & 1) ^ ((a ^ b) & 3)) == 3));
    assert(((a ^ b) & 1 == 0) == !((a ^ b) & 1 != 0)) by (bit_vector);
    assert(same_class(a, b) == same_class(b, a));
}

/// `add1`: after the number check, adding the word of 1 sets the overflow
/// flag exactly when the result leaves the 63-bit range, and otherwise leaves
/// the word of the successor.
pub proof fn lemma_add1(m: Machine, n: i64)
    requires
        crate::constants::in_i63(n as int),
        m.rax == 2 * n,
    ensures
        ({
            let r = exec(m, InstrV::Add(Val::Reg(Reg::RAX), Val::Imm(2)));
            &&& (r.of <==> !crate::constants::in_i63(n + 1))
            &&& (!r.of ==> r.rax == 2 * (n + 1))
        }),
{
    crate::constants::lemma_tagged_arithmetic(n, 0);
}

/// The orderings as compiled: with the first operand, a number, in the slot
/// `s` and the second, a number, in `rax`, the code after the second operand
/// passes its guard and leaves `true` in `rax` exactly when the first operand
/// is greater, at least, less, or at most the second; tagged words order as
/// the numbers they hold.
pub proof fn lemma_orderings(m: Machine, s: int)
    requires
        is_number_word(m.rax),
        is_number_word(m.slot),
        m.off == (8 * s) as i64,
    ensures
        run(m, binary_code(Op2::Greater, s), 3).zf,
        run(m, binary_code(Op2::Greater, s), 8).rax == if m.slot > m.rax { TRUE_VAL } else { FALSE_VAL },
        run(m, binary_code(Op2::GreaterEqual, s), 8).rax == if m.slot >= m.rax { TRUE_VAL } else { FALSE_VAL },
        run(m, binary_code(Op2::Less, s), 8).rax == if m.slot < m.rax { TRUE_VAL } else { FALSE_VAL },
        run(m, binary_code(Op2::LessEqual, s), 8).rax == if m.slot <= m.rax { TRUE_VAL } else { FALSE_VAL },
{
    reveal_with_fuel(run, 9);
    let a = m.slot;
    let b = m.rax;
    assert((a & 1 == 0 && b & 1 == 0) ==> (b | a) & 1 == 0) by (bit_vector);
}

/// `=` as compiled: with the first operand in the slot `s` and the second in
/// `rax`, both valid and of the same class, the code after the second operand
/// passes the same-type guard and leaves `true` in `rax` exactly when the two
/// words are equal.
#[verifier::rlimit(80)]
pub proof fn lemma_equal(m: Machine, s: int)
    requires
        is_valid_word(m.rax),
        is_valid_word(m.slot),
        same_class(m.slot, m.rax),
        m.off == (8 * s) as i64,
    ensures
        run(m, binary_code(Op2::Equal, s), 3).zf,
        !run(m, binary_code(Op2::Equal, s), 9).zf,
        run(m, binary_code(Op2::Equal, s), 14).rax == if m.slot == m.rax { TRUE_VAL } else { FALSE_VAL },
{
    lemma_comparison_checks(m.rax, m.slot);
    let c = binary_code(Op2::Equal, s);
    assert(c == same_types_code(m.off) + seq![
        InstrV::Cmp(Val::Reg(Reg::RAX), Val::RegOff(Reg::RBP, m.off)),
        InstrV::Mov(Val::Reg(Reg::RBX), Val::Imm(TRUE_VAL)),
        InstrV::Mov(Val::Reg(Reg::RAX), Val::Imm(FALSE_VAL)),
        InstrV::CMove(Val::Reg(Reg::RAX), Val::Reg(Reg::RBX)),
    ]);
    let a = m.rax;
    let b = m.slot;
    assert(run(m, c, 0) == m);
    assert(run(m, c, 1) == exec(run(m, c, 0), c[0]));
    assert(run(m, c, 2) == exec(run(m, c, 1), c[1]));
    assert(run(m, c, 3) == exec(run(m, c, 2), c[2]));
    assert(run(m, c, 4) == exec(run(m, c, 3), c[3]));
    assert(run(m, c, 5) == exec(run(m, c, 4), c[4]));
    assert(run(m, c, 6) == exec(run(m, c, 5), c[5]));
    assert(run(m, c, 7) == exec(run(m, c, 6), c[6]));
    assert(run(m, c, 8) == exec(run(m, c, 7), c[7]));
    assert(run(m, c, 9) == exec(run(m, c, 8), c[8]));
    assert(run(m, c, 10) == exec(run(m, c, 9), c[9]));
    assert(run(m, c, 11) == exec(run(m, c, 10), c[10]));
    assert(run(m, c, 12) == exec(run(m, c, 11), c[11]));
    assert(run(m, c, 13) == exec(run(m, c, 12), c[12]));
    assert(run(m, c, 14) == exec(run(m, c, 13), c[13]));
    assert(run(m, c, 3).zf == ((a ^ b) & 1 == 0));
    assert(run(m, c, 9).zf == (((a & 1) ^ ((a ^ b) & 3)) == 3));
    assert(run(m, c, 9).rax == a);
    assert(((a ^ b) & 1 == 0) == !((a ^ b) & 1 != 0)) by (bit_vector);
    assert(same_class(a, b) == same_class(b, a));
}

} // verus!
