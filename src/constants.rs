//! The runtime value representation and the catalogue of runtime errors.
//!
//! Every value is one 64-bit word. A number `n` is stored as `2 * n`, so its
//! low bit is 0; `false` is 3, `true` is 7, `nil` is 1, and a vector is the
//! address of its header word with the low bit set.
use vstd::prelude::*;

verus! {

/// Bytes in a machine word.
pub const WORD_SIZE: i64 = 8;

/// Shift that turns a word index into a byte offset.
pub const WORD_SIZE_SHIFT: i64 = 3;

/// Shift that turns a tagged number into a byte offset.
pub const SNEK_NUMBER_TO_OFFSET_SHIFT: i64 = 2;

/// Shift that turns a byte offset into a word count.
pub const OFFSET_TO_NUMBER_SHIFT: i64 = 3;

/// The smallest number a value can hold.
pub const I63_MIN: i64 = -4611686018427387904;

/// The largest number a value can hold.
pub const I63_MAX: i64 = 4611686018427387903;

pub const NIL_VAL: i64 = 1;

pub const FALSE_VAL: i64 = 3;

pub const TRUE_VAL: i64 = 7;

/// The low two bits that every boolean has.
pub const BOOLEAN_LSB: i64 = 3;

/// The kinds of runtime error, each with its own exit code.
#[derive(Clone, Copy, PartialEq, Eq, Debug, Structural)]
pub enum ErrCode {
    Overflow,
    InvalidType,
    IndexOutOfBounds,
    InvalidVecAddress,
    InvalidVecOffset,
    InvalidVecSize,
}

pub open spec fn spec_err_code(e: ErrCode) -> i64 {
    match e {
        ErrCode::Overflow => 1,
        ErrCode::InvalidType => 2,
        ErrCode::IndexOutOfBounds => 3,
        ErrCode::InvalidVecAddress => 4,
        ErrCode::InvalidVecOffset => 5,
        ErrCode::InvalidVecSize => 6,
    }
}

pub open spec fn spec_err_label(e: ErrCode) -> Seq<char> {
    match e {
        ErrCode::Overflow => NUM_OVERFLOW_LABEL@,
        ErrCode::InvalidType => INVALID_TYPE_LABEL@,
        ErrCode::IndexOutOfBounds => INDEX_OUT_OF_BOUNDS_LABEL@,
        ErrCode::InvalidVecAddress => INVALID_VEC_ADDRESS_LABEL@,
        ErrCode::InvalidVecOffset => INVALID_VEC_OFFSET_LABEL@,
        ErrCode::InvalidVecSize => INVALID_VEC_SIZE_LABEL@,
    }
}

impl ErrCode {
    /// The exit code of the error, handed to the runtime's error reporter.
    pub fn code(&self) -> (r: i64)
        ensures
            r == spec_err_code(*self),
            1 <= r <= 6,
    {
        match self {
            ErrCode::Overflow => 1,
            ErrCode::InvalidType => 2,
            ErrCode::IndexOutOfBounds => 3,
            ErrCode::InvalidVecAddress => 4,
            ErrCode::InvalidVecOffset => 5,
            ErrCode::InvalidVecSize => 6,
        }
    }

    /// The label of the trampoline that reports this error.
    pub fn label(&self) -> (r: &'static str)
        ensures
            r@ == spec_err_label(*self),
    {
        match self {
            ErrCode::Overflow => NUM_OVERFLOW_LABEL,
            ErrCode::InvalidType => INVALID_TYPE_LABEL,
            ErrCode::IndexOutOfBounds => INDEX_OUT_OF_BOUNDS_LABEL,
            ErrCode::InvalidVecAddress => INVALID_VEC_ADDRESS_LABEL,
            ErrCode::InvalidVecOffset => INVALID_VEC_OFFSET_LABEL,
            ErrCode::InvalidVecSize => INVALID_VEC_SIZE_LABEL,
        }
    }
}

pub const NUM_OVERFLOW_LABEL: &'static str = "error_numeric_overflow";

pub const INVALID_TYPE_LABEL: &'static str = "error_invalid_type";

pub const INDEX_OUT_OF_BOUNDS_LABEL: &'static str = "error_index_out_of_bounds";

pub const INVALID_VEC_ADDRESS_LABEL: &'static str = "error_invalid_vec_address";

pub const INVALID_VEC_OFFSET_LABEL: &'static str = "error_invalid_vec_offset";

pub const INVALID_VEC_SIZE_LABEL: &'static str = "error_invalid_vec_size";

/// `n` fits in the 63 bits that a tagged number keeps.
pub open spec fn in_i63(n: int) -> bool {
    I63_MIN <= n <= I63_MAX
}

/// The word that holds the number `n`.
pub open spec fn encode_number(n: int) -> int {
    2 * n
}

pub open spec fn is_number_word(w: i64) -> bool {
    w & 1 == 0
}

pub open spec fn is_bool_word(w: i64) -> bool {
    w == TRUE_VAL || w == FALSE_VAL
}

pub open spec fn is_nil_word(w: i64) -> bool {
    w == NIL_VAL
}

/// A vector: the address of a word-aligned header, plus one.
pub open spec fn is_pointer_word(w: i64) -> bool {
    w & 7 == 1 && w != NIL_VAL
}

/// The words that stand for a value of the language.
pub open spec fn is_valid_word(w: i64) -> bool {
    is_number_word(w) || is_bool_word(w) || is_nil_word(w) || is_pointer_word(w)
}

/// The classes that the `=` operator requires its operands to share: numbers,
/// booleans, and nil together with vectors.
pub open spec fn same_class(a: i64, b: i64) -> bool {
    (is_number_word(a) && is_number_word(b)) || (is_bool_word(a) && is_bool_word(b)) || ((
    is_nil_word(a) || is_pointer_word(a)) && (is_nil_word(b) || is_pointer_word(b)))
}

/// What the emitted number check computes: the complement's low bit is 1.
pub open spec fn number_check(w: i64) -> bool {
    (!w) & 1 == 1
}

/// What the emitted boolean check computes.
pub open spec fn bool_check(w: i64) -> bool {
    w & 3 == 3
}

/// What the emitted `isvec` check computes.
pub open spec fn vec_check(w: i64) -> bool {
    w & 3 == 1
}

/// What the emitted check for a vector operand accepts: not nil, low bits `01`.
pub open spec fn strict_vec_check(w: i64) -> bool {
    w != NIL_VAL && w & 3 == 1
}

/// What the emitted same-type check rejects: the low bit of `a ^ b` is set, or
/// the low bit of `a` xor the low two bits of `a ^ b` is `0b11`.
pub open spec fn same_type_check_fails(a: i64, b: i64) -> bool {
    (a ^ b) & 1 != 0 || ((a & 1) ^ ((a ^ b) & 3)) == 3
}

/// What the emitted check before an ordering rejects: `a | b` has its low bit set.
pub open spec fn order_check_fails(a: i64, b: i64) -> bool {
    (a | b) & 1 != 0
}

/// Every valid word falls in exactly one of the classes number, boolean, nil
/// and vector, and the checks that the compiler emits classify valid words
/// as the data model does.
pub proof fn lemma_tag_soundness(w: i64)
    requires
        is_valid_word(w),
    ensures
        is_number_word(w) ==> !is_bool_word(w) && !is_nil_word(w) && !is_pointer_word(w),
        is_bool_word(w) ==> !is_number_word(w) && !is_nil_word(w) && !is_pointer_word(w),
        is_nil_word(w) ==> !is_number_word(w) && !is_bool_word(w) && !is_pointer_word(w),
        is_pointer_word(w) ==> !is_number_word(w) && !is_bool_word(w) && !is_nil_word(w),
        number_check(w) <==> is_number_word(w),
        bool_check(w) <==> is_bool_word(w),
        vec_check(w) <==> is_nil_word(w) || is_pointer_word(w),
        strict_vec_check(w) <==> is_pointer_word(w),
{
    assert(is_number_word(w) ==> !is_bool_word(w) && !is_nil_word(w) && !is_pointer_word(w))
        by (bit_vector);
    assert(is_pointer_word(w) ==> !is_bool_word(w)) by (bit_vector);
    assert(number_check(w) <==> is_number_word(w)) by (bit_vector);
    assert(is_valid_word(w) ==> (bool_check(w) <==> is_bool_word(w))) by (bit_vector);
    assert(is_valid_word(w) ==> (vec_check(w) <==> is_nil_word(w) || is_pointer_word(w)))
        by (bit_vector);
}

/// Numbers in range encode to valid number words, booleans and nil are valid,
/// and a word-aligned address with its low bit set is a vector.
pub proof fn lemma_encodings_are_valid(n: i64, addr: i64)
    requires
        in_i63(n as int),
        addr & 7 == 0,
        addr != 0,
    ensures
        is_number_word((2 * n) as i64),
        (2 * n) as i64 == encode_number(n as int),
        is_valid_word((2 * n) as i64),
        is_valid_word(TRUE_VAL) && is_valid_word(FALSE_VAL) && is_valid_word(NIL_VAL),
        is_pointer_word(addr | 1),
        (addr | 1) == addr + 1,
{
    assert(in_i63(n as int) ==> ((2 * n) as i64) & 1 == 0 && (2 * n) as i64 == 2 * n)
        by (bit_vector);
    assert(addr & 7 == 0 && addr != 0 ==> (addr | 1) & 7 == 1 && (addr | 1) != 1 && (addr | 1)
        == addr + 1) by (bit_vector);
    assert(TRUE_VAL & 1 == 1 && FALSE_VAL & 1 == 1 && NIL_VAL & 1 == 1) by (bit_vector);
}

/// Arithmetic on tagged numbers: adding or subtracting the word of 1, adding,
/// subtracting, or multiplying by a shifted-down operand overflows 64 bits
/// exactly when the mathematical result leaves the 63-bit range, and otherwise
/// yields the word of the result.
pub proof fn lemma_tagged_arithmetic(a: i64, b: i64)
    requires
        in_i63(a as int),
        in_i63(b as int),
    ensures
        (i64::MIN <= 2 * a + 2 <= i64::MAX) <==> in_i63(a + 1),
        (i64::MIN <= 2 * a - 2 <= i64::MAX) <==> in_i63(a - 1),
        (i64::MIN <= 2 * a + 2 * b <= i64::MAX) <==> in_i63(a + b),
        (i64::MIN <= 2 * a - 2 * b <= i64::MAX) <==> in_i63(a - b),
        (i64::MIN <= (2 * a) * b <= i64::MAX) <==> in_i63(a * b),
        2 * a + 2 == encode_number(a + 1),
        2 * a + 2 * b == encode_number(a + b),
        2 * a - 2 * b == encode_number(a - b),
        (2 * a) * b == encode_number(a * b),
        ((2 * a) as i64) >> 1 == a,
{
    assert((2 * a) * b == 2 * (a * b)) by (nonlinear_arith);
    assert(in_i63(a as int) ==> ((2 * a) as i64) >> 1 == a) by (bit_vector);
}

/// Comparisons: the order check rejects exactly the pairs that are not both
/// numbers, tagged words order as their numbers do, and the same-type check
/// rejects exactly the pairs of valid words from different classes.
pub proof fn lemma_comparison_checks(a: i64, b: i64)
    requires
        is_valid_word(a),
        is_valid_word(b),
    ensures
        order_check_fails(a, b) <==> !(is_number_word(a) && is_number_word(b)),
        same_type_check_fails(a, b) <==> !same_class(a, b),
        a == b ==> same_class(a, b),
{
    assert(order_check_fails(a, b) <==> !(is_number_word(a) && is_number_word(b)))
        by (bit_vector);
    assert(is_valid_word(a) && is_valid_word(b) ==> (same_type_check_fails(a, b)
        <==> !same_class(a, b))) by (bit_vector);
}

/// Tagged numbers compare as the numbers they hold.
pub proof fn lemma_tagged_order(a: int, b: int)
    ensures
        (encode_number(a) < encode_number(b)) <==> (a < b),
        (encode_number(a) <= encode_number(b)) <==> (a <= b),
        (encode_number(a) == encode_number(b)) <==> (a == b),
{
}

} // verus!
