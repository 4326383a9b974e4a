//! The parts of the runtime that decide: reading the `input` argument and the
//! messages of runtime errors.
use vstd::prelude::*;
use crate::assembly::{int_text, write_int};
use crate::constants::{in_i63, FALSE_VAL, TRUE_VAL};

verus! {

/// The value of a decimal digit.
pub open spec fn digit_value(c: char) -> int {
    c as int - '0' as int
}

/// `ds` is a non-empty run of ASCII digits.
pub open spec fn all_digits(ds: Seq<char>) -> bool {
    ds.len() > 0 && forall|i: int| 0 <= i < ds.len() ==> '0' <= #[trigger] ds[i] <= '9'
}

/// The number that the digits `ds` spell in decimal.
pub open spec fn decimal_value(ds: Seq<char>) -> int
    decreases ds.len(),
{
    if ds.len() == 0 {
        0
    } else {
        10 * decimal_value(ds.drop_last()) + digit_value(ds.last())
    }
}

/// The digits of a literal `s`, after an optional `+` or `-`.
pub open spec fn literal_digits(s: Seq<char>) -> Seq<char> {
    if s.len() > 0 && (s[0] == '-' || s[0] == '+') {
        s.drop_first()
    } else {
        s
    }
}

/// `s` is an integer literal: an optional `+` or `-`, then one or more ASCII
/// digits.
pub open spec fn int_literal(s: Seq<char>) -> bool {
    all_digits(literal_digits(s))
}

/// The number that the integer literal `s` spells.
pub open spec fn literal_value(s: Seq<char>) -> int {
    if s.len() > 0 && s[0] == '-' {
        -decimal_value(literal_digits(s))
    } else {
        decimal_value(literal_digits(s))
    }
}

/// What `i64`'s `FromStr` accepts: an integer literal whose value fits in an
/// `i64`.
pub open spec fn parse_i64_spec(s: Seq<char>) -> Option<i64> {
    if int_literal(s) && i64::MIN <= literal_value(s) <= i64::MAX {
        Some(literal_value(s) as i64)
    } else {
        None
    }
}

/// Relies on `str::parse::<i64>`, which reads an optional sign and decimal
/// digits and fails on anything else or on a value outside `i64`.
#[verifier::external_body]
fn parse_i64(s: &str) -> (r: Option<i64>)
    ensures
        r == parse_i64_spec(s@),
{
    s.parse::<i64>().ok()
}

/// Why an `input` argument was refused.
#[derive(Debug, Clone, Copy, PartialEq, Eq, Structural)]
pub enum InputError {
    /// An integer literal outside the 63-bit range, also beyond `i64`.
    Overflow,
    /// Neither `true`, `false` nor an integer literal.
    NotAValue,
}

/// The word that the `input` argument `s` stands for, or why it is refused.
pub open spec fn input_word(s: Seq<char>) -> Result<i64, InputError> {
    if s == "false"@ {
        Ok(FALSE_VAL)
    } else if s == "true"@ {
        Ok(TRUE_VAL)
    } else if int_literal(s) {
        if in_i63(literal_value(s)) {
            Ok((2 * literal_value(s)) as i64)
        } else {
            Err(InputError::Overflow)
        }
    } else {
        Err(InputError::NotAValue)
    }
}

/// Whether `s` is an integer literal.
fn is_int_literal(s: &str) -> (r: bool)
    ensures
        r == int_literal(s@),
{
    let n = s.unicode_len();
    let mut start: usize = 0;
    if n > 0 {
        let c = s.get_char(0);
        if c == '-' || c == '+' {
            start = 1;
        }
    }
    if start >= n {
        assert(literal_digits(s@).len() == 0);
        return false;
    }
    let mut i: usize = start;
    while i < n
        invariant
            start <= i <= n,
            n == s@.len(),
            start == 1 <==> (s@.len() > 0 && (s@[0] == '-' || s@[0] == '+')),
            start <= 1,
            forall|j: int| start <= j < i ==> '0' <= #[trigger] s@[j] <= '9',
        decreases n - i,
    {
        let c = s.get_char(i);
        if !('0' <= c && c <= '9') {
            assert(literal_digits(s@)[i - start] == s@[i as int]);
            return false;
        }
        i = i + 1;
    }
    assert forall|j: int| 0 <= j < literal_digits(s@).len() implies '0' <= #[trigger] literal_digits(
        s@,
    )[j] <= '9' by {
        assert(literal_digits(s@)[j] == s@[j + start]);
    }
    true
}

/// Reads the `input` argument: `true`, `false`, or a decimal number in the
/// 63-bit range, which is handed to the program tagged.
pub fn parse_input(input: &str) -> (r: Result<i64, InputError>)
    ensures
        r == input_word(input@),
{
    let s = String::from_str(input);
    if s == String::from_str("false") {
        Ok(FALSE_VAL)
    } else if s == String::from_str("true") {
        Ok(TRUE_VAL)
    } else {
        if !is_int_literal(input) {
            return Err(InputError::NotAValue);
        }
        match parse_i64(input) {
            Some(n) => {
                if n < crate::constants::I63_MIN || n > crate::constants::I63_MAX {
                    Err(InputError::Overflow)
                } else {
                    Ok(n * 2)
                }
            },
            None => Err(InputError::Overflow),
        }
    }
}

impl InputError {
    /// The message the runtime prints before it stops.
    pub fn message(&self) -> (r: String)
        ensures
            r@ == (match *self {
                InputError::Overflow => "Invalid: input overflows a 63-bit signed integer"@,
                InputError::NotAValue => "Invalid: error occurred parsing input"@,
            }),
    {
        match self {
            InputError::Overflow => String::from_str(
                "Invalid: input overflows a 63-bit signed integer",
            ),
            InputError::NotAValue => String::from_str("Invalid: error occurred parsing input"),
        }
    }
}

/// The line the runtime prints for the error code `code` before it exits
/// with that code.
pub open spec fn error_text(code: i64) -> Seq<char> {
    if code == 1 {
        "an error occurred: numeric overflow"@
    } else if code == 2 {
        "an error occurred: invalid argument (incompatible types)"@
    } else if code == 3 {
        "an error occurred: index out of bounds"@
    } else if code == 4 {
        "an error occurred: invalid vector address"@
    } else if code == 5 {
        "an error occurred: invalid vector offset"@
    } else if code == 6 {
        "an error occurred: vector address out of bounds"@
    } else {
        "Unknown error code: "@ + int_text(code as int)
    }
}

/// The message for a runtime error code.
pub fn error_message(code: i64) -> (r: String)
    ensures
        r@ == error_text(code),
{
    if code == 1 {
        String::from_str("an error occurred: numeric overflow")
    } else if code == 2 {
        String::from_str("an error occurred: invalid argument (incompatible types)")
    } else if code == 3 {
        String::from_str("an error occurred: index out of bounds")
    } else if code == 4 {
        String::from_str("an error occurred: invalid vector address")
    } else if code == 5 {
        String::from_str("an error occurred: invalid vector offset")
    } else if code == 6 {
        String::from_str("an error occurred: vector address out of bounds")
    } else {
        let mut s = String::from_str("Unknown error code: ");
        write_int(&mut s, code);
        s
    }
}


// ---------------------------------------------------------------------------
// Values in the heap

/// The word index of the header of the vector that `p` points to, in a heap
/// whose first word is at address `base`.
pub open spec fn vec_index(p: i64, base: int) -> int {
    (p - 1 - base) / 8
}

/// `p` points to a whole vector in the heap `words` starting at `base`.
pub open spec fn heap_vec(p: i64, words: Seq<i64>, base: int) -> bool {
    let idx = vec_index(p, base);
    &&& p - 1 - base >= 0
    &&& (p - 1 - base) % 8 == 0
    &&& idx < words.len()
    &&& 0 <= words[idx]
    &&& idx + 1 + words[idx] <= words.len()
}

/// The `i`-th element of the vector `p`.
pub open spec fn elem(p: i64, words: Seq<i64>, base: int, i: int) -> i64 {
    words[vec_index(p, base) + 1 + i]
}

/// How the runtime prints `v`: numbers in decimal, `true`, `false`, `nil`,
/// and vectors as `[e1, e2, ...]`. A vector met again inside itself prints
/// as `[...]`; `path` holds the vectors being printed, and `budget` bounds
/// the nesting. The printer starts with the number of heap words as budget:
/// the vectors on a path are distinct, and each takes at least one word.
pub open spec fn value_text(v: i64, words: Seq<i64>, base: int, path: Seq<i64>, budget: nat) -> Seq<
    char,
>
    decreases budget, 0int, 0int,
{
    if v == TRUE_VAL {
        "true"@
    } else if v == FALSE_VAL {
        "false"@
    } else if v % 2 == 0 {
        int_text(v / 2)
    } else if v == 1 {
        "nil"@
    } else if heap_vec(v, words, base) {
        if path.contains(v) || budget == 0 {
            "[...]"@
        } else {
            "["@ + elems_text(v, words, base, path.push(v), (budget - 1) as nat, 0) + "]"@
        }
    } else {
        "Unknown value: "@ + int_text(v as int)
    }
}

/// The elements of the vector `p` from index `i` on, separated by `, `.
pub open spec fn elems_text(
    p: i64,
    words: Seq<i64>,
    base: int,
    path: Seq<i64>,
    budget: nat,
    i: int,
) -> Seq<char>
    decreases budget, 1int, words[vec_index(p, base)] - i,
{
    let n = words[vec_index(p, base)];
    if i < 0 || i >= n {
        Seq::empty()
    } else {
        value_text(elem(p, words, base, i), words, base, path, budget) + (if i + 1 < n {
            ", "@
        } else {
            Seq::empty()
        }) + elems_text(p, words, base, path, budget, i + 1)
    }
}

fn path_contains(path: &Vec<i64>, v: i64) -> (r: bool)
    ensures
        r == path@.contains(v),
{
    let mut i: usize = 0;
    while i < path.len()
        invariant
            i <= path@.len(),
            forall|j: int| 0 <= j < i ==> path@[j] != v,
        decreases path@.len() - i,
    {
        if path[i] == v {
            return true;
        }
        i = i + 1;
    }
    false
}

fn is_heap_vec(p: i64, words: &Vec<i64>, base: i64) -> (r: bool)
    ensures
        r == heap_vec(p, words@, base as int),
        r ==> vec_index(p, base as int) + 1 + words@[vec_index(p, base as int)] <= usize::MAX,
{
    let off: i128 = p as i128 - 1 - base as i128;
    if off < 0 || off % 8 != 0 {
        return false;
    }
    let idx: i128 = off / 8;
    if idx >= words.len() as i128 {
        return false;
    }
    let n = words[idx as usize];
    n >= 0 && idx + 1 + n as i128 <= words.len() as i128
}

/// Appends how the runtime prints `v`.
fn write_value(
    out: &mut String,
    v: i64,
    words: &Vec<i64>,
    base: i64,
    path: &mut Vec<i64>,
    budget: u64,
)
    ensures
        final(out)@ == old(out)@ + value_text(v, words@, base as int, old(path)@, budget as nat),
        final(path)@ == old(path)@,
    decreases budget, 0int, 0int,
{
    if v == TRUE_VAL {
        out.append("true");
    } else if v == FALSE_VAL {
        out.append("false");
    } else if v % 2 == 0 {
        write_int(out, v / 2);
    } else if v == 1 {
        out.append("nil");
    } else if is_heap_vec(v, words, base) {
        if path_contains(path, v) || budget == 0 {
            out.append("[...]");
        } else {
            out.append("[");
            path.push(v);
            write_elems(out, v, words, base, path, budget - 1, 0);
            path.pop();
            out.append("]");
            assert(final(out)@ =~= old(out)@ + value_text(v, words@, base as int, old(path)@, budget as nat));
        }
    } else {
        out.append("Unknown value: ");
        write_int(out, v);
        assert(final(out)@ =~= old(out)@ + value_text(v, words@, base as int, old(path)@, budget as nat));
    }
}

fn write_elems(
    out: &mut String,
    p: i64,
    words: &Vec<i64>,
    base: i64,
    path: &mut Vec<i64>,
    budget: u64,
    i: i64,
)
    requires
        heap_vec(p, words@, base as int),
        0 <= i,
    ensures
        final(out)@ == old(out)@ + elems_text(p, words@, base as int, old(path)@, budget as nat, i as int),
        final(path)@ == old(path)@,
    decreases budget, 1int, words@[vec_index(p, base as int)] - i,
{
    let off: i128 = p as i128 - 1 - base as i128;
    assert(off as int == p - 1 - base);
    assert(off >= 0);
    let q: i128 = off / 8;
    assert(q as int == vec_index(p, base as int));
    let len: usize = words.len();
    assert(0 <= q < len);
    let idx: usize = q as usize;
    assert(idx + 1 + words@[idx as int] <= len);
    let n = words[idx];
    if i >= n {
        return;
    }
    let x = words[idx + 1 + i as usize];
    assert(x == elem(p, words@, base as int, i as int));
    write_value(out, x, words, base, path, budget);
    if i + 1 < n {
        out.append(", ");
    }
    write_elems(out, p, words, base, path, budget, i + 1);
    assert(final(out)@ =~= old(out)@ + elems_text(p, words@, base as int, old(path)@, budget as nat, i as int));
}

/// How the runtime prints the value `v`, given the heap words from address
/// `base` on.
pub fn value_to_string(v: i64, words: &Vec<i64>, base: i64) -> (r: String)
    ensures
        r@ == value_text(v, words@, base as int, Seq::empty(), words@.len() as nat),
{
    let mut s = String::new();
    let mut path: Vec<i64> = Vec::new();
    write_value(&mut s, v, words, base, &mut path, words.len() as u64);
    assert(s@ =~= value_text(v, words@, base as int, Seq::empty(), words@.len() as nat));
    s
}

/// Structural equality of `a` and `b`, as the runtime's `==` decides it:
/// words that are not both nil or vectors are equal when they are the same
/// word; two vectors are equal when they have the same length and equal
/// elements. A pair met again while it is being compared counts as equal, so
/// cyclic vectors compare without end. `path` holds the pairs being compared
/// and `budget` bounds the nesting; the comparison starts with the square of
/// the number of heap words, which no path of distinct pairs reaches.
pub open spec fn values_equal(
    a: i64,
    b: i64,
    words: Seq<i64>,
    base: int,
    path: Seq<(i64, i64)>,
    budget: nat,
) -> bool
    decreases budget, 0int, 0int,
{
    if a & 3 == 1 && b & 3 == 1 {
        if a == b {
            true
        } else if a == 1 || b == 1 {
            false
        } else if path.contains((a, b)) || budget == 0 {
            true
        } else if !heap_vec(a, words, base) || !heap_vec(b, words, base) {
            false
        } else if words[vec_index(a, base)] != words[vec_index(b, base)] {
            false
        } else {
            elems_equal(a, b, words, base, path.push((a, b)), (budget - 1) as nat, 0)
        }
    } else {
        a == b
    }
}

/// The elements of the vectors `a` and `b`, of the same length, are equal
/// from index `i` on.
pub open spec fn elems_equal(
    a: i64,
    b: i64,
    words: Seq<i64>,
    base: int,
    path: Seq<(i64, i64)>,
    budget: nat,
    i: int,
) -> bool
    decreases budget, 1int, words[vec_index(a, base)] - i,
{
    if i < 0 || i >= words[vec_index(a, base)] {
        true
    } else {
        values_equal(elem(a, words, base, i), elem(b, words, base, i), words, base, path, budget)
            && elems_equal(a, b, words, base, path, budget, i + 1)
    }
}

fn pair_on_path(path: &Vec<(i64, i64)>, a: i64, b: i64) -> (r: bool)
    ensures
        r == path@.contains((a, b)),
{
    let mut i: usize = 0;
    while i < path.len()
        invariant
            i <= path@.len(),
            forall|j: int| 0 <= j < i ==> path@[j] != (a, b),
        decreases path@.len() - i,
    {
        let (x, y) = path[i];
        if x == a && y == b {
            return true;
        }
        i = i + 1;
    }
    false
}

fn vec_len_at(p: i64, words: &Vec<i64>, base: i64) -> (r: (usize, i64))
    requires
        heap_vec(p, words@, base as int),
    ensures
        r.0 == vec_index(p, base as int),
        r.1 == words@[vec_index(p, base as int)],
        r.0 + 1 + r.1 <= words@.len(),
        r.0 + 1 + r.1 <= usize::MAX,
        r.1 >= 0,
{
    let off: i128 = p as i128 - 1 - base as i128;
    assert(off as int == p - 1 - base);
    let q: i128 = off / 8;
    assert(q as int == vec_index(p, base as int));
    let len: usize = words.len();
    assert(0 <= q < len);
    let idx: usize = q as usize;
    assert(idx + 1 + words@[idx as int] <= len);
    (idx, words[idx])
}

fn equal_values(a: i64, b: i64, words: &Vec<i64>, base: i64, path: &mut Vec<(i64, i64)>, budget: u64) -> (r: bool)
    ensures
        r == values_equal(a, b, words@, base as int, old(path)@, budget as nat),
        final(path)@ == old(path)@,
    decreases budget, 0int, 0int,
{
    if a & 3 == 1 && b & 3 == 1 {
        if a == b {
            true
        } else if a == 1 || b == 1 {
            false
        } else if pair_on_path(path, a, b) || budget == 0 {
            true
        } else if !is_heap_vec(a, words, base) || !is_heap_vec(b, words, base) {
            false
        } else {
            let (_, n1) = vec_len_at(a, words, base);
            let (_, n2) = vec_len_at(b, words, base);
            if n1 != n2 {
                false
            } else {
                path.push((a, b));
                let r = equal_elems(a, b, words, base, path, budget - 1, 0);
                path.pop();
                r
            }
        }
    } else {
        a == b
    }
}

fn equal_elems(
    a: i64,
    b: i64,
    words: &Vec<i64>,
    base: i64,
    path: &mut Vec<(i64, i64)>,
    budget: u64,
    i: i64,
) -> (r: bool)
    requires
        heap_vec(a, words@, base as int),
        heap_vec(b, words@, base as int),
        words@[vec_index(a, base as int)] == words@[vec_index(b, base as int)],
        0 <= i,
    ensures
        r == elems_equal(a, b, words@, base as int, old(path)@, budget as nat, i as int),
        final(path)@ == old(path)@,
    decreases budget, 1int, words@[vec_index(a, base as int)] - i,
{
    let (ia, n) = vec_len_at(a, words, base);
    let (ib, _) = vec_len_at(b, words, base);
    if i >= n {
        return true;
    }
    let x = words[ia + 1 + i as usize];
    let y = words[ib + 1 + i as usize];
    if !equal_values(x, y, words, base, path, budget) {
        return false;
    }
    equal_elems(a, b, words, base, path, budget, i + 1)
}

/// The nesting budget of a comparison: the number of pairs of header words,
/// which bounds the number of distinct pairs of vectors.
pub open spec fn pair_budget(n: nat) -> nat {
    if n <= 0xffff_ffff {
        n * n
    } else {
        u64::MAX as nat
    }
}

/// Whether the runtime's `==` holds of `a` and `b`, given the heap words from
/// address `base` on.
pub fn structurally_equal(a: i64, b: i64, words: &Vec<i64>, base: i64) -> (r: bool)
    ensures
        r == values_equal(a, b, words@, base as int, Seq::empty(), pair_budget(words@.len())),
{
    let n = words.len() as u64;
    let budget: u64 = if n <= 0xffff_ffff {
        assert(n * n <= 0xffff_ffff * 0xffff_ffff) by (nonlinear_arith)
            requires
                n <= 0xffff_ffff,
        ;
        n * n
    } else {
        u64::MAX
    };
    let mut path: Vec<(i64, i64)> = Vec::new();
    equal_values(a, b, words, base, &mut path, budget)
}

/// Vector layout: element `i` of the vector with tagged address `p` is the
/// word at address `(p - 1) + 8 (i + 1)`. The code for `vec-get` and
/// `vec-set!` computes that address as `((i + 1) << 3) + (p - 1)`, the code
/// for `vec` and `make-vec` writes element `i` there, and it is the word that
/// the printer and the structural equality read as `elem(p, words, base, i)`.
pub proof fn lemma_vector_layout(p: i64, i: i64, words: Seq<i64>, base: int)
    requires
        heap_vec(p, words, base),
        0 <= i < words[vec_index(p, base)],
        i < 0x0800_0000_0000_0000,
    ensures
        base + 8 * (vec_index(p, base) + 1 + i) == (p - 1) + 8 * (i + 1),
        ((i + 1) as i64) << 3 == 8 * (i + 1),
        elem(p, words, base, i as int) == words[vec_index(p, base) + 1 + i],
{
    assert(0 <= i < 0x0800_0000_0000_0000 ==> ((i + 1) as i64) << 3 == 8 * (i + 1))
        by (bit_vector);
}

} // verus!
