//! How many stack slots an expression needs while it is evaluated.
//!
//! Code compiled for an expression at stack index `si` uses the slots
//! `si + 1 ..= si + depth`; the prologue reserves the depth of the body.
use vstd::prelude::*;
use crate::syntax::Expr;

verus! {

broadcast use vstd::std_specs::vec::group_vec_axioms;

pub open spec fn max_nat(a: nat, b: nat) -> nat {
    if a >= b {
        a
    } else {
        b
    }
}

/// The largest `depth(es[j])` for `j >= i`; 0 when there is none.
pub open spec fn seq_max_depth(es: Seq<Expr>, i: int) -> nat
    decreases es, es.len() - i,
{
    if i < 0 || i >= es.len() {
        0
    } else {
        max_nat(spec_depth(es[i]), seq_max_depth(es, i + 1))
    }
}

/// The largest `depth(es[j]) + j` for `j >= i`; 0 when there is none.
pub open spec fn seq_indexed_depth(es: Seq<Expr>, i: int) -> nat
    decreases es, es.len() - i,
{
    if i < 0 || i >= es.len() {
        0
    } else {
        max_nat(spec_depth(es[i]) + i as nat, seq_indexed_depth(es, i + 1))
    }
}

/// The largest `depth(bs[j].1) + j` for `j >= i`; 0 when there is none.
pub open spec fn bindings_depth(bs: Seq<(String, Expr)>, i: int) -> nat
    decreases bs, bs.len() - i,
{
    if i < 0 || i >= bs.len() {
        0
    } else {
        max_nat(spec_depth(bs[i].1) + i as nat, bindings_depth(bs, i + 1))
    }
}

/// The number of stack slots that compiling `e` consumes.
pub open spec fn spec_depth(e: Expr) -> nat
    decreases e,
{
    match e {
        Expr::Number(_) | Expr::Boolean(_) | Expr::Input | Expr::Nil | Expr::Id(_) => 0,
        Expr::UnOp(_, a) => spec_depth(*a),
        Expr::Loop(a) => spec_depth(*a),
        Expr::Break(a) => spec_depth(*a),
        Expr::Assign(_, a) => spec_depth(*a),
        Expr::VecLen(a) => spec_depth(*a),
        Expr::BinOp(_, a, b) => max_nat(spec_depth(*a), spec_depth(*b) + 1),
        Expr::If(a, b, c) => max_nat(max_nat(spec_depth(*a), spec_depth(*b)), spec_depth(*c)),
        Expr::Block(es) => seq_max_depth(es@, 0),
        Expr::Let(bs, body) => max_nat(
            bindings_depth(bs@, 0),
            spec_depth(*body) + bs@.len(),
        ),
        Expr::Call(_, args) => max_nat(seq_indexed_depth(args@, 0), args@.len()),
        Expr::Vec(args) => max_nat(seq_indexed_depth(args@, 0), args@.len()),
        Expr::VecGet(a, b) => max_nat(spec_depth(*a), spec_depth(*b) + 1),
        Expr::VecSet(a, b, c) => max_nat(
            max_nat(max_nat(spec_depth(*a), spec_depth(*b) + 1), spec_depth(*c) + 2),
            2,
        ),
        Expr::MakeVec(a, b) => max_nat(max_nat(spec_depth(*a), spec_depth(*b) + 1), 2),
    }
}

/// `n`, or `u32::MAX` where `n` does not fit below it.
pub open spec fn saturate(n: nat) -> nat {
    if n >= u32::MAX {
        u32::MAX as nat
    } else {
        n
    }
}

fn sat_add(a: u32, k: u64) -> (r: u32)
    ensures
        r == saturate(saturate(a as nat) + k as nat),
{
    if a as u64 >= u32::MAX as u64 - (if k > u32::MAX as u64 { u32::MAX as u64 } else { k }) {
        u32::MAX
    } else {
        (a as u64 + k) as u32
    }
}

fn max_u32(a: u32, b: u32) -> (r: u32)
    ensures
        r == max_nat(a as nat, b as nat),
{
    if a >= b {
        a
    } else {
        b
    }
}

/// The number of stack slots that compiling `expr` consumes, saturated at
/// `u32::MAX`.
pub fn depth(expr: &Expr) -> (r: u32)
    ensures
        r == saturate(spec_depth(*expr)),
    decreases expr,
{
    match expr {
        Expr::Number(_) | Expr::Boolean(_) | Expr::Input | Expr::Nil | Expr::Id(_) => 0,
        Expr::UnOp(_, a) => depth(a),
        Expr::Loop(a) => depth(a),
        Expr::Break(a) => depth(a),
        Expr::Assign(_, a) => depth(a),
        Expr::VecLen(a) => depth(a),
        Expr::BinOp(_, a, b) => max_u32(depth(a), sat_add(depth(b), 1)),
        Expr::VecGet(a, b) => max_u32(depth(a), sat_add(depth(b), 1)),
        Expr::If(a, b, c) => max_u32(max_u32(depth(a), depth(b)), depth(c)),
        Expr::VecSet(a, b, c) => max_u32(
            max_u32(max_u32(depth(a), sat_add(depth(b), 1)), sat_add(depth(c), 2)),
            2,
        ),
        Expr::MakeVec(a, b) => max_u32(max_u32(depth(a), sat_add(depth(b), 1)), 2),
        Expr::Block(es) => {
            let mut m: u32 = 0;
            let mut j: usize = es.len();
            while j > 0
                invariant
                    j <= es@.len(),
                    m == saturate(seq_max_depth(es@, j as int)),
                    forall|i: int| 0 <= i < es@.len() ==> decreases_to!(expr => es@[i]),
                decreases j,
            {
                j = j - 1;
                m = max_u32(depth(&es[j]), m);
            }
            m
        },
        Expr::Let(bs, body) => {
            let mut m: u32 = 0;
            let mut j: usize = bs.len();
            while j > 0
                invariant
                    j <= bs@.len(),
                    m == saturate(bindings_depth(bs@, j as int)),
                    forall|i: int| 0 <= i < bs@.len() ==> decreases_to!(expr => bs@[i].1),
                decreases j,
            {
                j = j - 1;
                m = max_u32(sat_add(depth(&bs[j].1), j as u64), m);
            }
            max_u32(m, sat_add(depth(body), bs.len() as u64))
        },
        Expr::Call(_, args) | Expr::Vec(args) => {
            let mut m: u32 = 0;
            let mut j: usize = args.len();
            while j > 0
                invariant
                    j <= args@.len(),
                    m == saturate(seq_indexed_depth(args@, j as int)),
                    forall|i: int| 0 <= i < args@.len() ==> decreases_to!(expr => args@[i]),
                decreases j,
            {
                j = j - 1;
                m = max_u32(sat_add(depth(&args[j]), j as u64), m);
            }
            max_u32(m, sat_add(0, args.len() as u64))
        },
    }
}

} // verus!
