//! The compiler: from the abstract syntax to x86-64 instructions.
//!
//! Each expression leaves its value in `rax`. Locals live in slots below the
//! base pointer: slot `k` is at `[rbp - 8k]`, and code compiled at stack
//! index `si` uses only the slots above `si` up to `si + depth`. Parameters
//! live above the base pointer, at `[rbp + 8(i + 2)]`.
use vstd::prelude::*;
use crate::assembly::{Instr, InstrV, Reg, Val, code_view, nat_text, write_nat};
use crate::constants::{
    ErrCode, spec_err_label, spec_err_code, in_i63, I63_MIN, I63_MAX, NIL_VAL, TRUE_VAL, FALSE_VAL, BOOLEAN_LSB,
    WORD_SIZE, WORD_SIZE_SHIFT, SNEK_NUMBER_TO_OFFSET_SHIFT, OFFSET_TO_NUMBER_SHIFT,
};
use crate::depth::{
    depth, spec_depth, max_nat, seq_max_depth, seq_indexed_depth, bindings_depth,
};
use crate::syntax::{Expr, FunDef, Op1, Op2, Program};
use crate::tables::{
    Env, FunTable, env_entries, fun_arities, name_set, env_new, env_get, env_update, env_clone,
    funs_new, funs_arity, funs_update, names_new, names_contains, names_update,
};

verus! {

broadcast use vstd::std_specs::vec::group_vec_axioms;

/// The static errors of a program.
#[derive(Debug)]
pub enum CompileError {
    NumberOutOfRange(i64),
    UnboundVariable(String),
    InputOutsideMain,
    DuplicateBinding(String),
    BreakOutsideLoop,
    UndefinedFunction(String),
    /// The function, the number of arguments given, the number expected.
    WrongArity(String, usize, usize),
    EmptyBlock,
    DuplicateFunction(String),
    DuplicateParameter(String),
    /// The program needs more stack slots or labels than the compiler counts.
    TooLarge,
}

/// A static error, as the specifications speak of it.
pub enum Fault {
    NumberOutOfRange(i64),
    UnboundVariable(Seq<char>),
    InputOutsideMain,
    DuplicateBinding(Seq<char>),
    BreakOutsideLoop,
    UndefinedFunction(Seq<char>),
    WrongArity(Seq<char>, nat, nat),
    EmptyBlock,
    DuplicateFunction(Seq<char>),
    DuplicateParameter(Seq<char>),
    TooLarge,
}

impl View for CompileError {
    type V = Fault;

    open spec fn view(&self) -> Fault {
        match self {
            CompileError::NumberOutOfRange(n) => Fault::NumberOutOfRange(*n),
            CompileError::UnboundVariable(x) => Fault::UnboundVariable(x@),
            CompileError::InputOutsideMain => Fault::InputOutsideMain,
            CompileError::DuplicateBinding(x) => Fault::DuplicateBinding(x@),
            CompileError::BreakOutsideLoop => Fault::BreakOutsideLoop,
            CompileError::UndefinedFunction(f) => Fault::UndefinedFunction(f@),
            CompileError::WrongArity(f, k, n) => Fault::WrongArity(f@, *k as nat, *n as nat),
            CompileError::EmptyBlock => Fault::EmptyBlock,
            CompileError::DuplicateFunction(f) => Fault::DuplicateFunction(f@),
            CompileError::DuplicateParameter(x) => Fault::DuplicateParameter(x@),
            CompileError::TooLarge => Fault::TooLarge,
        }
    }
}

/// The diagnostic printed for a static error.
pub open spec fn fault_text(f: Fault) -> Seq<char> {
    match f {
        Fault::NumberOutOfRange(_) => "Invalid: number must be in the range of a 63-bit signed integer"@,
        Fault::UnboundVariable(x) => "Unbound variable identifier "@ + x,
        Fault::InputOutsideMain => "Invalid: input can only be used in the main expression"@,
        Fault::DuplicateBinding(x) => "Invalid: Duplicate binding "@ + x,
        Fault::BreakOutsideLoop => "Invalid: break without surrounding loop"@,
        Fault::UndefinedFunction(g) => "Invalid: undefined function "@ + g,
        Fault::WrongArity(g, k, n) => "Invalid: function "@ + g + " called with "@ + nat_text(k)
            + " args, expected "@ + nat_text(n),
        Fault::EmptyBlock => "Invalid: no expressions for block"@,
        Fault::DuplicateFunction(g) => "Invalid: function "@ + g + " already defined"@,
        Fault::DuplicateParameter(x) => "Invalid: Duplicate parameter "@ + x,
        Fault::TooLarge => "Invalid: program exceeds the compiler's limits"@,
    }
}

impl CompileError {
    /// The diagnostic for this error.
    pub fn message(&self) -> (r: String)
        ensures
            r@ == fault_text(self@),
    {
        let mut s: String;
        match self {
            CompileError::NumberOutOfRange(_) => {
                s = String::from_str("Invalid: number must be in the range of a 63-bit signed integer");
            },
            CompileError::UnboundVariable(x) => {
                s = String::from_str("Unbound variable identifier ");
                s.append(x.as_str());
            },
            CompileError::InputOutsideMain => {
                s = String::from_str("Invalid: input can only be used in the main expression");
            },
            CompileError::DuplicateBinding(x) => {
                s = String::from_str("Invalid: Duplicate binding ");
                s.append(x.as_str());
            },
            CompileError::BreakOutsideLoop => {
                s = String::from_str("Invalid: break without surrounding loop");
            },
            CompileError::UndefinedFunction(g) => {
                s = String::from_str("Invalid: undefined function ");
                s.append(g.as_str());
            },
            CompileError::WrongArity(g, k, n) => {
                s = String::from_str("Invalid: function ");
                s.append(g.as_str());
                s.append(" called with ");
                write_nat(&mut s, *k as u64);
                s.append(" args, expected ");
                write_nat(&mut s, *n as u64);
                assert(s@ =~= fault_text(self@));
            },
            CompileError::EmptyBlock => {
                s = String::from_str("Invalid: no expressions for block");
            },
            CompileError::DuplicateFunction(g) => {
                s = String::from_str("Invalid: function ");
                s.append(g.as_str());
                s.append(" already defined");
            },
            CompileError::DuplicateParameter(x) => {
                s = String::from_str("Invalid: Duplicate parameter ");
                s.append(x.as_str());
            },
            CompileError::TooLarge => {
                s = String::from_str("Invalid: program exceeds the compiler's limits");
            },
        }
        s
    }
}

// ---------------------------------------------------------------------------
// Static errors

/// The first static error met when compiling `e` with the identifiers `env`
/// in scope, inside a loop or not, with the functions `funs` and their
/// arities, in the main expression or not.
pub open spec fn expr_fault(
    e: Expr,
    env: Set<Seq<char>>,
    in_loop: bool,
    funs: Map<Seq<char>, nat>,
    main: bool,
) -> Option<Fault>
    decreases e, 2int,
{
    match e {
        Expr::Number(n) => if in_i63(n as int) {
            None
        } else {
            Some(Fault::NumberOutOfRange(n))
        },
        Expr::Boolean(_) | Expr::Nil => None,
        Expr::Input => if main {
            None
        } else {
            Some(Fault::InputOutsideMain)
        },
        Expr::Id(x) => if env.contains(x@) {
            None
        } else {
            Some(Fault::UnboundVariable(x@))
        },
        Expr::Let(bs, body) => match let_fault(bs@, 0, env, Set::empty(), in_loop, funs, main) {
            Some(f) => Some(f),
            None => expr_fault(*body, let_env(bs@, 0, env), in_loop, funs, main),
        },
        Expr::UnOp(_, a) => expr_fault(*a, env, in_loop, funs, main),
        Expr::BinOp(_, a, b) => match expr_fault(*a, env, in_loop, funs, main) {
            Some(f) => Some(f),
            None => expr_fault(*b, env, in_loop, funs, main),
        },
        Expr::If(a, b, c) => match expr_fault(*a, env, in_loop, funs, main) {
            Some(f) => Some(f),
            None => match expr_fault(*b, env, in_loop, funs, main) {
                Some(f) => Some(f),
                None => expr_fault(*c, env, in_loop, funs, main),
            },
        },
        Expr::Loop(a) => expr_fault(*a, env, true, funs, main),
        Expr::Break(a) => if !in_loop {
            Some(Fault::BreakOutsideLoop)
        } else {
            expr_fault(*a, env, in_loop, funs, main)
        },
        Expr::Assign(x, a) => if !env.contains(x@) {
            Some(Fault::UnboundVariable(x@))
        } else {
            expr_fault(*a, env, in_loop, funs, main)
        },
        Expr::Block(es) => if es@.len() == 0 {
            Some(Fault::EmptyBlock)
        } else {
            seq_fault(es@, 0, env, in_loop, funs, main)
        },
        Expr::Call(f, args) => if !funs.contains_key(f@) {
            Some(Fault::UndefinedFunction(f@))
        } else if funs[f@] != args@.len() {
            Some(Fault::WrongArity(f@, args@.len(), funs[f@]))
        } else {
            seq_fault(args@, 0, env, in_loop, funs, main)
        },
        Expr::Vec(args) => seq_fault(args@, 0, env, in_loop, funs, main),
        Expr::VecGet(a, b) => match expr_fault(*a, env, in_loop, funs, main) {
            Some(f) => Some(f),
            None => expr_fault(*b, env, in_loop, funs, main),
        },
        Expr::VecSet(a, b, c) => match expr_fault(*a, env, in_loop, funs, main) {
            Some(f) => Some(f),
            None => match expr_fault(*b, env, in_loop, funs, main) {
                Some(f) => Some(f),
                None => expr_fault(*c, env, in_loop, funs, main),
            },
        },
        Expr::VecLen(a) => expr_fault(*a, env, in_loop, funs, main),
        Expr::MakeVec(a, b) => match expr_fault(*a, env, in_loop, funs, main) {
            Some(f) => Some(f),
            None => expr_fault(*b, env, in_loop, funs, main),
        },
    }
}

/// The first static error among `es[i..]`.
pub open spec fn seq_fault(
    es: Seq<Expr>,
    i: int,
    env: Set<Seq<char>>,
    in_loop: bool,
    funs: Map<Seq<char>, nat>,
    main: bool,
) -> Option<Fault>
    decreases es, es.len() - i,
{
    if i < 0 || i >= es.len() {
        None
    } else {
        match expr_fault(es[i], env, in_loop, funs, main) {
            Some(f) => Some(f),
            None => seq_fault(es, i + 1, env, in_loop, funs, main),
        }
    }
}

/// The first static error among the bindings `bs[i..]` of a `let`, where
/// `env` is in scope and `locals` were bound by the same `let`.
pub open spec fn let_fault(
    bs: Seq<(String, Expr)>,
    i: int,
    env: Set<Seq<char>>,
    locals: Set<Seq<char>>,
    in_loop: bool,
    funs: Map<Seq<char>, nat>,
    main: bool,
) -> Option<Fault>
    decreases bs, bs.len() - i,
{
    if i < 0 || i >= bs.len() {
        None
    } else if locals.contains(bs[i].0@) {
        Some(Fault::DuplicateBinding(bs[i].0@))
    } else {
        match expr_fault(bs[i].1, env, in_loop, funs, main) {
            Some(f) => Some(f),
            None => let_fault(
                bs,
                i + 1,
                env.insert(bs[i].0@),
                locals.insert(bs[i].0@),
                in_loop,
                funs,
                main,
            ),
        }
    }
}

/// The identifiers in scope after the bindings `bs[i..]`.
pub open spec fn let_env(bs: Seq<(String, Expr)>, i: int, env: Set<Seq<char>>) -> Set<Seq<char>>
    decreases bs.len() - i,
{
    if i < 0 || i >= bs.len() {
        env
    } else {
        let_env(bs, i + 1, env.insert(bs[i].0@))
    }
}

// ---------------------------------------------------------------------------
// Labels

/// How many labels compiling `e` draws from the counter.
pub open spec fn expr_labels(e: Expr) -> nat
    decreases e, 2int,
{
    match e {
        Expr::Number(_) | Expr::Boolean(_) | Expr::Input | Expr::Nil | Expr::Id(_) => 0,
        Expr::Let(bs, body) => let_labels(bs@, 0) + expr_labels(*body),
        Expr::UnOp(_, a) | Expr::Loop(a) | Expr::Break(a) | Expr::Assign(_, a) | Expr::VecLen(
            a,
        ) => if e is Loop {
            2 + expr_labels(*a)
        } else {
            expr_labels(*a)
        },
        Expr::BinOp(_, a, b) | Expr::VecGet(a, b) => expr_labels(*a) + expr_labels(*b),
        Expr::MakeVec(a, b) => 2 + expr_labels(*a) + expr_labels(*b),
        Expr::If(a, b, c) => 2 + expr_labels(*a) + expr_labels(*b) + expr_labels(*c),
        Expr::VecSet(a, b, c) => expr_labels(*a) + expr_labels(*b) + expr_labels(*c),
        Expr::Block(es) | Expr::Call(_, es) | Expr::Vec(es) => seq_labels(es@, 0),
    }
}

pub open spec fn seq_labels(es: Seq<Expr>, i: int) -> nat
    decreases es, es.len() - i,
{
    if i < 0 || i >= es.len() {
        0
    } else {
        expr_labels(es[i]) + seq_labels(es, i + 1)
    }
}

pub open spec fn let_labels(bs: Seq<(String, Expr)>, i: int) -> nat
    decreases bs, bs.len() - i,
{
    if i < 0 || i >= bs.len() {
        0
    } else {
        expr_labels(bs[i].1) + let_labels(bs, i + 1)
    }
}

/// The text of the label drawn with counter value `n`.
pub open spec fn label_text(prefix: Seq<char>, n: nat) -> Seq<char> {
    prefix + "_"@ + nat_text(n)
}

// ---------------------------------------------------------------------------
// Emitted code

/// The stack slot `k` below the base pointer.
pub open spec fn slot(k: int) -> Val {
    Val::RegOff(Reg::RBP, (8 * k) as i64)
}

/// Sets `rax` to true when the condition codes say equal, false otherwise.
pub open spec fn bool_result_code() -> Seq<InstrV> {
    seq![
        InstrV::Mov(Val::Reg(Reg::RAX), Val::Imm(FALSE_VAL)),
        InstrV::Mov(Val::Reg(Reg::RBX), Val::Imm(TRUE_VAL)),
        InstrV::CMove(Val::Reg(Reg::RAX), Val::Reg(Reg::RBX)),
    ]
}

/// What follows the operand's code for a unary operation.
pub open spec fn unary_code(op: Op1) -> Seq<InstrV> {
    match op {
        Op1::Add1 => number_guard_code(ErrCode::InvalidType) + seq![
            InstrV::Add(Val::Reg(Reg::RAX), Val::Imm(2)),
        ] + overflow_code(),
        Op1::Sub1 => number_guard_code(ErrCode::InvalidType) + seq![
            InstrV::Sub(Val::Reg(Reg::RAX), Val::Imm(2)),
        ] + overflow_code(),
        Op1::IsNum => number_check_code() + bool_result_code(),
        Op1::IsBool => bool_check_code() + bool_result_code(),
        Op1::IsVec => vec_test_code(),
        Op1::Print => seq![
            InstrV::Mov(Val::Reg(Reg::RDI), Val::Reg(Reg::RAX)),
            InstrV::Call("snek_print"@),
        ],
    }
}

pub open spec fn is_arith(op: Op2) -> bool {
    op == Op2::Plus || op == Op2::Minus || op == Op2::Times
}

/// The number check on `rax` before and after the second operand of an
/// arithmetic operation.
pub open spec fn arith_guard_code(op: Op2) -> Seq<InstrV> {
    if is_arith(op) {
        seq![
            InstrV::Test(Val::Reg(Reg::RAX), Val::Imm(1)),
            InstrV::JumpNotZero(spec_err_label(ErrCode::InvalidType)),
        ]
    } else {
        Seq::empty()
    }
}

/// What follows the second operand's code for a binary operation whose first
/// operand was kept in the slot `s`.
pub open spec fn binary_code(op: Op2, s: int) -> Seq<InstrV> {
    let off = (8 * s) as i64;
    match op {
        Op2::Plus => seq![InstrV::Add(Val::Reg(Reg::RAX), slot(s))] + overflow_code(),
        Op2::Minus => seq![
            InstrV::Mov(Val::Reg(Reg::RBX), Val::Reg(Reg::RAX)),
            InstrV::Mov(Val::Reg(Reg::RAX), slot(s)),
            InstrV::Sub(Val::Reg(Reg::RAX), Val::Reg(Reg::RBX)),
        ] + overflow_code(),
        Op2::Times => seq![
            InstrV::Sar(Val::Reg(Reg::RAX), Val::Imm(1)),
            InstrV::Mul(Val::Reg(Reg::RAX), slot(s)),
        ] + overflow_code(),
        Op2::Equal => same_types_code(off) + seq![
            InstrV::Cmp(Val::Reg(Reg::RAX), slot(s)),
            InstrV::Mov(Val::Reg(Reg::RBX), Val::Imm(TRUE_VAL)),
            InstrV::Mov(Val::Reg(Reg::RAX), Val::Imm(FALSE_VAL)),
            InstrV::CMove(Val::Reg(Reg::RAX), Val::Reg(Reg::RBX)),
        ],
        Op2::Greater => inequality_code(off) + seq![InstrV::CMovg(Val::Reg(Reg::RAX), Val::Reg(Reg::RBX))],
        Op2::GreaterEqual => inequality_code(off) + seq![
            InstrV::CMovge(Val::Reg(Reg::RAX), Val::Reg(Reg::RBX)),
        ],
        Op2::Less => inequality_code(off) + seq![InstrV::CMovl(Val::Reg(Reg::RAX), Val::Reg(Reg::RBX))],
        Op2::LessEqual => inequality_code(off) + seq![
            InstrV::CMovle(Val::Reg(Reg::RAX), Val::Reg(Reg::RBX)),
        ],
        Op2::StructEqual => same_types_code(off) + seq![
            InstrV::Mov(Val::Reg(Reg::RDI), slot(s)),
            InstrV::Mov(Val::Reg(Reg::RSI), Val::Reg(Reg::RAX)),
            InstrV::Call("snek_equals"@),
        ],
    }
}

/// The pushes of the argument slots `si + m` down to `si + k + 1`.
pub open spec fn pushes_code(si: int, m: int, k: int) -> Seq<InstrV>
    decreases m - k,
{
    if k >= m {
        Seq::empty()
    } else {
        pushes_code(si, m, k + 1).push(InstrV::Push(slot(si + 1 + k)))
    }
}

/// The copies of the first `k` element slots into a new vector at `rbx`.
pub open spec fn stores_code(si: int, k: int) -> Seq<InstrV>
    decreases k,
{
    if k <= 0 {
        Seq::empty()
    } else {
        stores_code(si, k - 1) + seq![
            InstrV::Mov(Val::Reg(Reg::RAX), slot(si + k)),
            InstrV::Mov(Val::RegOff(Reg::RBX, (-8 * k) as i64), Val::Reg(Reg::RAX)),
        ]
    }
}

/// The code of `e` compiled at stack index `si`, with the identifiers of
/// `env` at their slot offsets, breaking to `brk`, with the label counter at
/// `c`. It is the code that the compiler emits for an expression without
/// static errors.
///
/// Allocation does not check the heap end: the runtime hands over an arena
/// large enough for the programs it runs, keeps its end in `r14`, and a
/// program that outgrows it writes past it. This is a deliberate choice; a
/// check would compare `r15` with `r14` before each `vec` and `make-vec`.
pub open spec fn expr_code(e: Expr, si: int, env: Map<Seq<char>, i64>, brk: Seq<char>, c: nat) -> Seq<
    InstrV,
>
    decreases e, 2int,
{
    match e {
        Expr::Number(n) => seq![InstrV::Mov(Val::Reg(Reg::RAX), Val::Imm((2 * n) as i64))],
        Expr::Boolean(b) => seq![
            InstrV::Mov(Val::Reg(Reg::RAX), Val::Imm(if b { TRUE_VAL } else { FALSE_VAL })),
        ],
        Expr::Nil => seq![InstrV::Mov(Val::Reg(Reg::RAX), Val::Imm(NIL_VAL))],
        Expr::Input => seq![InstrV::Mov(Val::Reg(Reg::RAX), Val::Reg(Reg::R13))],
        Expr::Id(x) => seq![InstrV::Mov(Val::Reg(Reg::RAX), Val::RegOff(Reg::RBP, env[x@]))],
        Expr::Assign(x, a) => expr_code(*a, si, env, brk, c) + seq![
            InstrV::Mov(Val::RegOff(Reg::RBP, env[x@]), Val::Reg(Reg::RAX)),
        ],
        Expr::UnOp(op, a) => expr_code(*a, si, env, brk, c) + unary_code(op),
        Expr::BinOp(op, a, b) => expr_code(*a, si, env, brk, c) + arith_guard_code(op) + seq![
            InstrV::Mov(slot(si + 1), Val::Reg(Reg::RAX)),
        ] + expr_code(*b, si + 1, env, brk, c + expr_labels(*a)) + arith_guard_code(op)
            + binary_code(op, si + 1),
        Expr::Let(bs, body) => let_code(bs@, 0, si, env, brk, c) + expr_code(
            *body,
            si + bs@.len(),
            let_env_map(bs@, 0, si, env),
            brk,
            c + let_labels(bs@, 0),
        ),
        Expr::If(a, b, cc) => {
            let end = label_text("ifend"@, c);
            let els = label_text("ifelse"@, c + 1);
            let ca = (c + 2) as nat;
            let cb = ca + expr_labels(*a);
            let ccc = cb + expr_labels(*b);
            expr_code(*a, si, env, brk, ca) + seq![
                InstrV::Cmp(Val::Reg(Reg::RAX), Val::Imm(FALSE_VAL)),
                InstrV::JumpEqual(els),
            ] + expr_code(*b, si, env, brk, cb) + seq![InstrV::Jump(end), InstrV::Label(els)]
                + expr_code(*cc, si, env, brk, ccc) + seq![InstrV::Label(end)]
        },
        Expr::Loop(a) => {
            let start = label_text("loop"@, c);
            let end = label_text("endloop"@, c + 1);
            seq![InstrV::Label(start)] + expr_code(*a, si, env, end, (c + 2) as nat) + seq![
                InstrV::Jump(start),
                InstrV::Label(end),
            ]
        },
        Expr::Break(a) => expr_code(*a, si, env, brk, c) + seq![InstrV::Jump(brk)],
        Expr::Block(es) => block_code(es@, 0, si, env, brk, c),
        Expr::Call(f, args) => {
            let m = args@.len() as int;
            let padded = if m % 2 != 0 { m + 1 } else { m };
            args_code(args@, 0, si, env, brk, c) + (if m % 2 != 0 {
                seq![InstrV::Push(Val::Imm(NIL_VAL))]
            } else {
                Seq::empty()
            }) + pushes_code(si, m, 0) + seq![
                InstrV::Call(fun_label_text(f@)),
                InstrV::Add(Val::Reg(Reg::RSP), Val::Imm((8 * padded) as i64)),
            ]
        },
        Expr::Vec(args) => {
            let m = args@.len() as int;
            args_code(args@, 0, si, env, brk, c) + seq![
                InstrV::Mov(Val::Reg(Reg::RBX), Val::Reg(Reg::R15)),
                InstrV::Add(Val::Reg(Reg::R15), Val::Imm((8 * (1 + m)) as i64)),
                InstrV::Mov(Val::Reg(Reg::R10), Val::Imm(m as i64)),
                InstrV::Mov(Val::RegOff(Reg::RBX, 0), Val::Reg(Reg::R10)),
            ] + stores_code(si, m) + seq![
                InstrV::Mov(Val::Reg(Reg::RAX), Val::Reg(Reg::RBX)),
                InstrV::Add(Val::Reg(Reg::RAX), Val::Imm(1)),
            ]
        },
        Expr::VecGet(v, i) => expr_code(*v, si, env, brk, c) + vec_guard_code() + seq![
            InstrV::Mov(slot(si + 1), Val::Reg(Reg::RAX)),
        ] + expr_code(*i, si + 1, env, brk, c + expr_labels(*v)) + bounds_check_code(
            (8 * (si + 1)) as i64,
        ) + seq![
            InstrV::Add(Val::Reg(Reg::RAX), Val::Imm(1)),
            InstrV::Shl(Val::Reg(Reg::RAX), Val::Imm(WORD_SIZE_SHIFT)),
            InstrV::Add(Val::Reg(Reg::RBX), Val::Reg(Reg::RAX)),
            InstrV::Mov(Val::Reg(Reg::RAX), Val::RegOff(Reg::RBX, 0)),
        ],
        Expr::VecSet(v, i, x) => expr_code(*v, si, env, brk, c) + vec_guard_code() + seq![
            InstrV::Mov(slot(si + 1), Val::Reg(Reg::RAX)),
        ] + expr_code(*i, si + 1, env, brk, c + expr_labels(*v)) + bounds_check_code(
            (8 * (si + 1)) as i64,
        ) + seq![InstrV::Mov(slot(si + 2), Val::Reg(Reg::RAX))] + expr_code(
            *x,
            si + 2,
            env,
            brk,
            c + expr_labels(*v) + expr_labels(*i),
        ) + seq![
            InstrV::Mov(Val::Reg(Reg::RBX), slot(si + 1)),
            InstrV::Sub(Val::Reg(Reg::RBX), Val::Imm(1)),
            InstrV::Mov(Val::Reg(Reg::R10), slot(si + 2)),
            InstrV::Add(Val::Reg(Reg::R10), Val::Imm(1)),
            InstrV::Shl(Val::Reg(Reg::R10), Val::Imm(WORD_SIZE_SHIFT)),
            InstrV::Add(Val::Reg(Reg::R10), Val::Reg(Reg::RBX)),
            InstrV::Mov(Val::RegOff(Reg::R10, 0), Val::Reg(Reg::RAX)),
            InstrV::Mov(Val::Reg(Reg::RAX), slot(si + 1)),
        ],
        Expr::VecLen(a) => expr_code(*a, si, env, brk, c) + vec_guard_code() + seq![
            InstrV::Sub(Val::Reg(Reg::RAX), Val::Imm(1)),
            InstrV::Mov(Val::Reg(Reg::RAX), Val::RegOff(Reg::RAX, 0)),
            InstrV::Shl(Val::Reg(Reg::RAX), Val::Imm(1)),
        ],
        Expr::MakeVec(n, x) => {
            let cx = c + expr_labels(*n);
            let cl = cx + expr_labels(*x);
            expr_code(*n, si, env, brk, c) + size_guard_code() + seq![
                InstrV::Shl(Val::Reg(Reg::RAX), Val::Imm(SNEK_NUMBER_TO_OFFSET_SHIFT)),
                InstrV::Mov(slot(si + 1), Val::Reg(Reg::R15)),
                InstrV::Add(Val::Reg(Reg::R15), Val::Reg(Reg::RAX)),
                InstrV::Add(Val::Reg(Reg::R15), Val::Imm(WORD_SIZE)),
                InstrV::Sar(Val::Reg(Reg::RAX), Val::Imm(OFFSET_TO_NUMBER_SHIFT)),
                InstrV::Mov(Val::Reg(Reg::RBX), slot(si + 1)),
                InstrV::Mov(Val::RegOff(Reg::RBX, 0), Val::Reg(Reg::RAX)),
            ] + expr_code(*x, si + 1, env, brk, cx) + fill_loop_code(
                (8 * (si + 1)) as i64,
                label_text("make_vec_start"@, cl),
                label_text("make_vec_end"@, cl + 1),
            ) + seq![
                InstrV::Mov(Val::Reg(Reg::RAX), slot(si + 1)),
                InstrV::Add(Val::Reg(Reg::RAX), Val::Imm(1)),
            ]
        },
    }
}

/// The code of `es[i..]` in a block, each at stack index `si`.
pub open spec fn block_code(
    es: Seq<Expr>,
    i: int,
    si: int,
    env: Map<Seq<char>, i64>,
    brk: Seq<char>,
    c: nat,
) -> Seq<InstrV>
    decreases es, es.len() - i,
{
    if i < 0 || i >= es.len() {
        Seq::empty()
    } else {
        expr_code(es[i], si, env, brk, c) + block_code(es, i + 1, si, env, brk, c + expr_labels(es[i]))
    }
}

/// The code of the arguments `es[i..]`: argument `i` computed at `si + i` and
/// stored in slot `si + 1 + i`.
pub open spec fn args_code(
    es: Seq<Expr>,
    i: int,
    si: int,
    env: Map<Seq<char>, i64>,
    brk: Seq<char>,
    c: nat,
) -> Seq<InstrV>
    decreases es, es.len() - i,
{
    if i < 0 || i >= es.len() {
        Seq::empty()
    } else {
        expr_code(es[i], si + i, env, brk, c) + seq![InstrV::Mov(slot(si + 1 + i), Val::Reg(Reg::RAX))]
            + args_code(es, i + 1, si, env, brk, c + expr_labels(es[i]))
    }
}

/// The code of the bindings `bs[i..]` of a `let`: binding `i` computed at
/// `si + i`, with the earlier bindings in scope, and stored in slot
/// `si + 1 + i`.
pub open spec fn let_code(
    bs: Seq<(String, Expr)>,
    i: int,
    si: int,
    env: Map<Seq<char>, i64>,
    brk: Seq<char>,
    c: nat,
) -> Seq<InstrV>
    decreases bs, bs.len() - i,
{
    if i < 0 || i >= bs.len() {
        Seq::empty()
    } else {
        expr_code(bs[i].1, si + i, env, brk, c) + seq![InstrV::Mov(slot(si + 1 + i), Val::Reg(Reg::RAX))]
            + let_code(
            bs,
            i + 1,
            si,
            env.insert(bs[i].0@, (8 * (si + 1 + i)) as i64),
            brk,
            c + expr_labels(bs[i].1),
        )
    }
}

/// The environment after the bindings `bs[i..]`, each at its slot.
pub open spec fn let_env_map(bs: Seq<(String, Expr)>, i: int, si: int, env: Map<Seq<char>, i64>) -> Map<
    Seq<char>,
    i64,
>
    decreases bs.len() - i,
{
    if i < 0 || i >= bs.len() {
        env
    } else {
        let_env_map(bs, i + 1, si, env.insert(bs[i].0@, (8 * (si + 1 + i)) as i64))
    }
}

// ---------------------------------------------------------------------------
// Frame discipline

/// A slot that compiled code may touch: a local slot `1..=hi/8` below the
/// base pointer, or a parameter slot above the saved base pointer and the
/// return address, down to `lo`.
pub open spec fn slot_ok(off: i64, lo: int, hi: int) -> bool {
    off % 8 == 0 && ((8 <= off <= hi) || (lo <= off <= -16))
}

pub open spec fn val_ok(v: Val, lo: int, hi: int) -> bool {
    match v {
        Val::RegOff(Reg::RBP, off) => slot_ok(off, lo, hi),
        Val::RegOff(Reg::RSP, _) => false,
        _ => true,
    }
}

/// Operands that the instruction may write.
pub open spec fn writable(v: Val) -> bool {
    v != Val::Reg(Reg::RSP) && v != Val::Reg(Reg::RBP)
}

/// The instruction touches only allowed slots, never writes the base
/// pointer, and moves the stack pointer only by pushes, pops and immediate
/// additions and subtractions.
pub open spec fn instr_ok(i: Instr, lo: int, hi: int) -> bool {
    match i {
        Instr::Add(a, b) | Instr::Sub(a, b) => val_ok(a, lo, hi) && val_ok(b, lo, hi) && (writable(
            a,
        ) || (a == Val::Reg(Reg::RSP) && b is Imm)),
        Instr::Mov(a, b) | Instr::Mul(a, b) | Instr::Cmp(a, b) | Instr::Test(a, b) | Instr::CMove(
            a,
            b,
        ) | Instr::CMovg(a, b) | Instr::CMovge(a, b) | Instr::CMovl(a, b) | Instr::CMovle(a, b)
        | Instr::Sar(a, b) | Instr::Shl(a, b) | Instr::And(a, b) | Instr::Or(a, b) | Instr::Xor(
            a,
            b,
        ) => val_ok(a, lo, hi) && val_ok(b, lo, hi) && writable(a),
        Instr::Not(a) | Instr::Pop(a) => val_ok(a, lo, hi) && writable(a),
        Instr::Push(a) => val_ok(a, lo, hi),
        Instr::Ret() => false,
        _ => true,
    }
}

pub open spec fn code_ok(s: Seq<Instr>, lo: int, hi: int) -> bool {
    forall|k: int| 0 <= k < s.len() ==> instr_ok(#[trigger] s[k], lo, hi)
}

/// How far the instruction moves the stack pointer, in bytes.
pub open spec fn instr_rsp(i: Instr) -> int {
    match i {
        Instr::Push(_) => -8,
        Instr::Pop(_) => 8,
        Instr::Sub(Val::Reg(Reg::RSP), Val::Imm(n)) => -n,
        Instr::Add(Val::Reg(Reg::RSP), Val::Imm(n)) => n as int,
        _ => 0,
    }
}

/// How far a straight run of the instructions moves the stack pointer.
pub open spec fn rsp_delta(s: Seq<Instr>) -> int
    decreases s.len(),
{
    if s.len() == 0 {
        0
    } else {
        rsp_delta(s.drop_last()) + instr_rsp(s.last())
    }
}

/// Every identifier in scope has a slot the code may touch at index `si`.
pub open spec fn env_ok(env: Map<Seq<char>, i64>, si: int, lo: int) -> bool {
    forall|k: Seq<char>| #[trigger] env.contains_key(k) ==> slot_ok(env[k], lo, 8 * si)
}

pub proof fn lemma_rsp_delta_concat(a: Seq<Instr>, b: Seq<Instr>)
    ensures
        rsp_delta(a + b) == rsp_delta(a) + rsp_delta(b),
    decreases b.len(),
{
    if b.len() == 0 {
        assert(a + b =~= a);
    } else {
        lemma_rsp_delta_concat(a, b.drop_last());
        assert((a + b).drop_last() =~= a + b.drop_last());
        assert((a + b).last() == b.last());
    }
}

proof fn lemma_code_ok_widen(s: Seq<Instr>, lo: int, hi: int, lo2: int, hi2: int)
    requires
        code_ok(s, lo, hi),
        lo2 <= lo,
        hi <= hi2,
    ensures
        code_ok(s, lo2, hi2),
{
    assert forall|k: int| 0 <= k < s.len() implies instr_ok(#[trigger] s[k], lo2, hi2) by {
        assert(instr_ok(s[k], lo, hi));
    }
}

proof fn lemma_env_ok_widen(env: Map<Seq<char>, i64>, si: int, si2: int, lo: int)
    requires
        env_ok(env, si, lo),
        si <= si2,
    ensures
        env_ok(env, si2, lo),
{
}

fn emit(code: &mut Vec<Instr>, i: Instr)
    ensures
        final(code)@ == old(code)@.push(i),
        code_view(final(code)@) == code_view(old(code)@).push(i@),
        rsp_delta(final(code)@) == rsp_delta(old(code)@) + instr_rsp(i),
        forall|lo: int, hi: int|
            code_ok(old(code)@, lo, hi) && instr_ok(i, lo, hi) ==> #[trigger] code_ok(
                final(code)@,
                lo,
                hi,
            ),
{
    let ghost before = code@;
    code.push(i);
    proof {
        assert(code@.drop_last() =~= before);
        assert(code_view(code@) =~= code_view(before).push(i@));
    }
}

fn emit_all(code: &mut Vec<Instr>, more: Vec<Instr>)
    ensures
        final(code)@ == old(code)@ + more@,
        code_view(final(code)@) == code_view(old(code)@) + code_view(more@),
        rsp_delta(final(code)@) == rsp_delta(old(code)@) + rsp_delta(more@),
        forall|lo: int, hi: int|
            code_ok(old(code)@, lo, hi) && code_ok(more@, lo, hi) ==> #[trigger] code_ok(
                final(code)@,
                lo,
                hi,
            ),
{
    let mut more = more;
    let ghost m = more@;
    code.append(&mut more);
    proof {
        assert(code_view(code@) =~= code_view(old(code)@) + code_view(m));
        lemma_rsp_delta_concat(old(code)@, m);
        assert forall|lo: int, hi: int|
            code_ok(old(code)@, lo, hi) && code_ok(m, lo, hi) implies #[trigger] code_ok(
                code@,
                lo,
                hi,
            ) by {
            assert forall|k: int| 0 <= k < code@.len() implies instr_ok(#[trigger] code@[k], lo, hi) by {
                if k < old(code)@.len() {
                    assert(code@[k] == old(code)@[k]);
                } else {
                    assert(code@[k] == m[k - old(code)@.len()]);
                }
            }
        }
    }
}

fn label_of(err: ErrCode) -> (r: String)
    ensures
        r@ == spec_err_label(err),
{
    String::from_str(err.label())
}

/// Appends code compiled for a subexpression, whose slots lie within `hi`.
fn emit_code(
    code: &mut Vec<Instr>,
    more: Vec<Instr>,
    Ghost(lo): Ghost<int>,
    Ghost(hi_more): Ghost<int>,
    Ghost(hi): Ghost<int>,
)
    requires
        code_ok(old(code)@, lo, hi),
        code_ok(more@, lo, hi_more),
        hi_more <= hi,
    ensures
        final(code)@ == old(code)@ + more@,
        code_view(final(code)@) == code_view(old(code)@) + code_view(more@),
        rsp_delta(final(code)@) == rsp_delta(old(code)@) + rsp_delta(more@),
        code_ok(final(code)@, lo, hi),
{
    proof {
        lemma_code_ok_widen(more@, lo, hi_more, lo, hi);
    }
    emit_all(code, more);
}

/// The label of the function `name`. The prefix keeps it apart from the
/// labels drawn from the counter, the trampolines, the runtime's symbols and
/// the entry point.
pub open spec fn fun_label_text(name: Seq<char>) -> Seq<char> {
    "fun_"@ + name
}

fn fun_label(name: &String) -> (r: String)
    ensures
        r@ == fun_label_text(name@),
{
    let mut l = String::from_str("fun_");
    l.append(name.as_str());
    l
}

/// Draws a fresh label `prefix_n` from the counter.
fn get_new_label(prefix: &str, ctr: &mut u64) -> (r: Result<String, CompileError>)
    ensures
        match r {
            Ok(l) => *final(ctr) == *old(ctr) + 1 && l@ == label_text(prefix@, *old(ctr) as nat)
                && l@.len() > 0,
            Err(err) => *old(ctr) == u64::MAX && *final(ctr) == *old(ctr) && err@ == Fault::TooLarge,
        },
{
    if *ctr == u64::MAX {
        return Err(CompileError::TooLarge);
    }
    let mut l = String::from_str(prefix);
    proof {
        reveal_strlit("_");
    }
    l.append("_");
    write_nat(&mut l, *ctr);
    *ctr = *ctr + 1;
    Ok(l)
}

// ---------------------------------------------------------------------------
// Checks on the value in rax

/// The code that sets the condition codes to equal exactly when `rax` holds
/// a number.
pub open spec fn number_check_code() -> Seq<InstrV> {
    seq![
        InstrV::Mov(Val::Reg(Reg::RBX), Val::Reg(Reg::RAX)),
        InstrV::Not(Val::Reg(Reg::RBX)),
        InstrV::And(Val::Reg(Reg::RBX), Val::Imm(1)),
        InstrV::Cmp(Val::Reg(Reg::RBX), Val::Imm(1)),
    ]
}

/// The number check, jumping to the trampoline of `err` on anything else.
pub open spec fn number_guard_code(err: ErrCode) -> Seq<InstrV> {
    number_check_code().push(InstrV::JumpNotEqual(spec_err_label(err)))
}

/// The check that `rax` holds a number `>= 0`, for a vector size.
pub open spec fn size_guard_code() -> Seq<InstrV> {
    number_guard_code(ErrCode::InvalidVecSize) + seq![
        InstrV::Cmp(Val::Reg(Reg::RAX), Val::Imm(0)),
        InstrV::JumpLess(spec_err_label(ErrCode::InvalidVecSize)),
    ]
}

/// The code that sets the condition codes to equal exactly when `rax` holds
/// a boolean.
pub open spec fn bool_check_code() -> Seq<InstrV> {
    seq![
        InstrV::Mov(Val::Reg(Reg::RBX), Val::Reg(Reg::RAX)),
        InstrV::And(Val::Reg(Reg::RBX), Val::Imm(BOOLEAN_LSB)),
        InstrV::Cmp(Val::Reg(Reg::RBX), Val::Imm(BOOLEAN_LSB)),
    ]
}

/// The code of `isvec` after its operand: `true` in `rax` exactly when the
/// low two bits of the operand are `01` and it is not nil, that is, when it
/// is a vector; `false` otherwise.
pub open spec fn vec_test_code() -> Seq<InstrV> {
    seq![
        InstrV::Mov(Val::Reg(Reg::RBX), Val::Reg(Reg::RAX)),
        InstrV::And(Val::Reg(Reg::RBX), Val::Imm(3)),
        InstrV::Cmp(Val::Reg(Reg::RBX), Val::Imm(1)),
        InstrV::Mov(Val::Reg(Reg::RBX), Val::Imm(FALSE_VAL)),
        InstrV::Mov(Val::Reg(Reg::R10), Val::Imm(TRUE_VAL)),
        InstrV::CMove(Val::Reg(Reg::RBX), Val::Reg(Reg::R10)),
        InstrV::Mov(Val::Reg(Reg::R10), Val::Imm(FALSE_VAL)),
        InstrV::Cmp(Val::Reg(Reg::RAX), Val::Imm(NIL_VAL)),
        InstrV::CMove(Val::Reg(Reg::RBX), Val::Reg(Reg::R10)),
        InstrV::Mov(Val::Reg(Reg::RAX), Val::Reg(Reg::RBX)),
    ]
}

/// The check that `rax` holds a vector, not nil, jumping to the
/// invalid-address trampoline otherwise.
pub open spec fn vec_guard_code() -> Seq<InstrV> {
    seq![
        InstrV::Mov(Val::Reg(Reg::RBX), Val::Reg(Reg::RAX)),
        InstrV::Cmp(Val::Reg(Reg::RBX), Val::Imm(NIL_VAL)),
        InstrV::JumpEqual(spec_err_label(ErrCode::InvalidVecAddress)),
        InstrV::And(Val::Reg(Reg::RBX), Val::Imm(3)),
        InstrV::Cmp(Val::Reg(Reg::RBX), Val::Imm(1)),
        InstrV::JumpNotEqual(spec_err_label(ErrCode::InvalidVecAddress)),
    ]
}

/// The check that `rax` and the slot at `off` hold values of the same class:
/// the low bit of their xor is clear, and the low bit of `rax` xor the low two
/// bits of their xor is not `0b11`.
pub open spec fn same_types_code(off: i64) -> Seq<InstrV> {
    seq![
        InstrV::Mov(Val::Reg(Reg::RBX), Val::Reg(Reg::RAX)),
        InstrV::Xor(Val::Reg(Reg::RBX), Val::RegOff(Reg::RBP, off)),
        InstrV::Test(Val::Reg(Reg::RBX), Val::Imm(1)),
        InstrV::JumpNotZero(spec_err_label(ErrCode::InvalidType)),
        InstrV::Mov(Val::Reg(Reg::R10), Val::Reg(Reg::RAX)),
        InstrV::And(Val::Reg(Reg::R10), Val::Imm(1)),
        InstrV::And(Val::Reg(Reg::RBX), Val::Imm(3)),
        InstrV::Xor(Val::Reg(Reg::R10), Val::Reg(Reg::RBX)),
        InstrV::Cmp(Val::Reg(Reg::R10), Val::Imm(3)),
        InstrV::JumpEqual(spec_err_label(ErrCode::InvalidType)),
    ]
}

/// The check that `rax` and the slot at `off` both hold numbers, then their
/// comparison, the slot on the left, with true in `rbx` and false in `rax`.
pub open spec fn inequality_code(off: i64) -> Seq<InstrV> {
    seq![
        InstrV::Mov(Val::Reg(Reg::RBX), Val::Reg(Reg::RAX)),
        InstrV::Or(Val::Reg(Reg::RBX), Val::RegOff(Reg::RBP, off)),
        InstrV::Test(Val::Reg(Reg::RBX), Val::Imm(1)),
        InstrV::JumpNotEqual(spec_err_label(ErrCode::InvalidType)),
        InstrV::Cmp(Val::RegOff(Reg::RBP, off), Val::Reg(Reg::RAX)),
        InstrV::Mov(Val::Reg(Reg::RBX), Val::Imm(TRUE_VAL)),
        InstrV::Mov(Val::Reg(Reg::RAX), Val::Imm(FALSE_VAL)),
    ]
}

pub open spec fn overflow_code() -> Seq<InstrV> {
    seq![InstrV::JumpOverflow(spec_err_label(ErrCode::Overflow))]
}

/// The check of an index in `rax` against the vector whose tagged address is
/// in the slot `off`: a number, not below 0 and below the length. It leaves
/// the index in `rax` and the untagged address in `rbx`.
pub open spec fn bounds_check_code(off: i64) -> Seq<InstrV> {
    number_guard_code(ErrCode::InvalidVecOffset) + seq![
        InstrV::Sar(Val::Reg(Reg::RAX), Val::Imm(1)),
        InstrV::Mov(Val::Reg(Reg::RBX), Val::RegOff(Reg::RBP, off)),
        InstrV::Sub(Val::Reg(Reg::RBX), Val::Imm(1)),
        InstrV::Mov(Val::Reg(Reg::R10), Val::RegOff(Reg::RBX, 0)),
        InstrV::Cmp(Val::Reg(Reg::RAX), Val::Reg(Reg::R10)),
        InstrV::JumpGreaterEqual(spec_err_label(ErrCode::IndexOutOfBounds)),
        InstrV::Cmp(Val::Reg(Reg::RAX), Val::Imm(0)),
        InstrV::JumpLess(spec_err_label(ErrCode::IndexOutOfBounds)),
    ]
}

/// The loop that stores `rax` into every element of the vector whose
/// untagged address is in the slot `off`, counting in `r10` up to the length.
pub open spec fn fill_loop_code(off: i64, start: Seq<char>, end: Seq<char>) -> Seq<InstrV> {
    seq![
        InstrV::Mov(Val::Reg(Reg::R10), Val::Imm(0)),
        InstrV::Label(start),
        InstrV::Mov(Val::Reg(Reg::RBX), Val::RegOff(Reg::RBP, off)),
        InstrV::Mov(Val::Reg(Reg::RBX), Val::RegOff(Reg::RBX, 0)),
        InstrV::Cmp(Val::Reg(Reg::R10), Val::Reg(Reg::RBX)),
        InstrV::JumpEqual(end),
        InstrV::Add(Val::Reg(Reg::R10), Val::Imm(1)),
        InstrV::Mov(Val::Reg(Reg::RBX), Val::RegOff(Reg::RBP, off)),
        InstrV::Shl(Val::Reg(Reg::R10), Val::Imm(WORD_SIZE_SHIFT)),
        InstrV::Add(Val::Reg(Reg::RBX), Val::Reg(Reg::R10)),
        InstrV::Mov(Val::RegOff(Reg::RBX, 0), Val::Reg(Reg::RAX)),
        InstrV::Sar(Val::Reg(Reg::R10), Val::Imm(WORD_SIZE_SHIFT)),
        InstrV::Jump(start),
        InstrV::Label(end),
    ]
}

/// Sets the condition codes: equal exactly when `rax` holds a number.
fn is_number() -> (r: Vec<Instr>)
    ensures
        code_view(r@) == number_check_code(),
        r@ == seq![
            Instr::Mov(Val::Reg(Reg::RBX), Val::Reg(Reg::RAX)),
            Instr::Not(Val::Reg(Reg::RBX)),
            Instr::And(Val::Reg(Reg::RBX), Val::Imm(1)),
            Instr::Cmp(Val::Reg(Reg::RBX), Val::Imm(1)),
        ],
        rsp_delta(r@) == 0,
        forall|lo: int, hi: int| #[trigger] code_ok(r@, lo, hi),
{
    let mut r: Vec<Instr> = Vec::new();
    assert(code_view(r@) =~= Seq::<InstrV>::empty());
    emit(&mut r, Instr::Mov(Val::Reg(Reg::RBX), Val::Reg(Reg::RAX)));
    emit(&mut r, Instr::Not(Val::Reg(Reg::RBX)));
    emit(&mut r, Instr::And(Val::Reg(Reg::RBX), Val::Imm(1)));
    emit(&mut r, Instr::Cmp(Val::Reg(Reg::RBX), Val::Imm(1)));
    r
}

/// Jumps to the trampoline of `err` unless `rax` holds a number.
fn is_number_with_error(err: ErrCode) -> (r: Vec<Instr>)
    ensures
        code_view(r@) == number_guard_code(err),
        r@.len() == 5,
        r@.subrange(0, 4) == seq![
            Instr::Mov(Val::Reg(Reg::RBX), Val::Reg(Reg::RAX)),
            Instr::Not(Val::Reg(Reg::RBX)),
            Instr::And(Val::Reg(Reg::RBX), Val::Imm(1)),
            Instr::Cmp(Val::Reg(Reg::RBX), Val::Imm(1)),
        ],
        r@[4] matches Instr::JumpNotEqual(l) && l@ == spec_err_label(err),
        rsp_delta(r@) == 0,
        forall|lo: int, hi: int| #[trigger] code_ok(r@, lo, hi),
{
    let mut r = is_number();
    let ghost first = r@;
    emit(&mut r, Instr::JumpNotEqual(label_of(err)));
    assert(r@.subrange(0, 4) =~= first);
    r
}

/// Jumps to the invalid-size trampoline unless `rax` holds a number `>= 0`.
fn is_positive_int() -> (r: Vec<Instr>)
    ensures
        code_view(r@) == size_guard_code(),
        r@.len() == 7,
        r@[5] == Instr::Cmp(Val::Reg(Reg::RAX), Val::Imm(0)),
        r@[6] matches Instr::JumpLess(l) && l@ == spec_err_label(ErrCode::InvalidVecSize),
        r@[4] matches Instr::JumpNotEqual(l) && l@ == spec_err_label(ErrCode::InvalidVecSize),
        rsp_delta(r@) == 0,
        forall|lo: int, hi: int| #[trigger] code_ok(r@, lo, hi),
{
    let mut r = is_number_with_error(ErrCode::InvalidVecSize);
    emit(&mut r, Instr::Cmp(Val::Reg(Reg::RAX), Val::Imm(0)));
    emit(&mut r, Instr::JumpLess(label_of(ErrCode::InvalidVecSize)));
    r
}

/// Sets the condition codes: equal exactly when `rax` holds a boolean.
fn is_boolean() -> (r: Vec<Instr>)
    ensures
        code_view(r@) == bool_check_code(),
        r@ == seq![
            Instr::Mov(Val::Reg(Reg::RBX), Val::Reg(Reg::RAX)),
            Instr::And(Val::Reg(Reg::RBX), Val::Imm(BOOLEAN_LSB)),
            Instr::Cmp(Val::Reg(Reg::RBX), Val::Imm(BOOLEAN_LSB)),
        ],
        rsp_delta(r@) == 0,
        forall|lo: int, hi: int| #[trigger] code_ok(r@, lo, hi),
{
    let mut r: Vec<Instr> = Vec::new();
    assert(code_view(r@) =~= Seq::<InstrV>::empty());
    emit(&mut r, Instr::Mov(Val::Reg(Reg::RBX), Val::Reg(Reg::RAX)));
    emit(&mut r, Instr::And(Val::Reg(Reg::RBX), Val::Imm(BOOLEAN_LSB)));
    emit(&mut r, Instr::Cmp(Val::Reg(Reg::RBX), Val::Imm(BOOLEAN_LSB)));
    r
}

/// The code of `isvec`: `true` in `rax` exactly when it holds a vector, not
/// nil.
fn is_vector() -> (r: Vec<Instr>)
    ensures
        code_view(r@) == vec_test_code(),
        rsp_delta(r@) == 0,
        forall|lo: int, hi: int| #[trigger] code_ok(r@, lo, hi),
{
    let mut r: Vec<Instr> = Vec::new();
    assert(code_view(r@) =~= Seq::<InstrV>::empty());
    emit(&mut r, Instr::Mov(Val::Reg(Reg::RBX), Val::Reg(Reg::RAX)));
    emit(&mut r, Instr::And(Val::Reg(Reg::RBX), Val::Imm(3)));
    emit(&mut r, Instr::Cmp(Val::Reg(Reg::RBX), Val::Imm(1)));
    emit(&mut r, Instr::Mov(Val::Reg(Reg::RBX), Val::Imm(FALSE_VAL)));
    emit(&mut r, Instr::Mov(Val::Reg(Reg::R10), Val::Imm(TRUE_VAL)));
    emit(&mut r, Instr::CMove(Val::Reg(Reg::RBX), Val::Reg(Reg::R10)));
    emit(&mut r, Instr::Mov(Val::Reg(Reg::R10), Val::Imm(FALSE_VAL)));
    emit(&mut r, Instr::Cmp(Val::Reg(Reg::RAX), Val::Imm(NIL_VAL)));
    emit(&mut r, Instr::CMove(Val::Reg(Reg::RBX), Val::Reg(Reg::R10)));
    emit(&mut r, Instr::Mov(Val::Reg(Reg::RAX), Val::Reg(Reg::RBX)));
    r
}

/// Jumps to the invalid-address trampoline unless `rax` holds a vector.
fn is_non_nil_vector() -> (r: Vec<Instr>)
    ensures
        code_view(r@) == vec_guard_code(),
        r@.len() == 6,
        r@[0] == Instr::Mov(Val::Reg(Reg::RBX), Val::Reg(Reg::RAX)),
        r@[1] == Instr::Cmp(Val::Reg(Reg::RBX), Val::Imm(NIL_VAL)),
        r@[2] matches Instr::JumpEqual(l) && l@ == spec_err_label(ErrCode::InvalidVecAddress),
        r@[3] == Instr::And(Val::Reg(Reg::RBX), Val::Imm(3)),
        r@[4] == Instr::Cmp(Val::Reg(Reg::RBX), Val::Imm(1)),
        r@[5] matches Instr::JumpNotEqual(l) && l@ == spec_err_label(ErrCode::InvalidVecAddress),
        rsp_delta(r@) == 0,
        forall|lo: int, hi: int| #[trigger] code_ok(r@, lo, hi),
{
    let mut r: Vec<Instr> = Vec::new();
    assert(code_view(r@) =~= Seq::<InstrV>::empty());
    emit(&mut r, Instr::Mov(Val::Reg(Reg::RBX), Val::Reg(Reg::RAX)));
    emit(&mut r, Instr::Cmp(Val::Reg(Reg::RBX), Val::Imm(NIL_VAL)));
    emit(&mut r, Instr::JumpEqual(label_of(ErrCode::InvalidVecAddress)));
    emit(&mut r, Instr::And(Val::Reg(Reg::RBX), Val::Imm(3)));
    emit(&mut r, Instr::Cmp(Val::Reg(Reg::RBX), Val::Imm(1)));
    emit(&mut r, Instr::JumpNotEqual(label_of(ErrCode::InvalidVecAddress)));
    r
}

/// Jumps to the invalid-type trampoline unless `rax` and the slot at
/// `stack_offset` hold values of the same class.
fn are_same_types(stack_offset: i64) -> (r: Vec<Instr>)
    ensures
        code_view(r@) == same_types_code(stack_offset),
        r@.len() == 10,
        r@[0] == Instr::Mov(Val::Reg(Reg::RBX), Val::Reg(Reg::RAX)),
        r@[1] == Instr::Xor(Val::Reg(Reg::RBX), Val::RegOff(Reg::RBP, stack_offset)),
        r@[2] == Instr::Test(Val::Reg(Reg::RBX), Val::Imm(1)),
        r@[3] matches Instr::JumpNotZero(l) && l@ == spec_err_label(ErrCode::InvalidType),
        r@[4] == Instr::Mov(Val::Reg(Reg::R10), Val::Reg(Reg::RAX)),
        r@[5] == Instr::And(Val::Reg(Reg::R10), Val::Imm(1)),
        r@[6] == Instr::And(Val::Reg(Reg::RBX), Val::Imm(3)),
        r@[7] == Instr::Xor(Val::Reg(Reg::R10), Val::Reg(Reg::RBX)),
        r@[8] == Instr::Cmp(Val::Reg(Reg::R10), Val::Imm(3)),
        r@[9] matches Instr::JumpEqual(l) && l@ == spec_err_label(ErrCode::InvalidType),
        rsp_delta(r@) == 0,
        forall|lo: int, hi: int| slot_ok(stack_offset, lo, hi) ==> #[trigger] code_ok(r@, lo, hi),
{
    let mut r: Vec<Instr> = Vec::new();
    assert(code_view(r@) =~= Seq::<InstrV>::empty());
    emit(&mut r, Instr::Mov(Val::Reg(Reg::RBX), Val::Reg(Reg::RAX)));
    emit(&mut r, Instr::Xor(Val::Reg(Reg::RBX), Val::RegOff(Reg::RBP, stack_offset)));
    emit(&mut r, Instr::Test(Val::Reg(Reg::RBX), Val::Imm(1)));
    emit(&mut r, Instr::JumpNotZero(label_of(ErrCode::InvalidType)));
    emit(&mut r, Instr::Mov(Val::Reg(Reg::R10), Val::Reg(Reg::RAX)));
    emit(&mut r, Instr::And(Val::Reg(Reg::R10), Val::Imm(1)));
    emit(&mut r, Instr::And(Val::Reg(Reg::RBX), Val::Imm(3)));
    emit(&mut r, Instr::Xor(Val::Reg(Reg::R10), Val::Reg(Reg::RBX)));
    emit(&mut r, Instr::Cmp(Val::Reg(Reg::R10), Val::Imm(3)));
    emit(&mut r, Instr::JumpEqual(label_of(ErrCode::InvalidType)));
    r
}

/// Checks that `rax` and the slot at `stack_offset` both hold numbers, then
/// compares them, with true in `rbx` and false in `rax` for a conditional
/// move to follow.
fn get_inequality_instrs(stack_offset: i64) -> (r: Vec<Instr>)
    ensures
        code_view(r@) == inequality_code(stack_offset),
        r@.len() == 7,
        r@[0] == Instr::Mov(Val::Reg(Reg::RBX), Val::Reg(Reg::RAX)),
        r@[1] == Instr::Or(Val::Reg(Reg::RBX), Val::RegOff(Reg::RBP, stack_offset)),
        r@[2] == Instr::Test(Val::Reg(Reg::RBX), Val::Imm(1)),
        r@[3] matches Instr::JumpNotEqual(l) && l@ == spec_err_label(ErrCode::InvalidType),
        r@[4] == Instr::Cmp(Val::RegOff(Reg::RBP, stack_offset), Val::Reg(Reg::RAX)),
        r@[5] == Instr::Mov(Val::Reg(Reg::RBX), Val::Imm(TRUE_VAL)),
        r@[6] == Instr::Mov(Val::Reg(Reg::RAX), Val::Imm(FALSE_VAL)),
        rsp_delta(r@) == 0,
        forall|lo: int, hi: int| slot_ok(stack_offset, lo, hi) ==> #[trigger] code_ok(r@, lo, hi),
{
    let mut r: Vec<Instr> = Vec::new();
    assert(code_view(r@) =~= Seq::<InstrV>::empty());
    emit(&mut r, Instr::Mov(Val::Reg(Reg::RBX), Val::Reg(Reg::RAX)));
    emit(&mut r, Instr::Or(Val::Reg(Reg::RBX), Val::RegOff(Reg::RBP, stack_offset)));
    emit(&mut r, Instr::Test(Val::Reg(Reg::RBX), Val::Imm(1)));
    emit(&mut r, Instr::JumpNotEqual(label_of(ErrCode::InvalidType)));
    emit(&mut r, Instr::Cmp(Val::RegOff(Reg::RBP, stack_offset), Val::Reg(Reg::RAX)));
    emit(&mut r, Instr::Mov(Val::Reg(Reg::RBX), Val::Imm(TRUE_VAL)));
    emit(&mut r, Instr::Mov(Val::Reg(Reg::RAX), Val::Imm(FALSE_VAL)));
    r
}

/// Jumps to the overflow trampoline when the last operation overflowed.
fn get_num_overflow_instrs() -> (r: Vec<Instr>)
    ensures
        code_view(r@) == overflow_code(),
        r@.len() == 1,
        r@[0] matches Instr::JumpOverflow(l) && l@ == spec_err_label(ErrCode::Overflow),
        rsp_delta(r@) == 0,
        forall|lo: int, hi: int| #[trigger] code_ok(r@, lo, hi),
{
    let mut r: Vec<Instr> = Vec::new();
    assert(code_view(r@) =~= Seq::<InstrV>::empty());
    emit(&mut r, Instr::JumpOverflow(label_of(ErrCode::Overflow)));
    r
}

/// Whether `i` lies outside the 63-bit range of numbers.
fn int_overflow(i: i64) -> (r: bool)
    ensures
        r == !in_i63(i as int),
{
    i < I63_MIN || i > I63_MAX
}


// ---------------------------------------------------------------------------
// Expressions

/// What the compiler knows while it compiles an expression.
struct Context<'a> {
    /// The last stack slot in use.
    si: i64,
    env: &'a Env,
    /// The label that `break` jumps to; empty outside a loop.
    break_label: &'a String,
    fun_map: &'a FunTable,
    compiling_main: bool,
}

/// What may be asked of a compilation of `e` at stack index `si`: the slots
/// it needs stay countable, and every identifier has an allowed slot.
pub open spec fn compile_pre(e: Expr, si: int, env: Env, lo: int) -> bool {
    &&& 0 <= si
    &&& si + spec_depth(e) <= u32::MAX
    &&& lo <= 0
    &&& env_ok(env_entries(env), si, lo)
}

/// What a compilation of `e` promises. While the label counter, starting at
/// `c0`, has room for the labels of `e`, it fails exactly with the first
/// static error of `e`. On success it draws exactly those labels, and the code
/// touches only the slots up to `si + depth(e)` and the parameter slots down
/// to `lo`, and leaves the stack pointer where it found it.
pub open spec fn compile_post(
    e: Expr,
    si: int,
    env: Env,
    brk: Seq<char>,
    funs: FunTable,
    main: bool,
    lo: int,
    c0: u64,
    c1: u64,
    r: Result<Vec<Instr>, CompileError>,
) -> bool {
    &&& (c0 + expr_labels(e) <= u64::MAX ==> match r {
        Ok(_) => expr_fault(e, env_entries(env).dom(), brk.len() > 0, fun_arities(funs), main) is None,
        Err(err) => expr_fault(e, env_entries(env).dom(), brk.len() > 0, fun_arities(funs), main)
            == Some(err@),
    })
    &&& (r is Ok ==> c1 == c0 + expr_labels(e))
    &&& c1 >= c0
    &&& (r matches Ok(code) ==> code_ok(code@, lo, 8 * (si + spec_depth(e))) && rsp_delta(code@)
        == 0)
    &&& (r matches Ok(code) ==> code_view(code@) == expr_code(e, si, env_entries(env), brk, c0 as nat))
}

fn with_si<'a>(cx: &Context<'a>, si: i64) -> (r: Context<'a>)
    ensures
        r.si == si,
        r.env == cx.env,
        r.break_label == cx.break_label,
        r.fun_map == cx.fun_map,
        r.compiling_main == cx.compiling_main,
{
    Context {
        si,
        env: cx.env,
        break_label: cx.break_label,
        fun_map: cx.fun_map,
        compiling_main: cx.compiling_main,
    }
}

/// Compiles an expression; its value ends up in `rax`.
#[verifier::rlimit(100)]
fn compile_expr(e: &Expr, cx: &Context, ctr: &mut u64, Ghost(lo): Ghost<int>) -> (r: Result<
    Vec<Instr>,
    CompileError,
>)
    requires
        compile_pre(*e, cx.si as int, *cx.env, lo),
    ensures
        compile_post(
            *e,
            cx.si as int,
            *cx.env,
            cx.break_label@,
            *cx.fun_map,
            cx.compiling_main,
            lo,
            *old(ctr),
            *final(ctr),
            r,
        ),
    decreases e, 3int,
{
    let ghost hi = 8 * (cx.si + spec_depth(*e));
    let ghost c0 = *ctr;
    let mut code: Vec<Instr> = Vec::new();
    assert(code_view(code@) =~= Seq::<InstrV>::empty());
    match e {
        Expr::Number(n) => {
            if int_overflow(*n) {
                return Err(CompileError::NumberOutOfRange(*n));
            }
            emit(&mut code, Instr::Mov(Val::Reg(Reg::RAX), Val::Imm(*n * 2)));
        },
        Expr::Boolean(b) => {
            let v = if *b {
                TRUE_VAL
            } else {
                FALSE_VAL
            };
            emit(&mut code, Instr::Mov(Val::Reg(Reg::RAX), Val::Imm(v)));
        },
        Expr::Nil => {
            emit(&mut code, Instr::Mov(Val::Reg(Reg::RAX), Val::Imm(NIL_VAL)));
        },
        Expr::Input => {
            if !cx.compiling_main {
                return Err(CompileError::InputOutsideMain);
            }
            emit(&mut code, Instr::Mov(Val::Reg(Reg::RAX), Val::Reg(Reg::R13)));
        },
        Expr::Id(x) => {
            match env_get(cx.env, x) {
                Some(off) => {
                    emit(&mut code, Instr::Mov(Val::Reg(Reg::RAX), Val::RegOff(Reg::RBP, off)));
                },
                None => {
                    return Err(CompileError::UnboundVariable(x.clone()));
                },
            }
        },
        Expr::Assign(x, a) => {
            let off = match env_get(cx.env, x) {
                Some(off) => off,
                None => {
                    return Err(CompileError::UnboundVariable(x.clone()));
                },
            };
            match compile_expr(a, cx, ctr, Ghost(lo)) {
                Ok(ca) => {
                    emit_code(&mut code, ca, Ghost(lo), Ghost(hi), Ghost(hi));
                },
                Err(err) => {
                    return Err(err);
                },
            }
            emit(&mut code, Instr::Mov(Val::RegOff(Reg::RBP, off), Val::Reg(Reg::RAX)));
        },
        Expr::UnOp(op, a) => {
            return compile_unary_op(*op, e, cx, ctr, Ghost(lo));
        },
        Expr::BinOp(op, a, b) => {
            return compile_binary_op(*op, e, cx, ctr, Ghost(lo));
        },
        Expr::Let(_, _) => {
            return compile_let(e, cx, ctr, Ghost(lo));
        },
        Expr::Block(_) => {
            return compile_block(e, cx, ctr, Ghost(lo));
        },
        Expr::Call(_, _) => {
            return compile_call(e, cx, ctr, Ghost(lo));
        },
        Expr::Vec(_) => {
            return compile_vec(e, cx, ctr, Ghost(lo));
        },
        Expr::VecGet(_, _) | Expr::VecSet(_, _, _) => {
            return compile_vec_access(e, cx, ctr, Ghost(lo));
        },
        Expr::MakeVec(_, _) => {
            return compile_make_vec(e, cx, ctr, Ghost(lo));
        },
        Expr::If(a, b, c) => {
            let end_label = match get_new_label("ifend", ctr) {
                Ok(l) => l,
                Err(err) => {
                    return Err(err);
                },
            };
            let else_label = match get_new_label("ifelse", ctr) {
                Ok(l) => l,
                Err(err) => {
                    return Err(err);
                },
            };
            match compile_expr(a, cx, ctr, Ghost(lo)) {
                Ok(ca) => {
                    emit_code(&mut code, ca, Ghost(lo), Ghost(8 * (cx.si + spec_depth(**a))), Ghost(hi));
                },
                Err(err) => {
                    return Err(err);
                },
            }
            emit(&mut code, Instr::Cmp(Val::Reg(Reg::RAX), Val::Imm(FALSE_VAL)));
            emit(&mut code, Instr::JumpEqual(else_label.clone()));
            match compile_expr(b, cx, ctr, Ghost(lo)) {
                Ok(cb) => {
                    emit_code(&mut code, cb, Ghost(lo), Ghost(8 * (cx.si + spec_depth(**b))), Ghost(hi));
                },
                Err(err) => {
                    return Err(err);
                },
            }
            emit(&mut code, Instr::Jump(end_label.clone()));
            emit(&mut code, Instr::Label(else_label));
            match compile_expr(c, cx, ctr, Ghost(lo)) {
                Ok(cc) => {
                    emit_code(&mut code, cc, Ghost(lo), Ghost(8 * (cx.si + spec_depth(**c))), Ghost(hi));
                },
                Err(err) => {
                    return Err(err);
                },
            }
            emit(&mut code, Instr::Label(end_label));
        },
        Expr::Loop(a) => {
            let start_label = match get_new_label("loop", ctr) {
                Ok(l) => l,
                Err(err) => {
                    return Err(err);
                },
            };
            let end_label = match get_new_label("endloop", ctr) {
                Ok(l) => l,
                Err(err) => {
                    return Err(err);
                },
            };
            emit(&mut code, Instr::Label(start_label.clone()));
            let inner = Context {
                si: cx.si,
                env: cx.env,
                break_label: &end_label,
                fun_map: cx.fun_map,
                compiling_main: cx.compiling_main,
            };
            match compile_expr(a, &inner, ctr, Ghost(lo)) {
                Ok(ca) => {
                    emit_code(&mut code, ca, Ghost(lo), Ghost(hi), Ghost(hi));
                },
                Err(err) => {
                    return Err(err);
                },
            }
            emit(&mut code, Instr::Jump(start_label));
            emit(&mut code, Instr::Label(end_label));
        },
        Expr::Break(a) => {
            if cx.break_label.as_str().is_empty() {
                return Err(CompileError::BreakOutsideLoop);
            }
            match compile_expr(a, cx, ctr, Ghost(lo)) {
                Ok(ca) => {
                    emit_code(&mut code, ca, Ghost(lo), Ghost(hi), Ghost(hi));
                },
                Err(err) => {
                    return Err(err);
                },
            }
            emit(&mut code, Instr::Jump(cx.break_label.clone()));
        },
        Expr::VecLen(a) => {
            match compile_expr(a, cx, ctr, Ghost(lo)) {
                Ok(ca) => {
                    emit_code(&mut code, ca, Ghost(lo), Ghost(hi), Ghost(hi));
                },
                Err(err) => {
                    return Err(err);
                },
            }
            emit_code(&mut code, is_non_nil_vector(), Ghost(lo), Ghost(hi), Ghost(hi));
            emit(&mut code, Instr::Sub(Val::Reg(Reg::RAX), Val::Imm(1)));
            emit(&mut code, Instr::Mov(Val::Reg(Reg::RAX), Val::RegOff(Reg::RAX, 0)));
            emit(&mut code, Instr::Shl(Val::Reg(Reg::RAX), Val::Imm(1)));
        },
    }
    assert(code_view(code@) =~= expr_code(*e, cx.si as int, env_entries(*cx.env), cx.break_label@, c0 as nat));
    Ok(code)
}

/// Compiles a unary operation `e`.
fn compile_unary_op(op: Op1, e: &Expr, cx: &Context, ctr: &mut u64, Ghost(lo): Ghost<int>) -> (r:
    Result<Vec<Instr>, CompileError>)
    requires
        e matches Expr::UnOp(o, _) && o == op,
        compile_pre(*e, cx.si as int, *cx.env, lo),
    ensures
        compile_post(
            *e,
            cx.si as int,
            *cx.env,
            cx.break_label@,
            *cx.fun_map,
            cx.compiling_main,
            lo,
            *old(ctr),
            *final(ctr),
            r,
        ),
    decreases e, 2int,
{
    let a = match e {
        Expr::UnOp(_, a) => a,
        _ => {
            proof {
                assert(false);
            }
            return Err(CompileError::TooLarge);
        },
    };
    let ghost hi = 8 * (cx.si + spec_depth(*e));
    let ghost c0 = *ctr;
    let mut code: Vec<Instr> = Vec::new();
    assert(code_view(code@) =~= Seq::<InstrV>::empty());
    match compile_expr(a, cx, ctr, Ghost(lo)) {
        Ok(ca) => {
            emit_code(&mut code, ca, Ghost(lo), Ghost(hi), Ghost(hi));
        },
        Err(err) => {
            return Err(err);
        },
    }
    match op {
        Op1::Add1 => {
            emit_code(&mut code, is_number_with_error(ErrCode::InvalidType), Ghost(lo), Ghost(hi), Ghost(hi));
            emit(&mut code, Instr::Add(Val::Reg(Reg::RAX), Val::Imm(2)));
            emit_code(&mut code, get_num_overflow_instrs(), Ghost(lo), Ghost(hi), Ghost(hi));
        },
        Op1::Sub1 => {
            emit_code(&mut code, is_number_with_error(ErrCode::InvalidType), Ghost(lo), Ghost(hi), Ghost(hi));
            emit(&mut code, Instr::Sub(Val::Reg(Reg::RAX), Val::Imm(2)));
            emit_code(&mut code, get_num_overflow_instrs(), Ghost(lo), Ghost(hi), Ghost(hi));
        },
        Op1::IsVec => {
            emit_code(&mut code, is_vector(), Ghost(lo), Ghost(hi), Ghost(hi));
        },
        Op1::IsNum | Op1::IsBool => {
            let check = match op {
                Op1::IsNum => is_number(),
                _ => is_boolean(),
            };
            emit_code(&mut code, check, Ghost(lo), Ghost(hi), Ghost(hi));
            emit(&mut code, Instr::Mov(Val::Reg(Reg::RAX), Val::Imm(FALSE_VAL)));
            emit(&mut code, Instr::Mov(Val::Reg(Reg::RBX), Val::Imm(TRUE_VAL)));
            emit(&mut code, Instr::CMove(Val::Reg(Reg::RAX), Val::Reg(Reg::RBX)));
        },
        Op1::Print => {
            emit(&mut code, Instr::Mov(Val::Reg(Reg::RDI), Val::Reg(Reg::RAX)));
            emit(&mut code, Instr::Call(String::from_str("snek_print")));
        },
    }
    assert(code_view(code@) =~= expr_code(*e, cx.si as int, env_entries(*cx.env), cx.break_label@, c0 as nat));
    Ok(code)
}

/// Compiles a binary operation `e`: the first operand is kept in the slot
/// above `si` while the second is computed.
#[verifier::rlimit(100)]
fn compile_binary_op(op: Op2, e: &Expr, cx: &Context, ctr: &mut u64, Ghost(lo): Ghost<int>) -> (r:
    Result<Vec<Instr>, CompileError>)
    requires
        e matches Expr::BinOp(o, _, _) && o == op,
        compile_pre(*e, cx.si as int, *cx.env, lo),
    ensures
        compile_post(
            *e,
            cx.si as int,
            *cx.env,
            cx.break_label@,
            *cx.fun_map,
            cx.compiling_main,
            lo,
            *old(ctr),
            *final(ctr),
            r,
        ),
    decreases e, 2int,
{
    let (a, b) = match e {
        Expr::BinOp(_, a, b) => (a, b),
        _ => {
            proof {
                assert(false);
            }
            return Err(CompileError::TooLarge);
        },
    };
    let ghost hi = 8 * (cx.si + spec_depth(*e));
    let ghost c0 = *ctr;
    let mut code: Vec<Instr> = Vec::new();
    assert(code_view(code@) =~= Seq::<InstrV>::empty());
    let stack_offset: i64 = (cx.si + 1) * WORD_SIZE;
    let slot = Val::RegOff(Reg::RBP, stack_offset);
    let next = with_si(cx, cx.si + 1);
    proof {
        lemma_env_ok_widen(env_entries(*cx.env), cx.si as int, cx.si + 1, lo);
    }
    match compile_expr(a, cx, ctr, Ghost(lo)) {
        Ok(ca) => {
            emit_code(&mut code, ca, Ghost(lo), Ghost(8 * (cx.si + spec_depth(**a))), Ghost(hi));
        },
        Err(err) => {
            return Err(err);
        },
    }
    let arith = match op {
        Op2::Plus | Op2::Minus | Op2::Times => true,
        _ => false,
    };
    if arith {
        emit(&mut code, Instr::Test(Val::Reg(Reg::RAX), Val::Imm(1)));
        emit(&mut code, Instr::JumpNotZero(label_of(ErrCode::InvalidType)));
    }
    emit(&mut code, Instr::Mov(slot, Val::Reg(Reg::RAX)));
    match compile_expr(b, &next, ctr, Ghost(lo)) {
        Ok(cb) => {
            emit_code(&mut code, cb, Ghost(lo), Ghost(8 * (cx.si + 1 + spec_depth(**b))), Ghost(hi));
        },
        Err(err) => {
            return Err(err);
        },
    }
    if arith {
        emit(&mut code, Instr::Test(Val::Reg(Reg::RAX), Val::Imm(1)));
        emit(&mut code, Instr::JumpNotZero(label_of(ErrCode::InvalidType)));
    }
    match op {
        Op2::Plus => {
            emit(&mut code, Instr::Add(Val::Reg(Reg::RAX), slot));
            emit_code(&mut code, get_num_overflow_instrs(), Ghost(lo), Ghost(hi), Ghost(hi));
        },
        Op2::Minus => {
            emit(&mut code, Instr::Mov(Val::Reg(Reg::RBX), Val::Reg(Reg::RAX)));
            emit(&mut code, Instr::Mov(Val::Reg(Reg::RAX), slot));
            emit(&mut code, Instr::Sub(Val::Reg(Reg::RAX), Val::Reg(Reg::RBX)));
            emit_code(&mut code, get_num_overflow_instrs(), Ghost(lo), Ghost(hi), Ghost(hi));
        },
        Op2::Times => {
            emit(&mut code, Instr::Sar(Val::Reg(Reg::RAX), Val::Imm(1)));
            emit(&mut code, Instr::Mul(Val::Reg(Reg::RAX), slot));
            emit_code(&mut code, get_num_overflow_instrs(), Ghost(lo), Ghost(hi), Ghost(hi));
        },
        Op2::Equal => {
            emit_code(&mut code, are_same_types(stack_offset), Ghost(lo), Ghost(hi), Ghost(hi));
            emit(&mut code, Instr::Cmp(Val::Reg(Reg::RAX), slot));
            emit(&mut code, Instr::Mov(Val::Reg(Reg::RBX), Val::Imm(TRUE_VAL)));
            emit(&mut code, Instr::Mov(Val::Reg(Reg::RAX), Val::Imm(FALSE_VAL)));
            emit(&mut code, Instr::CMove(Val::Reg(Reg::RAX), Val::Reg(Reg::RBX)));
        },
        Op2::Greater | Op2::GreaterEqual | Op2::Less | Op2::LessEqual => {
            emit_code(&mut code, get_inequality_instrs(stack_offset), Ghost(lo), Ghost(hi), Ghost(hi));
            let cmov = match op {
                Op2::Greater => Instr::CMovg(Val::Reg(Reg::RAX), Val::Reg(Reg::RBX)),
                Op2::GreaterEqual => Instr::CMovge(Val::Reg(Reg::RAX), Val::Reg(Reg::RBX)),
                Op2::Less => Instr::CMovl(Val::Reg(Reg::RAX), Val::Reg(Reg::RBX)),
                _ => Instr::CMovle(Val::Reg(Reg::RAX), Val::Reg(Reg::RBX)),
            };
            emit(&mut code, cmov);
        },
        Op2::StructEqual => {
            emit_code(&mut code, are_same_types(stack_offset), Ghost(lo), Ghost(hi), Ghost(hi));
            emit(&mut code, Instr::Mov(Val::Reg(Reg::RDI), slot));
            emit(&mut code, Instr::Mov(Val::Reg(Reg::RSI), Val::Reg(Reg::RAX)));
            emit(&mut code, Instr::Call(String::from_str("snek_equals")));
        },
    }
    assert(code_view(code@) =~= expr_code(*e, cx.si as int, env_entries(*cx.env), cx.break_label@, c0 as nat));
    Ok(code)
}


/// Compiles a `let`: binding `i` is computed at `si + i` and stored in slot
/// `si + 1 + i`, and is in scope for the later bindings and the body, which
/// is compiled at `si + n`.
fn compile_let(e: &Expr, cx: &Context, ctr: &mut u64, Ghost(lo): Ghost<int>) -> (r: Result<
    Vec<Instr>,
    CompileError,
>)
    requires
        e is Let,
        compile_pre(*e, cx.si as int, *cx.env, lo),
    ensures
        compile_post(
            *e,
            cx.si as int,
            *cx.env,
            cx.break_label@,
            *cx.fun_map,
            cx.compiling_main,
            lo,
            *old(ctr),
            *final(ctr),
            r,
        ),
    decreases e, 2int,
{
    let (bs, body) = match e {
        Expr::Let(bs, body) => (bs, body),
        _ => {
            proof {
                assert(false);
            }
            return Err(CompileError::TooLarge);
        },
    };
    let ghost hi = 8 * (cx.si + spec_depth(*e));
    let ghost d = spec_depth(*e);
    let ghost c0 = *ctr;
    let ghost env0 = env_entries(*cx.env).dom();
    let ghost in_loop = cx.break_label@.len() > 0;
    let ghost funs = fun_arities(*cx.fun_map);
    let ghost main = cx.compiling_main;
    let ghost si = cx.si as int;
    let ghost brk = cx.break_label@;
    let ghost envm0 = env_entries(*cx.env);
    let mut code: Vec<Instr> = Vec::new();
    assert(code_view(code@) =~= Seq::<InstrV>::empty());
    assert(code_view(code@) + let_code(bs@, 0, si, envm0, brk, c0 as nat) =~= let_code(bs@, 0, si, envm0, brk, c0 as nat));
    let mut env = env_clone(cx.env);
    let mut locals = names_new();
    let mut i: usize = 0;
    while i < bs.len()
        invariant
            compile_pre(*e, cx.si as int, *cx.env, lo),
            *e == Expr::Let(*bs, *body),
            hi == 8 * (cx.si + d),
            d == spec_depth(*e),
            i <= bs@.len(),
            env_ok(env_entries(env), cx.si + i, lo),
            bindings_depth(bs@, i as int) <= d,
            *ctr + let_labels(bs@, i as int) == c0 + let_labels(bs@, 0),
            *ctr >= c0,
            c0 == *old(ctr),
            env0 == env_entries(*cx.env).dom(),
            in_loop == (cx.break_label@.len() > 0),
            funs == fun_arities(*cx.fun_map),
            main == cx.compiling_main,
            c0 + expr_labels(*e) <= u64::MAX ==> let_fault(bs@, 0, env0, Set::empty(), in_loop, funs, main)
                == let_fault(bs@, i as int, env_entries(env).dom(), name_set(locals), in_loop, funs, main),
            let_env(bs@, 0, env0) == let_env(bs@, i as int, env_entries(env).dom()),
            si == cx.si,
            brk == cx.break_label@,
            envm0 == env_entries(*cx.env),
            code_view(code@) + let_code(bs@, i as int, si, env_entries(env), brk, *ctr as nat)
                == let_code(bs@, 0, si, envm0, brk, c0 as nat),
            let_env_map(bs@, 0, si, envm0) == let_env_map(bs@, i as int, si, env_entries(env)),
            code_ok(code@, lo, hi),
            rsp_delta(code@) == 0,
            forall|j: int| 0 <= j < bs@.len() ==> decreases_to!(e => bs@[j].1),
        decreases bs@.len() - i,
    {
        let id = &bs[i].0;
        let ghost view_before = code_view(code@);
        let ghost env_before = env_entries(env);
        let ghost ctr_before = *ctr as nat;
        proof {
            assert(let_labels(bs@, i as int) == expr_labels(bs@[i as int].1) + let_labels(bs@, i + 1));
            assert(bindings_depth(bs@, i as int) == max_nat(
                spec_depth(bs@[i as int].1) + i as nat,
                bindings_depth(bs@, i + 1),
            ));
            assert(let_env(bs@, i as int, env_entries(env).dom()) == let_env(
                bs@,
                i + 1,
                env_entries(env).dom().insert(bs@[i as int].0@),
            ));
        }
        if names_contains(&locals, id) {
            return Err(CompileError::DuplicateBinding(id.clone()));
        }
        let stack_offset: i64 = (cx.si + 1 + i as i64) * WORD_SIZE;
        let inner = Context {
            si: cx.si + i as i64,
            env: &env,
            break_label: cx.break_label,
            fun_map: cx.fun_map,
            compiling_main: cx.compiling_main,
        };
        match compile_expr(&bs[i].1, &inner, ctr, Ghost(lo)) {
            Ok(cb) => {
                emit_code(&mut code, cb, Ghost(lo), Ghost(8 * (cx.si + i + spec_depth(bs@[i as int].1))), Ghost(hi));
            },
            Err(err) => {
                return Err(err);
            },
        }
        emit(&mut code, Instr::Mov(Val::RegOff(Reg::RBP, stack_offset), Val::Reg(Reg::RAX)));
        locals = names_update(&locals, id);
        env = env_update(&env, id, stack_offset);
        proof {
            assert(stack_offset == (8 * (si + 1 + i)) as i64);
            assert(let_code(bs@, i as int, si, env_before, brk, ctr_before) == expr_code(
                bs@[i as int].1,
                si + i,
                env_before,
                brk,
                ctr_before,
            ) + seq![InstrV::Mov(slot(si + 1 + i), Val::Reg(Reg::RAX))] + let_code(
                bs@,
                i + 1,
                si,
                env_entries(env),
                brk,
                *ctr as nat,
            ));
            assert(code_view(code@) + let_code(bs@, i + 1, si, env_entries(env), brk, *ctr as nat)
                =~= view_before + let_code(bs@, i as int, si, env_before, brk, ctr_before));
            assert(let_env_map(bs@, i as int, si, env_before) == let_env_map(bs@, i + 1, si, env_entries(env)));
        }
        i = i + 1;
    }
    proof {
        assert(code_view(code@) =~= code_view(code@) + let_code(bs@, i as int, si, env_entries(env), brk, *ctr as nat));
    }
    let n = bs.len() as i64;
    let inner = Context {
        si: cx.si + n,
        env: &env,
        break_label: cx.break_label,
        fun_map: cx.fun_map,
        compiling_main: cx.compiling_main,
    };
    match compile_expr(body, &inner, ctr, Ghost(lo)) {
        Ok(cb) => {
            emit_code(&mut code, cb, Ghost(lo), Ghost(8 * (cx.si + n + spec_depth(**body))), Ghost(hi));
        },
        Err(err) => {
            return Err(err);
        },
    }
    assert(code_view(code@) =~= expr_code(*e, cx.si as int, env_entries(*cx.env), cx.break_label@, c0 as nat));
    Ok(code)
}

/// Compiles a block: each expression in turn, all at the same index.
fn compile_block(e: &Expr, cx: &Context, ctr: &mut u64, Ghost(lo): Ghost<int>) -> (r: Result<
    Vec<Instr>,
    CompileError,
>)
    requires
        e is Block,
        compile_pre(*e, cx.si as int, *cx.env, lo),
    ensures
        compile_post(
            *e,
            cx.si as int,
            *cx.env,
            cx.break_label@,
            *cx.fun_map,
            cx.compiling_main,
            lo,
            *old(ctr),
            *final(ctr),
            r,
        ),
    decreases e, 2int,
{
    let es = match e {
        Expr::Block(es) => es,
        _ => {
            proof {
                assert(false);
            }
            return Err(CompileError::TooLarge);
        },
    };
    if es.len() == 0 {
        return Err(CompileError::EmptyBlock);
    }
    let ghost hi = 8 * (cx.si + spec_depth(*e));
    let ghost d = spec_depth(*e);
    let ghost c0 = *ctr;
    let ghost env0 = env_entries(*cx.env).dom();
    let ghost in_loop = cx.break_label@.len() > 0;
    let ghost funs = fun_arities(*cx.fun_map);
    let ghost si = cx.si as int;
    let ghost brk = cx.break_label@;
    let ghost envm = env_entries(*cx.env);
    let mut code: Vec<Instr> = Vec::new();
    assert(code_view(code@) =~= Seq::<InstrV>::empty());
    assert(code_view(code@) + block_code(es@, 0, si, envm, brk, c0 as nat) =~= block_code(es@, 0, si, envm, brk, c0 as nat));
    let mut i: usize = 0;
    while i < es.len()
        invariant
            compile_pre(*e, cx.si as int, *cx.env, lo),
            *e == Expr::Block(*es),
            si == cx.si,
            brk == cx.break_label@,
            envm == env_entries(*cx.env),
            code_view(code@) + block_code(es@, i as int, si, envm, brk, *ctr as nat)
                == block_code(es@, 0, si, envm, brk, c0 as nat),
            hi == 8 * (cx.si + d),
            d == spec_depth(*e),
            i <= es@.len(),
            seq_max_depth(es@, i as int) <= d,
            *ctr + seq_labels(es@, i as int) == c0 + seq_labels(es@, 0),
            *ctr >= c0,
            c0 == *old(ctr),
            env0 == env_entries(*cx.env).dom(),
            in_loop == (cx.break_label@.len() > 0),
            funs == fun_arities(*cx.fun_map),
            c0 + expr_labels(*e) <= u64::MAX ==> seq_fault(es@, 0, env0, in_loop, funs, cx.compiling_main)
                == seq_fault(es@, i as int, env0, in_loop, funs, cx.compiling_main),
            code_ok(code@, lo, hi),
            rsp_delta(code@) == 0,
            forall|j: int| 0 <= j < es@.len() ==> decreases_to!(e => es@[j]),
        decreases es@.len() - i,
    {
        proof {
            assert(seq_labels(es@, i as int) == expr_labels(es@[i as int]) + seq_labels(es@, i + 1));
            assert(seq_max_depth(es@, i as int) == max_nat(
                spec_depth(es@[i as int]),
                seq_max_depth(es@, i + 1),
            ));
            assert(seq_fault(es@, i as int, env0, in_loop, funs, cx.compiling_main) == match expr_fault(
                es@[i as int],
                env0,
                in_loop,
                funs,
                cx.compiling_main,
            ) {
                Some(f) => Some(f),
                None => seq_fault(es@, i + 1, env0, in_loop, funs, cx.compiling_main),
            });
        }
        let ghost view_before = code_view(code@);
        let ghost ctr_before = *ctr as nat;
        match compile_expr(&es[i], cx, ctr, Ghost(lo)) {
            Ok(c) => {
                emit_code(&mut code, c, Ghost(lo), Ghost(8 * (cx.si + spec_depth(es@[i as int]))), Ghost(hi));
            },
            Err(err) => {
                return Err(err);
            },
        }
        proof {
            assert(block_code(es@, i as int, si, envm, brk, ctr_before) == expr_code(es@[i as int], si, envm, brk, ctr_before)
                + block_code(es@, i + 1, si, envm, brk, *ctr as nat));
            assert(code_view(code@) + block_code(es@, i + 1, si, envm, brk, *ctr as nat)
                =~= view_before + block_code(es@, i as int, si, envm, brk, ctr_before));
        }
        i = i + 1;
    }
    assert(code_view(code@) =~= code_view(code@) + block_code(es@, i as int, si, envm, brk, *ctr as nat));
    assert(code_view(code@) =~= expr_code(*e, cx.si as int, env_entries(*cx.env), cx.break_label@, c0 as nat));
    Ok(code)
}

/// Compiles the arguments `es` of a call or a vector: argument `i` is computed
/// at `si + i` and stored in slot `si + 1 + i`.
fn compile_args(e: &Expr, es: &Vec<Expr>, cx: &Context, ctr: &mut u64, Ghost(lo): Ghost<int>) -> (r:
    Result<Vec<Instr>, CompileError>)
    requires
        (e matches Expr::Call(_, args) && args == *es) || (e matches Expr::Vec(args) && args == *es),
        compile_pre(*e, cx.si as int, *cx.env, lo),
    ensures
        *old(ctr) + seq_labels(es@, 0) <= u64::MAX ==> match r {
            Ok(_) => seq_fault(es@, 0, env_entries(*cx.env).dom(), cx.break_label@.len() > 0, fun_arities(*cx.fun_map), cx.compiling_main) is None,
            Err(err) => seq_fault(es@, 0, env_entries(*cx.env).dom(), cx.break_label@.len() > 0, fun_arities(*cx.fun_map), cx.compiling_main) == Some(err@),
        },
        r is Ok ==> *final(ctr) == *old(ctr) + seq_labels(es@, 0),
        *final(ctr) >= *old(ctr),
        r matches Ok(code) ==> code_ok(code@, lo, 8 * (cx.si + spec_depth(*e))) && rsp_delta(code@) == 0,
        r matches Ok(code) ==> code_view(code@) == args_code(
            es@,
            0,
            cx.si as int,
            env_entries(*cx.env),
            cx.break_label@,
            *old(ctr) as nat,
        ),
    decreases e, 1int,
{
    let ghost hi = 8 * (cx.si + spec_depth(*e));
    let ghost d = spec_depth(*e);
    let ghost c0 = *ctr;
    let ghost env0 = env_entries(*cx.env).dom();
    let ghost in_loop = cx.break_label@.len() > 0;
    let ghost funs = fun_arities(*cx.fun_map);
    proof {
        assert(forall|j: int| 0 <= j < es@.len() ==> decreases_to!(e => es@[j]));
    }
    let ghost si = cx.si as int;
    let ghost brk = cx.break_label@;
    let ghost envm = env_entries(*cx.env);
    let mut code: Vec<Instr> = Vec::new();
    assert(code_view(code@) =~= Seq::<InstrV>::empty());
    assert(code_view(code@) + args_code(es@, 0, si, envm, brk, c0 as nat) =~= args_code(es@, 0, si, envm, brk, c0 as nat));
    let mut i: usize = 0;
    while i < es.len()
        invariant
            compile_pre(*e, cx.si as int, *cx.env, lo),
            si == cx.si,
            brk == cx.break_label@,
            envm == env_entries(*cx.env),
            code_view(code@) + args_code(es@, i as int, si, envm, brk, *ctr as nat)
                == args_code(es@, 0, si, envm, brk, c0 as nat),
            hi == 8 * (cx.si + d),
            d == spec_depth(*e),
            es@.len() <= d,
            i <= es@.len(),
            seq_indexed_depth(es@, i as int) <= d,
            *ctr + seq_labels(es@, i as int) == c0 + seq_labels(es@, 0),
            *ctr >= c0,
            c0 == *old(ctr),
            env0 == env_entries(*cx.env).dom(),
            in_loop == (cx.break_label@.len() > 0),
            funs == fun_arities(*cx.fun_map),
            c0 + seq_labels(es@, 0) <= u64::MAX ==> seq_fault(es@, 0, env0, in_loop, funs, cx.compiling_main)
                == seq_fault(es@, i as int, env0, in_loop, funs, cx.compiling_main),
            code_ok(code@, lo, hi),
            rsp_delta(code@) == 0,
            forall|j: int| 0 <= j < es@.len() ==> decreases_to!(e => es@[j]),
        decreases es@.len() - i,
    {
        proof {
            lemma_env_ok_widen(env_entries(*cx.env), cx.si as int, cx.si + i, lo);
        }
        let inner = with_si(cx, cx.si + i as i64);
        proof {
            assert(seq_labels(es@, i as int) == expr_labels(es@[i as int]) + seq_labels(es@, i + 1));
            assert(seq_indexed_depth(es@, i as int) == max_nat(
                spec_depth(es@[i as int]) + i as nat,
                seq_indexed_depth(es@, i + 1),
            ));
            assert(seq_fault(es@, i as int, env0, in_loop, funs, cx.compiling_main) == match expr_fault(
                es@[i as int],
                env0,
                in_loop,
                funs,
                cx.compiling_main,
            ) {
                Some(f) => Some(f),
                None => seq_fault(es@, i + 1, env0, in_loop, funs, cx.compiling_main),
            });
        }
        let ghost view_before = code_view(code@);
        let ghost ctr_before = *ctr as nat;
        match compile_expr(&es[i], &inner, ctr, Ghost(lo)) {
            Ok(c) => {
                emit_code(&mut code, c, Ghost(lo), Ghost(8 * (cx.si + i + spec_depth(es@[i as int]))), Ghost(hi));
            },
            Err(err) => {
                return Err(err);
            },
        }
        let stack_offset: i64 = (cx.si + 1 + i as i64) * WORD_SIZE;
        emit(&mut code, Instr::Mov(Val::RegOff(Reg::RBP, stack_offset), Val::Reg(Reg::RAX)));
        proof {
            assert(stack_offset == (8 * (si + 1 + i)) as i64);
            assert(args_code(es@, i as int, si, envm, brk, ctr_before) == expr_code(es@[i as int], si + i, envm, brk, ctr_before)
                + seq![InstrV::Mov(slot(si + 1 + i), Val::Reg(Reg::RAX))]
                + args_code(es@, i + 1, si, envm, brk, *ctr as nat));
            assert(code_view(code@) + args_code(es@, i + 1, si, envm, brk, *ctr as nat)
                =~= view_before + args_code(es@, i as int, si, envm, brk, ctr_before));
        }
        i = i + 1;
    }
    assert(code_view(code@) =~= code_view(code@) + args_code(es@, i as int, si, envm, brk, *ctr as nat));
    Ok(code)
}

/// Compiles a call: the arguments go to slots, are pushed last to first,
/// with one more word when their number is odd so that the stack stays
/// aligned, and are popped after the call.
fn compile_call(e: &Expr, cx: &Context, ctr: &mut u64, Ghost(lo): Ghost<int>) -> (r: Result<
    Vec<Instr>,
    CompileError,
>)
    requires
        e is Call,
        compile_pre(*e, cx.si as int, *cx.env, lo),
    ensures
        compile_post(
            *e,
            cx.si as int,
            *cx.env,
            cx.break_label@,
            *cx.fun_map,
            cx.compiling_main,
            lo,
            *old(ctr),
            *final(ctr),
            r,
        ),
    decreases e, 2int,
{
    let (name, args) = match e {
        Expr::Call(name, args) => (name, args),
        _ => {
            proof {
                assert(false);
            }
            return Err(CompileError::TooLarge);
        },
    };
    let ghost hi = 8 * (cx.si + spec_depth(*e));
    let ghost c0 = *ctr;
    match funs_arity(cx.fun_map, name) {
        None => {
            return Err(CompileError::UndefinedFunction(name.clone()));
        },
        Some(expected) => {
            if expected != args.len() {
                return Err(CompileError::WrongArity(name.clone(), args.len(), expected));
            }
        },
    }
    let mut code = match compile_args(e, args, cx, ctr, Ghost(lo)) {
        Ok(c) => c,
        Err(err) => {
            return Err(err);
        },
    };
    let m = args.len();
    assert(m <= spec_depth(*e));
    let ghost args_view = code_view(code@);
    let padded: u64 = if m % 2 != 0 {
        emit(&mut code, Instr::Push(Val::Imm(NIL_VAL)));
        m as u64 + 1
    } else {
        m as u64
    };
    let ghost pad = if m % 2 != 0 {
        seq![InstrV::Push(Val::Imm(NIL_VAL))]
    } else {
        Seq::<InstrV>::empty()
    };
    assert(code_view(code@) =~= args_view + pad + pushes_code(cx.si as int, m as int, m as int));
    let mut k: usize = m;
    while k > 0
        invariant
            code_view(code@) == args_view + pad + pushes_code(cx.si as int, m as int, k as int),
            k <= m,
            m == args@.len(),
            m <= spec_depth(*e),
            compile_pre(*e, cx.si as int, *cx.env, lo),
            hi == 8 * (cx.si + spec_depth(*e)),
            code_ok(code@, lo, hi),
            rsp_delta(code@) == -8 * ((padded - m) + (m - k)),
        decreases k,
    {
        k = k - 1;
        let stack_offset: i64 = (cx.si + 1 + k as i64) * WORD_SIZE;
        emit(&mut code, Instr::Push(Val::RegOff(Reg::RBP, stack_offset)));
        proof {
            assert(stack_offset == (8 * (cx.si + 1 + k)) as i64);
            assert(pushes_code(cx.si as int, m as int, k as int) == pushes_code(cx.si as int, m as int, k + 1).push(
                InstrV::Push(slot(cx.si + 1 + k)),
            ));
            assert(code_view(code@) =~= args_view + pad + pushes_code(cx.si as int, m as int, k as int));
        }
    }
    emit(&mut code, Instr::Call(fun_label(name)));
    emit(&mut code, Instr::Add(Val::Reg(Reg::RSP), Val::Imm(WORD_SIZE * padded as i64)));
    assert(code_view(code@) =~= expr_code(*e, cx.si as int, env_entries(*cx.env), cx.break_label@, c0 as nat));
    Ok(code)
}

/// Compiles a vector: the elements go to slots, then the header and the
/// elements are written at the heap pointer, which moves past them.
fn compile_vec(e: &Expr, cx: &Context, ctr: &mut u64, Ghost(lo): Ghost<int>) -> (r: Result<
    Vec<Instr>,
    CompileError,
>)
    requires
        e is Vec,
        compile_pre(*e, cx.si as int, *cx.env, lo),
    ensures
        compile_post(
            *e,
            cx.si as int,
            *cx.env,
            cx.break_label@,
            *cx.fun_map,
            cx.compiling_main,
            lo,
            *old(ctr),
            *final(ctr),
            r,
        ),
    decreases e, 2int,
{
    let args = match e {
        Expr::Vec(args) => args,
        _ => {
            proof {
                assert(false);
            }
            return Err(CompileError::TooLarge);
        },
    };
    let ghost hi = 8 * (cx.si + spec_depth(*e));
    let ghost c0 = *ctr;
    let mut code = match compile_args(e, args, cx, ctr, Ghost(lo)) {
        Ok(c) => c,
        Err(err) => {
            return Err(err);
        },
    };
    let m = args.len();
    assert(m <= spec_depth(*e));
    emit(&mut code, Instr::Mov(Val::Reg(Reg::RBX), Val::Reg(Reg::R15)));
    emit(&mut code, Instr::Add(Val::Reg(Reg::R15), Val::Imm(WORD_SIZE * (1 + m as i64))));
    emit(&mut code, Instr::Mov(Val::Reg(Reg::R10), Val::Imm(m as i64)));
    emit(&mut code, Instr::Mov(Val::RegOff(Reg::RBX, 0), Val::Reg(Reg::R10)));
    let ghost head = code_view(code@);
    assert(code_view(code@) =~= head + stores_code(cx.si as int, 0));
    let mut k: usize = 0;
    while k < m
        invariant
            code_view(code@) == head + stores_code(cx.si as int, k as int),
            k <= m,
            m == args@.len(),
            m <= spec_depth(*e),
            compile_pre(*e, cx.si as int, *cx.env, lo),
            hi == 8 * (cx.si + spec_depth(*e)),
            code_ok(code@, lo, hi),
            rsp_delta(code@) == 0,
        decreases m - k,
    {
        let stack_offset: i64 = (cx.si + 1 + k as i64) * WORD_SIZE;
        emit(&mut code, Instr::Mov(Val::Reg(Reg::RAX), Val::RegOff(Reg::RBP, stack_offset)));
        let elem_offset: i64 = -((1 + k as i64) * WORD_SIZE);
        emit(&mut code, Instr::Mov(Val::RegOff(Reg::RBX, elem_offset), Val::Reg(Reg::RAX)));
        proof {
            assert(stack_offset == (8 * (cx.si + (k + 1))) as i64);
            assert(elem_offset == (-8 * (k + 1)) as i64);
            assert(code_view(code@) =~= head + stores_code(cx.si as int, k + 1));
        }
        k = k + 1;
    }
    emit(&mut code, Instr::Mov(Val::Reg(Reg::RAX), Val::Reg(Reg::RBX)));
    emit(&mut code, Instr::Add(Val::Reg(Reg::RAX), Val::Imm(1)));
    assert(code_view(code@) =~= expr_code(*e, cx.si as int, env_entries(*cx.env), cx.break_label@, c0 as nat));
    Ok(code)
}

/// Checks an index in `rax` against the length of the vector whose tagged
/// address is in the slot `vec_offset`; leaves the index in `rax` and the
/// untagged address in `rbx`.
fn bounds_check(vec_offset: i64) -> (r: Vec<Instr>)
    ensures
        code_view(r@) == bounds_check_code(vec_offset),
        rsp_delta(r@) == 0,
        forall|lo: int, hi: int| slot_ok(vec_offset, lo, hi) ==> #[trigger] code_ok(r@, lo, hi),
{
    let mut r = is_number_with_error(ErrCode::InvalidVecOffset);
    emit(&mut r, Instr::Sar(Val::Reg(Reg::RAX), Val::Imm(1)));
    emit(&mut r, Instr::Mov(Val::Reg(Reg::RBX), Val::RegOff(Reg::RBP, vec_offset)));
    emit(&mut r, Instr::Sub(Val::Reg(Reg::RBX), Val::Imm(1)));
    emit(&mut r, Instr::Mov(Val::Reg(Reg::R10), Val::RegOff(Reg::RBX, 0)));
    emit(&mut r, Instr::Cmp(Val::Reg(Reg::RAX), Val::Reg(Reg::R10)));
    emit(&mut r, Instr::JumpGreaterEqual(label_of(ErrCode::IndexOutOfBounds)));
    emit(&mut r, Instr::Cmp(Val::Reg(Reg::RAX), Val::Imm(0)));
    emit(&mut r, Instr::JumpLess(label_of(ErrCode::IndexOutOfBounds)));
    r
}

/// Compiles `vec-get` and `vec-set!`.
#[verifier::rlimit(100)]
fn compile_vec_access(e: &Expr, cx: &Context, ctr: &mut u64, Ghost(lo): Ghost<int>) -> (r: Result<
    Vec<Instr>,
    CompileError,
>)
    requires
        e is VecGet || e is VecSet,
        compile_pre(*e, cx.si as int, *cx.env, lo),
    ensures
        compile_post(
            *e,
            cx.si as int,
            *cx.env,
            cx.break_label@,
            *cx.fun_map,
            cx.compiling_main,
            lo,
            *old(ctr),
            *final(ctr),
            r,
        ),
    decreases e, 2int,
{
    let (v, index) = match e {
        Expr::VecGet(v, index) => (v, index),
        Expr::VecSet(v, index, _) => (v, index),
        _ => {
            proof {
                assert(false);
            }
            return Err(CompileError::TooLarge);
        },
    };
    let ghost hi = 8 * (cx.si + spec_depth(*e));
    let ghost c0 = *ctr;
    let mut code: Vec<Instr> = Vec::new();
    assert(code_view(code@) =~= Seq::<InstrV>::empty());
    let vec_offset: i64 = (cx.si + 1) * WORD_SIZE;
    proof {
        lemma_env_ok_widen(env_entries(*cx.env), cx.si as int, cx.si + 2, lo);
    }
    match compile_expr(v, cx, ctr, Ghost(lo)) {
        Ok(c) => {
            emit_code(&mut code, c, Ghost(lo), Ghost(8 * (cx.si + spec_depth(**v))), Ghost(hi));
        },
        Err(err) => {
            return Err(err);
        },
    }
    emit_code(&mut code, is_non_nil_vector(), Ghost(lo), Ghost(hi), Ghost(hi));
    emit(&mut code, Instr::Mov(Val::RegOff(Reg::RBP, vec_offset), Val::Reg(Reg::RAX)));
    let next = with_si(cx, cx.si + 1);
    match compile_expr(index, &next, ctr, Ghost(lo)) {
        Ok(c) => {
            emit_code(&mut code, c, Ghost(lo), Ghost(8 * (cx.si + 1 + spec_depth(**index))), Ghost(hi));
        },
        Err(err) => {
            return Err(err);
        },
    }
    emit_code(&mut code, bounds_check(vec_offset), Ghost(lo), Ghost(hi), Ghost(hi));
    match e {
        Expr::VecSet(_, _, value) => {
            let index_offset: i64 = (cx.si + 2) * WORD_SIZE;
            emit(&mut code, Instr::Mov(Val::RegOff(Reg::RBP, index_offset), Val::Reg(Reg::RAX)));
            let after = with_si(cx, cx.si + 2);
            match compile_expr(value, &after, ctr, Ghost(lo)) {
                Ok(c) => {
                    emit_code(&mut code, c, Ghost(lo), Ghost(8 * (cx.si + 2 + spec_depth(**value))), Ghost(hi));
                },
                Err(err) => {
                    return Err(err);
                },
            }
            emit(&mut code, Instr::Mov(Val::Reg(Reg::RBX), Val::RegOff(Reg::RBP, vec_offset)));
            emit(&mut code, Instr::Sub(Val::Reg(Reg::RBX), Val::Imm(1)));
            emit(&mut code, Instr::Mov(Val::Reg(Reg::R10), Val::RegOff(Reg::RBP, index_offset)));
            emit(&mut code, Instr::Add(Val::Reg(Reg::R10), Val::Imm(1)));
            emit(&mut code, Instr::Shl(Val::Reg(Reg::R10), Val::Imm(WORD_SIZE_SHIFT)));
            emit(&mut code, Instr::Add(Val::Reg(Reg::R10), Val::Reg(Reg::RBX)));
            emit(&mut code, Instr::Mov(Val::RegOff(Reg::R10, 0), Val::Reg(Reg::RAX)));
            emit(&mut code, Instr::Mov(Val::Reg(Reg::RAX), Val::RegOff(Reg::RBP, vec_offset)));
        },
        _ => {
            emit(&mut code, Instr::Add(Val::Reg(Reg::RAX), Val::Imm(1)));
            emit(&mut code, Instr::Shl(Val::Reg(Reg::RAX), Val::Imm(WORD_SIZE_SHIFT)));
            emit(&mut code, Instr::Add(Val::Reg(Reg::RBX), Val::Reg(Reg::RAX)));
            emit(&mut code, Instr::Mov(Val::Reg(Reg::RAX), Val::RegOff(Reg::RBX, 0)));
        },
    }
    assert(code_view(code@) =~= expr_code(*e, cx.si as int, env_entries(*cx.env), cx.break_label@, c0 as nat));
    Ok(code)
}

/// The loop that writes `rax` into every element of the vector whose
/// untagged address is in the slot `vec_offset`, counting in `r10`.
fn fill_loop(vec_offset: i64, start: String, end: String) -> (r: Vec<Instr>)
    ensures
        code_view(r@) == fill_loop_code(vec_offset, start@, end@),
        rsp_delta(r@) == 0,
        forall|lo: int, hi: int| slot_ok(vec_offset, lo, hi) ==> #[trigger] code_ok(r@, lo, hi),
{
    let slot = Val::RegOff(Reg::RBP, vec_offset);
    let mut code: Vec<Instr> = Vec::new();
    assert(code_view(code@) =~= Seq::<InstrV>::empty());
    emit(&mut code, Instr::Mov(Val::Reg(Reg::R10), Val::Imm(0)));
    emit(&mut code, Instr::Label(start.clone()));
    emit(&mut code, Instr::Mov(Val::Reg(Reg::RBX), slot));
    emit(&mut code, Instr::Mov(Val::Reg(Reg::RBX), Val::RegOff(Reg::RBX, 0)));
    emit(&mut code, Instr::Cmp(Val::Reg(Reg::R10), Val::Reg(Reg::RBX)));
    emit(&mut code, Instr::JumpEqual(end.clone()));
    emit(&mut code, Instr::Add(Val::Reg(Reg::R10), Val::Imm(1)));
    emit(&mut code, Instr::Mov(Val::Reg(Reg::RBX), slot));
    emit(&mut code, Instr::Shl(Val::Reg(Reg::R10), Val::Imm(WORD_SIZE_SHIFT)));
    emit(&mut code, Instr::Add(Val::Reg(Reg::RBX), Val::Reg(Reg::R10)));
    emit(&mut code, Instr::Mov(Val::RegOff(Reg::RBX, 0), Val::Reg(Reg::RAX)));
    emit(&mut code, Instr::Sar(Val::Reg(Reg::R10), Val::Imm(WORD_SIZE_SHIFT)));
    emit(&mut code, Instr::Jump(start));
    emit(&mut code, Instr::Label(end));
    code
}

/// Compiles `make-vec`: checks the size, reserves the header and the
/// elements at the heap pointer, then fills every element with the value.
fn compile_make_vec(e: &Expr, cx: &Context, ctr: &mut u64, Ghost(lo): Ghost<int>) -> (r: Result<
    Vec<Instr>,
    CompileError,
>)
    requires
        e is MakeVec,
        compile_pre(*e, cx.si as int, *cx.env, lo),
    ensures
        compile_post(
            *e,
            cx.si as int,
            *cx.env,
            cx.break_label@,
            *cx.fun_map,
            cx.compiling_main,
            lo,
            *old(ctr),
            *final(ctr),
            r,
        ),
    decreases e, 2int,
{
    let (size, elem) = match e {
        Expr::MakeVec(size, elem) => (size, elem),
        _ => {
            proof {
                assert(false);
            }
            return Err(CompileError::TooLarge);
        },
    };
    let ghost hi = 8 * (cx.si + spec_depth(*e));
    let ghost c0 = *ctr;
    let mut code: Vec<Instr> = Vec::new();
    assert(code_view(code@) =~= Seq::<InstrV>::empty());
    let vec_offset: i64 = (cx.si + 1) * WORD_SIZE;
    let slot = Val::RegOff(Reg::RBP, vec_offset);
    proof {
        lemma_env_ok_widen(env_entries(*cx.env), cx.si as int, cx.si + 1, lo);
    }
    match compile_expr(size, cx, ctr, Ghost(lo)) {
        Ok(c) => {
            emit_code(&mut code, c, Ghost(lo), Ghost(8 * (cx.si + spec_depth(**size))), Ghost(hi));
        },
        Err(err) => {
            return Err(err);
        },
    }
    emit_code(&mut code, is_positive_int(), Ghost(lo), Ghost(hi), Ghost(hi));
    emit(&mut code, Instr::Shl(Val::Reg(Reg::RAX), Val::Imm(SNEK_NUMBER_TO_OFFSET_SHIFT)));
    emit(&mut code, Instr::Mov(slot, Val::Reg(Reg::R15)));
    emit(&mut code, Instr::Add(Val::Reg(Reg::R15), Val::Reg(Reg::RAX)));
    emit(&mut code, Instr::Add(Val::Reg(Reg::R15), Val::Imm(WORD_SIZE)));
    emit(&mut code, Instr::Sar(Val::Reg(Reg::RAX), Val::Imm(OFFSET_TO_NUMBER_SHIFT)));
    emit(&mut code, Instr::Mov(Val::Reg(Reg::RBX), slot));
    emit(&mut code, Instr::Mov(Val::RegOff(Reg::RBX, 0), Val::Reg(Reg::RAX)));
    let next = with_si(cx, cx.si + 1);
    match compile_expr(elem, &next, ctr, Ghost(lo)) {
        Ok(c) => {
            emit_code(&mut code, c, Ghost(lo), Ghost(8 * (cx.si + 1 + spec_depth(**elem))), Ghost(hi));
        },
        Err(err) => {
            return Err(err);
        },
    }
    let start = match get_new_label("make_vec_start", ctr) {
        Ok(l) => l,
        Err(err) => {
            return Err(err);
        },
    };
    let end = match get_new_label("make_vec_end", ctr) {
        Ok(l) => l,
        Err(err) => {
            return Err(err);
        },
    };
    emit_code(&mut code, fill_loop(vec_offset, start, end), Ghost(lo), Ghost(hi), Ghost(hi));
    emit(&mut code, Instr::Mov(Val::Reg(Reg::RAX), slot));
    emit(&mut code, Instr::Add(Val::Reg(Reg::RAX), Val::Imm(1)));
    assert(code_view(code@) =~= expr_code(*e, cx.si as int, env_entries(*cx.env), cx.break_label@, c0 as nat));
    Ok(code)
}

// ---------------------------------------------------------------------------
// Programs

/// The most parameters a function may have: their offsets `-8 (i + 2)` must
/// fit in a word, and no list of that many names fits in memory.
pub const MAX_PARAMS: u64 = 576460752303423488;

/// The first parameter of `ps[i..]` that repeats one before it, given the
/// names `seen` before `i`.
pub open spec fn params_fault(ps: Seq<String>, i: int, seen: Set<Seq<char>>) -> Option<Fault>
    decreases ps.len() - i,
{
    if i < 0 || i >= ps.len() {
        None
    } else if seen.contains(ps[i]@) {
        Some(Fault::DuplicateParameter(ps[i]@))
    } else {
        params_fault(ps, i + 1, seen.insert(ps[i]@))
    }
}

/// The first repeated function name or repeated parameter in `defs[i..]`,
/// given the functions `funs` defined before `i`.
pub open spec fn defs_fault(defs: Seq<FunDef>, i: int, funs: Map<Seq<char>, nat>) -> Option<Fault>
    decreases defs.len() - i,
{
    if i < 0 || i >= defs.len() {
        None
    } else if funs.contains_key(defs[i].name@) {
        Some(Fault::DuplicateFunction(defs[i].name@))
    } else {
        match params_fault(defs[i].params@, 0, Set::empty()) {
            Some(f) => Some(f),
            None => defs_fault(defs, i + 1, funs.insert(defs[i].name@, defs[i].params@.len())),
        }
    }
}

/// The function table after the definitions `defs[i..]`.
pub open spec fn defs_table(defs: Seq<FunDef>, i: int, funs: Map<Seq<char>, nat>) -> Map<
    Seq<char>,
    nat,
>
    decreases defs.len() - i,
{
    if i < 0 || i >= defs.len() {
        funs
    } else {
        defs_table(defs, i + 1, funs.insert(defs[i].name@, defs[i].params@.len()))
    }
}

/// The identifiers in scope after the parameters `ps[i..]`.
pub open spec fn params_env(ps: Seq<String>, i: int, env: Set<Seq<char>>) -> Set<Seq<char>>
    decreases ps.len() - i,
{
    if i < 0 || i >= ps.len() {
        env
    } else {
        params_env(ps, i + 1, env.insert(ps[i]@))
    }
}

/// The first static error in the body of `d`.
pub open spec fn fun_fault(d: FunDef, funs: Map<Seq<char>, nat>) -> Option<Fault> {
    if d.params@.len() >= MAX_PARAMS || spec_depth(*d.body) >= u32::MAX {
        Some(Fault::TooLarge)
    } else {
        expr_fault(*d.body, params_env(d.params@, 0, Set::empty()), false, funs, false)
    }
}

pub open spec fn funs_fault(defs: Seq<FunDef>, i: int, funs: Map<Seq<char>, nat>) -> Option<Fault>
    decreases defs.len() - i,
{
    if i < 0 || i >= defs.len() {
        None
    } else {
        match fun_fault(defs[i], funs) {
            Some(f) => Some(f),
            None => funs_fault(defs, i + 1, funs),
        }
    }
}

pub open spec fn main_fault(e: Expr, funs: Map<Seq<char>, nat>) -> Option<Fault> {
    if spec_depth(e) >= u32::MAX {
        Some(Fault::TooLarge)
    } else {
        expr_fault(e, Set::empty(), false, funs, true)
    }
}

/// The first static error of a program: first the definitions are checked
/// for repeated names, then the functions are compiled in order, then the
/// main expression.
pub open spec fn program_fault(p: Program) -> Option<Fault> {
    match defs_fault(p.defs@, 0, Map::empty()) {
        Some(f) => Some(f),
        None => {
            let funs = defs_table(p.defs@, 0, Map::empty());
            match funs_fault(p.defs@, 0, funs) {
                Some(f) => Some(f),
                None => main_fault(*p.main, funs),
            }
        },
    }
}

pub open spec fn defs_labels(defs: Seq<FunDef>, i: int) -> nat
    decreases defs.len() - i,
{
    if i < 0 || i >= defs.len() {
        0
    } else {
        expr_labels(*defs[i].body) + defs_labels(defs, i + 1)
    }
}

/// How many labels compiling the program draws.
pub open spec fn program_labels(p: Program) -> nat {
    defs_labels(p.defs@, 0) + expr_labels(*p.main)
}

/// The words a frame reserves for `locals` slots when `saved` registers are
/// pushed: one more where needed so that the saved registers, the frame and
/// the return address fill a whole number of 16-byte units.
pub open spec fn spec_frame_size(locals: nat, saved: nat) -> nat {
    if (locals + saved + 1) % 2 == 0 {
        locals
    } else {
        locals + 1
    }
}

/// The code of a function, as compiled: it ends with its only `ret`, and the
/// instructions before leave the stack pointer where they found it.
pub open spec fn frame_balanced(code: Seq<Instr>) -> bool {
    &&& code.len() > 0
    &&& code.last() == Instr::Ret()
    &&& rsp_delta(code.drop_last()) == 0
    &&& forall|k: int| 0 <= k < code.len() - 1 ==> !(#[trigger] code[k] is Ret)
}

/// The code of the entry point: its label, the prologue that saves six
/// registers, four moves that take the input and the heap, the main
/// expression, which touches only the frame's slots, and the epilogue.
pub open spec fn main_part_ok(part: Seq<Instr>, main: Expr) -> bool {
    &&& part.len() >= 21
    &&& frame_balanced(part)
    &&& code_ok(part.subrange(13, part.len() - 8), 0, 8 * spec_frame_size(spec_depth(main), 6) as int)
}

/// The prologue: the saved registers pushed in order, the base pointer set,
/// and `size` words reserved.
pub open spec fn entry_code(saved: Seq<Val>, size: nat) -> Seq<InstrV> {
    Seq::new(saved.len(), |k: int| InstrV::Push(saved[k])) + seq![
        InstrV::Mov(Val::Reg(Reg::RBP), Val::Reg(Reg::RSP)),
        InstrV::Sub(Val::Reg(Reg::RSP), Val::Imm((8 * size) as i64)),
    ]
}

/// The epilogue: the frame released, the saved registers popped in reverse
/// order, and the return.
pub open spec fn exit_code(saved: Seq<Val>, size: nat) -> Seq<InstrV> {
    seq![InstrV::Add(Val::Reg(Reg::RSP), Val::Imm((8 * size) as i64))] + Seq::new(
        saved.len(),
        |k: int| InstrV::Pop(saved[saved.len() - 1 - k]),
    ) + seq![InstrV::Ret]
}

/// The environment of a function body: parameter `i` at offset `-8 (i + 2)`,
/// above the saved base pointer and the return address.
pub open spec fn params_env_map(ps: Seq<String>, i: int, env: Map<Seq<char>, i64>) -> Map<
    Seq<char>,
    i64,
>
    decreases ps.len() - i,
{
    if i < 0 || i >= ps.len() {
        env
    } else {
        params_env_map(ps, i + 1, env.insert(ps[i]@, (-8 * (i + 2)) as i64))
    }
}

/// The code of a function with the label counter at `c`: its label, the
/// prologue saving `rbp`, the body, and the epilogue.
pub open spec fn fun_code(d: FunDef, c: nat) -> Seq<InstrV> {
    let size = spec_frame_size(spec_depth(*d.body), 1);
    seq![InstrV::Label(fun_label_text(d.name@))] + entry_code(seq![Val::Reg(Reg::RBP)], size) + expr_code(
        *d.body,
        0,
        params_env_map(d.params@, 0, Map::empty()),
        Seq::empty(),
        c,
    ) + exit_code(seq![Val::Reg(Reg::RBP)], size)
}

/// The code of the functions `defs[i..]`, in order.
pub open spec fn funs_code(defs: Seq<FunDef>, i: int, c: nat) -> Seq<InstrV>
    decreases defs.len() - i,
{
    if i < 0 || i >= defs.len() {
        Seq::empty()
    } else {
        fun_code(defs[i], c) + funs_code(defs, i + 1, c + expr_labels(*defs[i].body))
    }
}

/// The trampoline of one error.
pub open spec fn trampoline_code(err: ErrCode) -> Seq<InstrV> {
    seq![
        InstrV::Label(spec_err_label(err)),
        InstrV::Mov(Val::Reg(Reg::EDI), Val::Imm(spec_err_code(err))),
        InstrV::Call("snek_error"@),
    ]
}

/// The trampolines of all the errors, in the order of their codes.
pub open spec fn error_block_code() -> Seq<InstrV> {
    trampoline_code(ErrCode::Overflow) + trampoline_code(ErrCode::InvalidType) + trampoline_code(
        ErrCode::IndexOutOfBounds,
    ) + trampoline_code(ErrCode::InvalidVecAddress) + trampoline_code(ErrCode::InvalidVecOffset)
        + trampoline_code(ErrCode::InvalidVecSize)
}

/// The registers the entry point saves for the runtime.
pub open spec fn main_saved() -> Seq<Val> {
    seq![
        Val::Reg(Reg::RBP),
        Val::Reg(Reg::RBX),
        Val::Reg(Reg::R12),
        Val::Reg(Reg::R13),
        Val::Reg(Reg::R14),
        Val::Reg(Reg::R15),
    ]
}

/// The code of a program: the trampolines, the functions in order, then the
/// entry point `start`, which saves the registers the runtime keeps, takes the
/// heap from `rsi` into `r15` and `r11`, the input from `rdi` into `r13` and
/// the heap end from `rdx` into `r14`, and runs the main expression.
pub open spec fn program_code(p: Program, start: Seq<char>) -> Seq<InstrV> {
    let size = spec_frame_size(spec_depth(*p.main), 6);
    error_block_code() + funs_code(p.defs@, 0, 0) + seq![InstrV::Label(start)] + entry_code(
        main_saved(),
        size,
    ) + seq![
        InstrV::Mov(Val::Reg(Reg::R15), Val::Reg(Reg::RSI)),
        InstrV::Mov(Val::Reg(Reg::R13), Val::Reg(Reg::RDI)),
        InstrV::Mov(Val::Reg(Reg::R14), Val::Reg(Reg::RDX)),
        InstrV::Mov(Val::Reg(Reg::R11), Val::Reg(Reg::RSI)),
    ] + expr_code(*p.main, 0, Map::empty(), Seq::empty(), defs_labels(p.defs@, 0)) + exit_code(
        main_saved(),
        size,
    )
}

/// The words of stack that the frame of a function reserves.
fn frame_size(locals: u32, callee_saved: &[Val]) -> (r: u32)
    requires
        locals < u32::MAX,
    ensures
        r == spec_frame_size(locals as nat, callee_saved@.len()),
        r == locals || r == locals + 1,
        (r + callee_saved@.len() + 1) % 2 == 0,
{
    let n = (locals % 2) as u64 + (callee_saved.len() % 2) as u64 + 1;
    if n % 2 == 0 {
        locals
    } else {
        locals + 1
    }
}

/// The prologue: pushes the registers to save, sets the base pointer, and
/// reserves the frame.
fn fun_entry(locals: u32, callee_saved: &[Val]) -> (r: Vec<Instr>)
    requires
        locals < u32::MAX,
    ensures
        r@.len() == callee_saved@.len() + 2,
        forall|k: int| 0 <= k < callee_saved@.len() ==> r@[k] == Instr::Push(callee_saved@[k]),
        r@[callee_saved@.len() as int] == Instr::Mov(Val::Reg(Reg::RBP), Val::Reg(Reg::RSP)),
        r@[callee_saved@.len() as int + 1] == Instr::Sub(
            Val::Reg(Reg::RSP),
            Val::Imm((8 * spec_frame_size(locals as nat, callee_saved@.len())) as i64),
        ),
        rsp_delta(r@) == -8 * callee_saved@.len() - 8 * spec_frame_size(
            locals as nat,
            callee_saved@.len(),
        ),
        code_view(r@) == entry_code(callee_saved@, spec_frame_size(locals as nat, callee_saved@.len())),
{
    let mut r: Vec<Instr> = Vec::new();
    assert(code_view(r@) =~= Seq::<InstrV>::empty());
    let mut k: usize = 0;
    while k < callee_saved.len()
        invariant
            k <= callee_saved@.len(),
            r@.len() == k,
            forall|j: int| 0 <= j < k ==> r@[j] == Instr::Push(callee_saved@[j]),
            rsp_delta(r@) == -8 * k,
        decreases callee_saved@.len() - k,
    {
        emit(&mut r, Instr::Push(callee_saved[k]));
        k = k + 1;
    }
    emit(&mut r, Instr::Mov(Val::Reg(Reg::RBP), Val::Reg(Reg::RSP)));
    let size = frame_size(locals, callee_saved);
    emit(&mut r, Instr::Sub(Val::Reg(Reg::RSP), Val::Imm(WORD_SIZE * size as i64)));
    assert(code_view(r@) =~= entry_code(callee_saved@, size as nat));
    r
}

/// The epilogue: releases the frame, pops the saved registers in reverse
/// order, and returns.
fn fun_exit(locals: u32, callee_saved: &[Val]) -> (r: Vec<Instr>)
    requires
        locals < u32::MAX,
    ensures
        r@.len() == callee_saved@.len() + 2,
        r@[0] == Instr::Add(
            Val::Reg(Reg::RSP),
            Val::Imm((8 * spec_frame_size(locals as nat, callee_saved@.len())) as i64),
        ),
        forall|k: int|
            0 <= k < callee_saved@.len() ==> #[trigger] r@[k + 1] == Instr::Pop(
                callee_saved@[callee_saved@.len() - 1 - k],
            ),
        r@.last() == Instr::Ret(),
        rsp_delta(r@.drop_last()) == 8 * callee_saved@.len() + 8 * spec_frame_size(
            locals as nat,
            callee_saved@.len(),
        ),
        code_view(r@) == exit_code(callee_saved@, spec_frame_size(locals as nat, callee_saved@.len())),
{
    let mut r: Vec<Instr> = Vec::new();
    assert(code_view(r@) =~= Seq::<InstrV>::empty());
    let size = frame_size(locals, callee_saved);
    emit(&mut r, Instr::Add(Val::Reg(Reg::RSP), Val::Imm(WORD_SIZE * size as i64)));
    let mut k: usize = callee_saved.len();
    while k > 0
        invariant
            k <= callee_saved@.len(),
            r@.len() == 1 + callee_saved@.len() - k,
            r@[0] == Instr::Add(Val::Reg(Reg::RSP), Val::Imm((8 * size) as i64)),
            size == spec_frame_size(locals as nat, callee_saved@.len()),
            forall|j: int|
                0 <= j < callee_saved@.len() - k ==> #[trigger] r@[j + 1] == Instr::Pop(
                    callee_saved@[callee_saved@.len() - 1 - j],
                ),
            rsp_delta(r@) == 8 * size + 8 * (callee_saved@.len() - k),
        decreases k,
    {
        k = k - 1;
        emit(&mut r, Instr::Pop(callee_saved[k]));
    }
    let ghost before = r@;
    emit(&mut r, Instr::Ret());
    assert(r@.drop_last() =~= before);
    assert forall|j: int| 0 <= j < callee_saved@.len() implies #[trigger] code_view(r@)[j + 1]
        == InstrV::Pop(callee_saved@[callee_saved@.len() - 1 - j]) by {
        assert(r@[j + 1] == Instr::Pop(callee_saved@[callee_saved@.len() - 1 - j]));
    }
    assert(code_view(r@)[0] == InstrV::Add(Val::Reg(Reg::RSP), Val::Imm((8 * size) as i64)));
    assert(code_view(r@)[r@.len() - 1] == InstrV::Ret);
    let ghost ex = exit_code(callee_saved@, size as nat);
    assert forall|j: int| 0 <= j < ex.len() implies #[trigger] code_view(r@)[j] == ex[j] by {
        if 1 <= j < ex.len() - 1 {
            let m = j - 1;
            assert(code_view(r@)[m + 1] == InstrV::Pop(callee_saved@[callee_saved@.len() - 1 - m]));
        }
    }
    assert(code_view(r@) =~= ex);
    r
}

/// The trampoline of one error: sets the code as the first argument and
/// calls the runtime's error reporter, which does not return.
fn get_error_instrs(errcode: ErrCode) -> (r: Vec<Instr>)
    ensures
        r@.len() == 3,
        r@[0] matches Instr::Label(l) && l@ == spec_err_label(errcode),
        r@[1] == Instr::Mov(Val::Reg(Reg::EDI), Val::Imm(spec_err_code(errcode))),
        r@[2] matches Instr::Call(f) && f@ == "snek_error"@,
        rsp_delta(r@) == 0,
        code_view(r@) == trampoline_code(errcode),
{
    let mut r: Vec<Instr> = Vec::new();
    assert(code_view(r@) =~= Seq::<InstrV>::empty());
    emit(&mut r, Instr::Label(label_of(errcode)));
    emit(&mut r, Instr::Mov(Val::Reg(Reg::EDI), Val::Imm(errcode.code())));
    emit(&mut r, Instr::Call(String::from_str("snek_error")));
    r
}

/// The trampolines of all the errors, in the order of their codes.
fn compile_error_instrs() -> (r: Vec<Instr>)
    ensures
        code_view(r@) == error_block_code(),
        r@.len() == 18,
        rsp_delta(r@) == 0,
{
    let mut r = get_error_instrs(ErrCode::Overflow);
    emit_all(&mut r, get_error_instrs(ErrCode::InvalidType));
    emit_all(&mut r, get_error_instrs(ErrCode::IndexOutOfBounds));
    emit_all(&mut r, get_error_instrs(ErrCode::InvalidVecAddress));
    emit_all(&mut r, get_error_instrs(ErrCode::InvalidVecOffset));
    emit_all(&mut r, get_error_instrs(ErrCode::InvalidVecSize));
    r
}

/// Compiles one function: its label, the prologue, the body with the
/// parameters above the base pointer, and the epilogue.
pub fn compile_fun(fun: &FunDef, fun_map: &FunTable, ctr: &mut u64) -> (r: Result<
    Vec<Instr>,
    CompileError,
>)
    ensures
        *old(ctr) + expr_labels(*fun.body) <= u64::MAX ==> match r {
            Ok(_) => fun_fault(*fun, fun_arities(*fun_map)) is None,
            Err(err) => fun_fault(*fun, fun_arities(*fun_map)) == Some(err@),
        },
        r is Ok ==> *final(ctr) == *old(ctr) + expr_labels(*fun.body),
        *final(ctr) >= *old(ctr),
        r matches Ok(code) ==> {
            &&& frame_balanced(code@)
            &&& code@.len() >= 7
            &&& code@[0] matches Instr::Label(l) && l@ == fun_label_text(fun.name@)
            &&& code_ok(
                code@.subrange(4, code@.len() - 3),
                -8 * (fun.params@.len() + 1),
                8 * spec_frame_size(spec_depth(*fun.body), 1) as int,
            )
            &&& code_view(code@) == fun_code(*fun, *old(ctr) as nat)
        },
{
    let locals = depth(&fun.body);
    if fun.params.len() as u64 >= MAX_PARAMS || locals == u32::MAX {
        return Err(CompileError::TooLarge);
    }
    let ghost lo = -8 * (fun.params@.len() + 1);
    let callee_saved = [Val::Reg(Reg::RBP)];
    assert(callee_saved@ =~= seq![Val::Reg(Reg::RBP)]);
    let ghost c0 = *ctr as nat;
    let mut code: Vec<Instr> = Vec::new();
    assert(code_view(code@) =~= Seq::<InstrV>::empty());
    emit(&mut code, Instr::Label(fun_label(&fun.name)));
    let entry = fun_entry(locals, &callee_saved);
    emit_all(&mut code, entry);
    let ghost head = code@;
    let mut env = env_new();
    assert(env_entries(env) =~= Map::<Seq<char>, i64>::empty());
    let mut i: usize = 0;
    while i < fun.params.len()
        invariant
            params_env_map(fun.params@, 0, Map::empty()) == params_env_map(
                fun.params@,
                i as int,
                env_entries(env),
            ),
            i <= fun.params@.len(),
            fun.params@.len() < MAX_PARAMS,
            lo == -8 * (fun.params@.len() + 1),
            env_ok(env_entries(env), 0, lo),
            params_env(fun.params@, 0, Set::empty()) == params_env(fun.params@, i as int, env_entries(env).dom()),
        decreases fun.params@.len() - i,
    {
        let off: i64 = -WORD_SIZE * (i as i64 + 2);
        assert(off == (-8 * (i + 2)) as i64);
        env = env_update(&env, &fun.params[i], off);
        i = i + 1;
    }
    let brk = String::new();
    let cx = Context { si: 0, env: &env, break_label: &brk, fun_map, compiling_main: false };
    assert(env_entries(env).dom() == params_env(fun.params@, 0, Set::empty()));
    let body = match compile_expr(&fun.body, &cx, ctr, Ghost(lo)) {
        Ok(c) => c,
        Err(err) => {
            return Err(err);
        },
    };
    let ghost body_code = body@;
    emit_all(&mut code, body);
    let exit = fun_exit(locals, &callee_saved);
    let ghost exit_code = exit@;
    emit_all(&mut code, exit);
    proof {
        let size = spec_frame_size(spec_depth(*fun.body), 1);
        assert(code_view(code@) =~= fun_code(*fun, c0));
        lemma_code_ok_widen(body_code, lo, 8 * spec_depth(*fun.body) as int, lo, 8 * size as int);
        assert(code@.subrange(4, code@.len() - 3) =~= body_code);
        assert(code@.drop_last() =~= head + body_code + exit_code.drop_last());
        lemma_rsp_delta_concat(head + body_code, exit_code.drop_last());
        lemma_rsp_delta_concat(head, body_code);
        assert forall|k: int| 0 <= k < code@.len() - 1 implies !(#[trigger] code@[k] is Ret) by {
            if 4 <= k < code@.len() - 3 {
                assert(code@[k] == body_code[k - 4]);
                assert(instr_ok(body_code[k - 4], lo, 8 * size as int));
            }
        }
    }
    Ok(code)
}

/// Compiles the functions in order.
fn compile_funs(funs: &Vec<FunDef>, fun_map: &FunTable, ctr: &mut u64) -> (r: Result<
    Vec<Instr>,
    CompileError,
>)
    ensures
        *old(ctr) + defs_labels(funs@, 0) <= u64::MAX ==> match r {
            Ok(_) => funs_fault(funs@, 0, fun_arities(*fun_map)) is None,
            Err(err) => funs_fault(funs@, 0, fun_arities(*fun_map)) == Some(err@),
        },
        r is Ok ==> *final(ctr) == *old(ctr) + defs_labels(funs@, 0),
        *final(ctr) >= *old(ctr),
        r matches Ok(code) ==> code_view(code@) == funs_code(funs@, 0, *old(ctr) as nat),
{
    let ghost c0 = *ctr;
    let ghost table = fun_arities(*fun_map);
    let mut instrs: Vec<Instr> = Vec::new();
    assert(code_view(instrs@) + funs_code(funs@, 0, c0 as nat) =~= funs_code(funs@, 0, c0 as nat));
    let mut i: usize = 0;
    while i < funs.len()
        invariant
            code_view(instrs@) + funs_code(funs@, i as int, *ctr as nat) == funs_code(funs@, 0, c0 as nat),
            i <= funs@.len(),
            c0 == *old(ctr),
            table == fun_arities(*fun_map),
            *ctr >= c0,
            *ctr + defs_labels(funs@, i as int) == c0 + defs_labels(funs@, 0),
            c0 + defs_labels(funs@, 0) <= u64::MAX ==> funs_fault(funs@, 0, table) == funs_fault(
                funs@,
                i as int,
                table,
            ),
        decreases funs@.len() - i,
    {
        proof {
            assert(defs_labels(funs@, i as int) == expr_labels(*funs@[i as int].body) + defs_labels(
                funs@,
                i + 1,
            ));
        }
        let ghost view_before = code_view(instrs@);
        let ghost ctr_before = *ctr as nat;
        match compile_fun(&funs[i], fun_map, ctr) {
            Ok(c) => {
                emit_all(&mut instrs, c);
            },
            Err(err) => {
                return Err(err);
            },
        }
        assert(code_view(instrs@) + funs_code(funs@, i + 1, *ctr as nat) =~= view_before + funs_code(
            funs@,
            i as int,
            ctr_before,
        ));
        i = i + 1;
    }
    assert(code_view(instrs@) =~= code_view(instrs@) + funs_code(funs@, i as int, *ctr as nat));
    Ok(instrs)
}

/// Compiles a program: the error trampolines, the functions, and the entry
/// point `start_label`, whose prologue also saves the registers the runtime
/// expects kept and takes the input and the heap from the runtime.
#[verifier::rlimit(100)]
pub fn compile_program(prog: &Program, start_label: String) -> (r: Result<Vec<Instr>, CompileError>)
    ensures
        program_labels(*prog) <= u64::MAX ==> match r {
            Ok(_) => program_fault(*prog) is None,
            Err(err) => program_fault(*prog) == Some(err@),
        },
        defs_fault(prog.defs@, 0, Map::empty()) is Some ==> (r matches Err(err) && Some(err@)
            == defs_fault(prog.defs@, 0, Map::empty())),
        r matches Ok(code) ==> {
            &&& code_view(code@) == program_code(*prog, start_label@)
            &&& code@.last() == Instr::Ret()
            &&& exists|k: int|
                0 <= k < code@.len() && (#[trigger] code@[k] matches Instr::Label(l) && l@
                    == start_label@) && main_part_ok(code@.subrange(k, code@.len() as int), *prog.main)
        },
{
    let mut instrs = compile_error_instrs();
    let mut fun_map = funs_new();
    assert(fun_arities(fun_map) =~= Map::<Seq<char>, nat>::empty());
    let mut i: usize = 0;
    while i < prog.defs.len()
        invariant
            i <= prog.defs@.len(),
            defs_fault(prog.defs@, 0, Map::empty()) == defs_fault(prog.defs@, i as int, fun_arities(fun_map)),
            defs_table(prog.defs@, 0, Map::empty()) == defs_table(prog.defs@, i as int, fun_arities(fun_map)),
        decreases prog.defs@.len() - i,
    {
        let def = &prog.defs[i];
        if funs_arity(&fun_map, &def.name).is_some() {
            return Err(CompileError::DuplicateFunction(def.name.clone()));
        }
        let mut seen = names_new();
        let mut j: usize = 0;
        while j < def.params.len()
            invariant
                i < prog.defs@.len(),
                *def == prog.defs@[i as int],
                !fun_arities(fun_map).contains_key(def.name@),
                defs_fault(prog.defs@, 0, Map::empty()) == defs_fault(prog.defs@, i as int, fun_arities(fun_map)),
                defs_table(prog.defs@, 0, Map::empty()) == defs_table(prog.defs@, i as int, fun_arities(fun_map)),
                j <= def.params@.len(),
                params_fault(def.params@, 0, Set::empty()) == params_fault(def.params@, j as int, name_set(seen)),
            decreases def.params@.len() - j,
        {
            if names_contains(&seen, &def.params[j]) {
                return Err(CompileError::DuplicateParameter(def.params[j].clone()));
            }
            seen = names_update(&seen, &def.params[j]);
            j = j + 1;
        }
        fun_map = funs_update(&fun_map, &def.name, &def.params);
        i = i + 1;
    }
    let mut ctr: u64 = 0;
    match compile_funs(&prog.defs, &fun_map, &mut ctr) {
        Ok(c) => {
            emit_all(&mut instrs, c);
        },
        Err(err) => {
            return Err(err);
        },
    }
    let ghost k = instrs@.len() as int;
    let ghost label = start_label@;
    emit(&mut instrs, Instr::Label(start_label));
    let ghost head = instrs@;
    let locals = depth(&prog.main);
    if locals == u32::MAX {
        return Err(CompileError::TooLarge);
    }
    let callee_saved = [
        Val::Reg(Reg::RBP),
        Val::Reg(Reg::RBX),
        Val::Reg(Reg::R12),
        Val::Reg(Reg::R13),
        Val::Reg(Reg::R14),
        Val::Reg(Reg::R15),
    ];
    assert(callee_saved@ =~= main_saved());
    let entry = fun_entry(locals, &callee_saved);
    let ghost entry_code = entry@;
    emit_all(&mut instrs, entry);
    let mut moves: Vec<Instr> = Vec::new();
    emit(&mut moves, Instr::Mov(Val::Reg(Reg::R15), Val::Reg(Reg::RSI)));
    emit(&mut moves, Instr::Mov(Val::Reg(Reg::R13), Val::Reg(Reg::RDI)));
    emit(&mut moves, Instr::Mov(Val::Reg(Reg::R14), Val::Reg(Reg::RDX)));
    emit(&mut moves, Instr::Mov(Val::Reg(Reg::R11), Val::Reg(Reg::RSI)));
    let ghost move_code = moves@;
    emit_all(&mut instrs, moves);
    let env = env_new();
    assert(env_entries(env) =~= Map::<Seq<char>, i64>::empty());
    let brk = String::new();
    let cx = Context { si: 0, env: &env, break_label: &brk, fun_map: &fun_map, compiling_main: true };
    let body = match compile_expr(&prog.main, &cx, &mut ctr, Ghost(0)) {
        Ok(c) => c,
        Err(err) => {
            return Err(err);
        },
    };
    let ghost body_code = body@;
    emit_all(&mut instrs, body);
    let exit = fun_exit(locals, &callee_saved);
    let ghost exit_code = exit@;
    emit_all(&mut instrs, exit);
    proof {
        let size = spec_frame_size(spec_depth(*prog.main), 6);
        let part = instrs@.subrange(k, instrs@.len() as int);
        let lbl = seq![head.last()];
        assert(part =~= lbl + entry_code + move_code + body_code + exit_code);
        lemma_code_ok_widen(body_code, 0, 8 * spec_depth(*prog.main) as int, 0, 8 * size as int);
        assert(part.subrange(13, part.len() - 8) =~= body_code);
        assert(part.drop_last() =~= lbl + entry_code + move_code + body_code + exit_code.drop_last());
        assert(rsp_delta(lbl) == 0) by {
            assert(lbl.drop_last() =~= Seq::<Instr>::empty());
        }
        lemma_rsp_delta_concat(lbl, entry_code);
        lemma_rsp_delta_concat(lbl + entry_code, move_code);
        lemma_rsp_delta_concat(lbl + entry_code + move_code, body_code);
        lemma_rsp_delta_concat(lbl + entry_code + move_code + body_code, exit_code.drop_last());
        assert forall|j: int| 0 <= j < part.len() - 1 implies !(#[trigger] part[j] is Ret) by {
            if 13 <= j < part.len() - 8 {
                assert(part[j] == body_code[j - 13]);
                assert(instr_ok(body_code[j - 13], 0, 8 * size as int));
            } else if j >= part.len() - 8 {
                let i = j - (part.len() - 8);
                assert(part[j] == exit_code[i]);
                if i >= 1 {
                    let m = i - 1;
                    assert(exit_code[m + 1] is Pop);
                }
            } else if j >= 9 {
                assert(part[j] == move_code[j - 9]);
            } else if j >= 1 {
                assert(part[j] == entry_code[j - 1]);
            }
        }
        assert(instrs@[k] == head.last());
        assert(main_part_ok(part, *prog.main));
        assert(code_view(instrs@) =~= program_code(*prog, label));
    }
    Ok(instrs)
}
} // verus!
