//! The grammar of Snek: from S-expressions to the abstract syntax.
use vstd::prelude::*;
use crate::syntax::{Expr, FunDef, Op1, Op2, Program};

verus! {

broadcast use vstd::std_specs::vec::group_vec_axioms;

/// An S-expression as the reader hands it over.
#[derive(Debug)]
pub enum SExpr {
    Int(i64),
    /// A floating-point literal, which no form of the language accepts.
    Float,
    Sym(String),
    List(Vec<SExpr>),
}

/// The reserved words, which cannot name a variable, parameter or function.
pub open spec fn is_keyword_spec(s: Seq<char>) -> bool {
    s == "true"@ || s == "false"@ || s == "input"@ || s == "nil"@ || s == "add1"@ || s
        == "sub1"@ || s == "isnum"@ || s == "isbool"@ || s == "isvec"@ || s == "print"@ || s
        == "let"@ || s == "set!"@ || s == "if"@ || s == "block"@ || s == "loop"@ || s
        == "break"@ || s == "fun"@ || s == "vec"@ || s == "vec-get"@ || s == "vec-set!"@ || s
        == "vec-len"@ || s == "make-vec"@ || s == "+"@ || s == "-"@ || s == "*"@ || s == "<"@
        || s == ">"@ || s == "<="@ || s == ">="@ || s == "="@ || s == "=="@
}

/// The list starts with the symbol `k`.
pub open spec fn head_is(items: Seq<SExpr>, k: Seq<char>) -> bool {
    items.len() > 0 && (items[0] matches SExpr::Sym(h) && h@ == k)
}

pub open spec fn unary_op_of(h: Seq<char>) -> Option<Op1> {
    if h == "isnum"@ {
        Some(Op1::IsNum)
    } else if h == "isbool"@ {
        Some(Op1::IsBool)
    } else if h == "isvec"@ {
        Some(Op1::IsVec)
    } else if h == "add1"@ {
        Some(Op1::Add1)
    } else if h == "sub1"@ {
        Some(Op1::Sub1)
    } else if h == "print"@ {
        Some(Op1::Print)
    } else {
        None
    }
}

pub open spec fn binary_op_of(h: Seq<char>) -> Option<Op2> {
    if h == "+"@ {
        Some(Op2::Plus)
    } else if h == "-"@ {
        Some(Op2::Minus)
    } else if h == "*"@ {
        Some(Op2::Times)
    } else if h == "="@ {
        Some(Op2::Equal)
    } else if h == ">"@ {
        Some(Op2::Greater)
    } else if h == ">="@ {
        Some(Op2::GreaterEqual)
    } else if h == "<"@ {
        Some(Op2::Less)
    } else if h == "<="@ {
        Some(Op2::LessEqual)
    } else if h == "=="@ {
        Some(Op2::StructEqual)
    } else {
        None
    }
}

/// `s` reads as the expression `e`.
pub open spec fn parses_to(s: SExpr, e: Expr) -> bool
    decreases s,
{
    match s {
        SExpr::Int(n) => e == Expr::Number(n),
        SExpr::Float => false,
        SExpr::Sym(name) => if name@ == "true"@ {
            e == Expr::Boolean(true)
        } else if name@ == "false"@ {
            e == Expr::Boolean(false)
        } else if name@ == "input"@ {
            e == Expr::Input
        } else if name@ == "nil"@ {
            e == Expr::Nil
        } else {
            !is_keyword_spec(name@) && (e matches Expr::Id(x) && x@ == name@)
        },
        SExpr::List(items) => list_parses_to(items@, e),
    }
}

/// Each of `items` from index `from` on reads as the expression at the same
/// place less `from` in `es`.
pub open spec fn all_parse_to(items: Seq<SExpr>, from: int, es: Seq<Expr>) -> bool
    decreases items, 0int,
{
    &&& 0 <= from <= items.len()
    &&& es.len() == items.len() - from
    &&& forall|i: int| 0 <= i < es.len() ==> parses_to(#[trigger] items[i + from], es[i])
}

/// A let binding `(name e)`.
pub open spec fn binding_parses_to(b: SExpr, name: Seq<char>, e: Expr) -> bool
    decreases b,
{
    b matches SExpr::List(p) && p@.len() == 2 && !is_keyword_spec(name) && parses_to(p@[1], e)
        && (p@[0] matches SExpr::Sym(x) && x@ == name)
}

pub open spec fn bindings_parse_to(s: SExpr, bs: Seq<(String, Expr)>) -> bool
    decreases s,
{
    s matches SExpr::List(items) && items@.len() == bs.len() && forall|i: int|
        0 <= i < bs.len() ==> binding_parses_to(#[trigger] items@[i], bs[i].0@, bs[i].1)
}

/// The list `items` reads as `e`; the forms are tried in this order.
pub open spec fn list_parses_to(items: Seq<SExpr>, e: Expr) -> bool
    decreases items, 1int,
{
    let n = items.len();
    if n == 2 && n > 0 && items[0] is Sym && unary_op_of(items[0]->Sym_0@) is Some {
        e matches Expr::UnOp(op, a) && Some(op) == unary_op_of(items[0]->Sym_0@) && parses_to(
            items[1],
            *a,
        )
    } else if n == 4 && head_is(items, "if"@) {
        e matches Expr::If(a, b, c) && parses_to(items[1], *a) && parses_to(items[2], *b)
            && parses_to(items[3], *c)
    } else if n == 3 && items[0] is Sym && binary_op_of(items[0]->Sym_0@) is Some {
        e matches Expr::BinOp(op, a, b) && Some(op) == binary_op_of(items[0]->Sym_0@)
            && parses_to(items[1], *a) && parses_to(items[2], *b)
    } else if n == 3 && head_is(items, "let"@) {
        e matches Expr::Let(bs, body) && bs@.len() > 0 && bindings_parse_to(items[1], bs@)
            && parses_to(items[2], *body)
    } else if n == 3 && head_is(items, "set!"@) && items[1] is Sym {
        !is_keyword_spec(items[1]->Sym_0@) && (e matches Expr::Assign(x, a) && x@
            == items[1]->Sym_0@ && parses_to(items[2], *a))
    } else if n >= 2 && head_is(items, "block"@) {
        e matches Expr::Block(es) && all_parse_to(items, 1, es@)
    } else if n == 2 && head_is(items, "loop"@) {
        e matches Expr::Loop(a) && parses_to(items[1], *a)
    } else if n == 2 && head_is(items, "break"@) {
        e matches Expr::Break(a) && parses_to(items[1], *a)
    } else if n >= 2 && head_is(items, "vec"@) {
        e matches Expr::Vec(es) && all_parse_to(items, 1, es@)
    } else if n == 3 && head_is(items, "vec-get"@) {
        e matches Expr::VecGet(a, b) && parses_to(items[1], *a) && parses_to(items[2], *b)
    } else if n == 4 && head_is(items, "vec-set!"@) {
        e matches Expr::VecSet(a, b, c) && parses_to(items[1], *a) && parses_to(items[2], *b)
            && parses_to(items[3], *c)
    } else if n == 2 && head_is(items, "vec-len"@) {
        e matches Expr::VecLen(a) && parses_to(items[1], *a)
    } else if n == 3 && head_is(items, "make-vec"@) {
        e matches Expr::MakeVec(a, b) && parses_to(items[1], *a) && parses_to(items[2], *b)
    } else if n >= 1 && items[0] is Sym && !is_keyword_spec(items[0]->Sym_0@) {
        e matches Expr::Call(f, es) && f@ == items[0]->Sym_0@ && all_parse_to(items, 1, es@)
    } else {
        false
    }
}

/// `s` is a well-formed expression: it reads as some expression.
pub open spec fn parses(s: SExpr) -> bool
    decreases s,
{
    match s {
        SExpr::Int(_) => true,
        SExpr::Float => false,
        SExpr::Sym(name) => name@ == "true"@ || name@ == "false"@ || name@ == "input"@ || name@
            == "nil"@ || !is_keyword_spec(name@),
        SExpr::List(items) => list_parses(items@),
    }
}

/// Each of `items` from index `from` on is well formed.
pub open spec fn all_parse(items: Seq<SExpr>, from: int) -> bool
    decreases items, 0int,
{
    0 <= from <= items.len() && forall|i: int| from <= i < items.len() ==> parses(#[trigger] items[i])
}

pub open spec fn binding_parses(b: SExpr) -> bool
    decreases b,
{
    b matches SExpr::List(p) && p@.len() == 2 && parses(p@[1]) && (p@[0] matches SExpr::Sym(x)
        && !is_keyword_spec(x@))
}

pub open spec fn bindings_parse(s: SExpr) -> bool
    decreases s,
{
    s matches SExpr::List(items) && forall|i: int|
        0 <= i < items@.len() ==> binding_parses(#[trigger] items@[i])
}

/// The list `items` is a well-formed expression; the same forms as in
/// `list_parses_to`, in the same order.
pub open spec fn list_parses(items: Seq<SExpr>) -> bool
    decreases items, 1int,
{
    let n = items.len();
    if n == 2 && items[0] is Sym && unary_op_of(items[0]->Sym_0@) is Some {
        parses(items[1])
    } else if n == 4 && head_is(items, "if"@) {
        parses(items[1]) && parses(items[2]) && parses(items[3])
    } else if n == 3 && items[0] is Sym && binary_op_of(items[0]->Sym_0@) is Some {
        parses(items[1]) && parses(items[2])
    } else if n == 3 && head_is(items, "let"@) {
        (items[1] matches SExpr::List(bl) && bl@.len() > 0) && bindings_parse(items[1]) && parses(
            items[2],
        )
    } else if n == 3 && head_is(items, "set!"@) && items[1] is Sym {
        !is_keyword_spec(items[1]->Sym_0@) && parses(items[2])
    } else if n >= 2 && head_is(items, "block"@) {
        all_parse(items, 1)
    } else if n == 2 && head_is(items, "loop"@) {
        parses(items[1])
    } else if n == 2 && head_is(items, "break"@) {
        parses(items[1])
    } else if n >= 2 && head_is(items, "vec"@) {
        all_parse(items, 1)
    } else if n == 3 && head_is(items, "vec-get"@) {
        parses(items[1]) && parses(items[2])
    } else if n == 4 && head_is(items, "vec-set!"@) {
        parses(items[1]) && parses(items[2]) && parses(items[3])
    } else if n == 2 && head_is(items, "vec-len"@) {
        parses(items[1])
    } else if n == 3 && head_is(items, "make-vec"@) {
        parses(items[1]) && parses(items[2])
    } else if n >= 1 && items[0] is Sym && !is_keyword_spec(items[0]->Sym_0@) {
        all_parse(items, 1)
    } else {
        false
    }
}

/// `s` has the shape of a function definition: `(fun (...) body)`.
pub open spec fn is_fundef_spec(s: SExpr) -> bool {
    s matches SExpr::List(items) && items@.len() == 3 && head_is(items@, "fun"@) && items@[1] is List
}

/// `s` is a well-formed definition: `(fun (name params...) body)` with no
/// reserved word among the names.
pub open spec fn def_parses(s: SExpr) -> bool {
    &&& is_fundef_spec(s)
    &&& s matches SExpr::List(items)
    &&& items@[1] matches SExpr::List(np)
    &&& np@.len() >= 1
    &&& np@[0] matches SExpr::Sym(f)
    &&& !is_keyword_spec(f@)
    &&& forall|i: int|
        1 <= i < np@.len() ==> (#[trigger] np@[i] matches SExpr::Sym(x) && !is_keyword_spec(x@))
    &&& parses(items@[2])
}

/// `s` reads as the definition `d`.
pub open spec fn def_parses_to(s: SExpr, d: FunDef) -> bool {
    &&& def_parses(s)
    &&& s matches SExpr::List(items)
    &&& items@[1] matches SExpr::List(np)
    &&& (np@[0] matches SExpr::Sym(f) && d.name@ == f@)
    &&& d.params@.len() == np@.len() - 1
    &&& forall|i: int|
        0 <= i < d.params@.len() ==> (#[trigger] np@[i + 1] matches SExpr::Sym(x) && x@
            == d.params@[i]@)
    &&& parses_to(items@[2], *d.body)
}

/// The index of the first item from `from` on that is not a function
/// definition, or the length when there is none.
pub open spec fn first_non_def(items: Seq<SExpr>, from: int) -> int
    decreases items.len() - from,
{
    if from < 0 || from >= items.len() {
        items.len() as int
    } else if is_fundef_spec(items[from]) {
        first_non_def(items, from + 1)
    } else {
        from
    }
}

/// `s` is a well-formed program. A lone atom is the main expression. A list
/// holds definitions and then the main expression, or, when it does not start
/// with a definition, is itself the main expression; what follows the main
/// expression is not read.
pub open spec fn program_parses(s: SExpr) -> bool {
    match s {
        SExpr::List(items) => {
            let k = first_non_def(items@, 0);
            &&& k < items@.len()
            &&& forall|i: int| 0 <= i < k ==> def_parses(#[trigger] items@[i])
            &&& if k == 0 {
                parses(s)
            } else {
                parses(items@[k])
            }
        },
        SExpr::Float => false,
        _ => parses(s),
    }
}

/// `s` reads as the program `p`.
pub open spec fn program_parses_to(s: SExpr, p: Program) -> bool {
    match s {
        SExpr::List(items) => {
            let k = first_non_def(items@, 0);
            &&& k < items@.len()
            &&& p.defs@.len() == k
            &&& forall|i: int| 0 <= i < k ==> def_parses_to(#[trigger] items@[i], p.defs@[i])
            &&& if k == 0 {
                parses_to(s, *p.main)
            } else {
                parses_to(items@[k], *p.main)
            }
        },
        SExpr::Float => false,
        _ => p.defs@.len() == 0 && parses_to(s, *p.main),
    }
}

proof fn lemma_first_non_def(items: Seq<SExpr>, from: int, j: int)
    requires
        0 <= from <= j <= items.len(),
        forall|i: int| from <= i < j ==> is_fundef_spec(#[trigger] items[i]),
    ensures
        first_non_def(items, from) >= j,
        j < items.len() && !is_fundef_spec(items[j]) ==> first_non_def(items, from) == j,
        j == items.len() ==> first_non_def(items, from) == j,
    decreases j - from,
{
    if from < j {
        lemma_first_non_def(items, from + 1, j);
    } else {
        lemma_first_non_def_at_least(items, from);
    }
}

proof fn lemma_first_non_def_at_least(items: Seq<SExpr>, from: int)
    requires
        0 <= from <= items.len(),
    ensures
        first_non_def(items, from) >= from,
    decreases items.len() - from,
{
    if from < items.len() {
        lemma_first_non_def_at_least(items, from + 1);
    }
}

fn is(s: &String, lit: &str) -> (r: bool)
    ensures
        r == (s@ == lit@),
{
    let t = String::from_str(lit);
    *s == t
}

/// Whether `s` is a reserved word.
pub fn is_keyword(s: &String) -> (r: bool)
    ensures
        r == is_keyword_spec(s@),
{
    is(s, "true") || is(s, "false") || is(s, "input") || is(s, "nil") || is(s, "add1") || is(
        s,
        "sub1",
    ) || is(s, "isnum") || is(s, "isbool") || is(s, "isvec") || is(s, "print") || is(s, "let")
        || is(s, "set!") || is(s, "if") || is(s, "block") || is(s, "loop") || is(s, "break") || is(
        s,
        "fun",
    ) || is(s, "vec") || is(s, "vec-get") || is(s, "vec-set!") || is(s, "vec-len") || is(
        s,
        "make-vec",
    ) || is(s, "+") || is(s, "-") || is(s, "*") || is(s, "<") || is(s, ">") || is(s, "<=") || is(
        s,
        ">=",
    ) || is(s, "=") || is(s, "==")
}

fn unary_op(h: &String) -> (r: Option<Op1>)
    ensures
        r == unary_op_of(h@),
{
    if is(h, "isnum") {
        Some(Op1::IsNum)
    } else if is(h, "isbool") {
        Some(Op1::IsBool)
    } else if is(h, "isvec") {
        Some(Op1::IsVec)
    } else if is(h, "add1") {
        Some(Op1::Add1)
    } else if is(h, "sub1") {
        Some(Op1::Sub1)
    } else if is(h, "print") {
        Some(Op1::Print)
    } else {
        None
    }
}

fn binary_op(h: &String) -> (r: Option<Op2>)
    ensures
        r == binary_op_of(h@),
{
    if is(h, "+") {
        Some(Op2::Plus)
    } else if is(h, "-") {
        Some(Op2::Minus)
    } else if is(h, "*") {
        Some(Op2::Times)
    } else if is(h, "=") {
        Some(Op2::Equal)
    } else if is(h, ">") {
        Some(Op2::Greater)
    } else if is(h, ">=") {
        Some(Op2::GreaterEqual)
    } else if is(h, "<") {
        Some(Op2::Less)
    } else if is(h, "<=") {
        Some(Op2::LessEqual)
    } else if is(h, "==") {
        Some(Op2::StructEqual)
    } else {
        None
    }
}

/// A diagnostic of the parser: it starts with `Invalid: `.
pub open spec fn invalid_message(m: Seq<char>) -> bool {
    m.len() >= 9 && m.subrange(0, 9) == "Invalid: "@
}

fn invalid(what: &str) -> (r: String)
    ensures
        invalid_message(r@),
{
    let mut m = String::from_str("Invalid: ");
    proof {
        reveal_strlit("Invalid: ");
    }
    m.append(what);
    assert(m@.subrange(0, 9) =~= "Invalid: "@);
    m
}

/// A diagnostic for a reserved word used as a name: it starts with
/// `Invalid: reserved keyword`.
pub open spec fn keyword_message(m: Seq<char>) -> bool {
    m.len() >= 25 && m.subrange(0, 25) == "Invalid: reserved keyword"@
}

fn reserved(name: &String, role: &str) -> (r: String)
    ensures
        keyword_message(r@),
        invalid_message(r@),
{
    let mut m = String::from_str("Invalid: reserved keyword ");
    proof {
        reveal_strlit("Invalid: reserved keyword ");
        reveal_strlit("Invalid: reserved keyword");
        reveal_strlit("Invalid: ");
    }
    m.append(name.as_str());
    m.append(role);
    assert(m@.subrange(0, 25) =~= "Invalid: reserved keyword"@);
    assert(m@.subrange(0, 9) =~= "Invalid: "@);
    m
}

/// The binding `b` has the shape `(name e)` with a reserved word as its name.
pub open spec fn reserved_binding(b: SExpr) -> bool {
    b is List && b->List_0@.len() == 2 && b->List_0@[0] is Sym && is_keyword_spec(
        b->List_0@[0]->Sym_0@,
    )
}

/// `items` is a `let` whose first binding has a reserved word as its name.
pub open spec fn let_with_reserved_name(items: Seq<SExpr>) -> bool {
    &&& items.len() == 3
    &&& head_is(items, "let"@)
    &&& items[1] is List
    &&& items[1]->List_0@.len() > 0
    &&& reserved_binding(items[1]->List_0@[0])
}

/// `s` is a reserved word other than the literals `true`, `false`, `input`
/// and `nil`.
pub open spec fn reserved_symbol(s: SExpr) -> bool {
    s is Sym && is_keyword_spec(s->Sym_0@) && s->Sym_0@ != "true"@ && s->Sym_0@ != "false"@
        && s->Sym_0@ != "input"@ && s->Sym_0@ != "nil"@
}

fn clone_string(s: &String) -> (r: String)
    ensures
        r@ == s@,
{
    s.clone()
}

/// Reads `items[from..]` as expressions.
fn parse_all(items: &Vec<SExpr>, from: usize) -> (r: Result<Vec<Expr>, String>)
    requires
        from <= items@.len(),
    ensures
        match r {
            Ok(es) => all_parse(items@, from as int) && all_parse_to(items@, from as int, es@),
            Err(m) => !all_parse(items@, from as int) && invalid_message(m@),
        },
    decreases items, 0int,
{
    let mut es: Vec<Expr> = Vec::new();
    let mut j: usize = from;
    while j < items.len()
        invariant
            from <= j <= items@.len(),
            es@.len() == j - from,
            forall|i: int| 0 <= i < es@.len() ==> parses_to(#[trigger] items@[i + from], es@[i]),
            forall|i: int| from <= i < j ==> parses(#[trigger] items@[i]),
            forall|i: int| 0 <= i < items@.len() ==> decreases_to!(items => items@[i]),
        decreases items@.len() - j,
    {
        match parse_sexpr(&items[j]) {
            Ok(e) => {
                es.push(e);
            },
            Err(m) => {
                return Err(m);
            },
        }
        j = j + 1;
    }
    Ok(es)
}

fn parse_bind(b: &SExpr) -> (r: Result<(String, Expr), String>)
    ensures
        match r {
            Ok(be) => binding_parses(*b) && binding_parses_to(*b, be.0@, be.1),
            Err(m) => !binding_parses(*b) && invalid_message(m@),
        },
        reserved_binding(*b) ==> (r matches Err(m) && keyword_message(m@)),
    decreases b, 1int,
{
    match b {
        SExpr::List(p) => {
            if p.len() == 2 {
                match &p[0] {
                    SExpr::Sym(x) => {
                        if is_keyword(x) {
                            return Err(reserved(x, " cannot name a let binding"));
                        }
                        proof {
                            assert(decreases_to!(b => p@[1]));
                        }
                        match parse_sexpr(&p[1]) {
                            Ok(e) => Ok((clone_string(x), e)),
                            Err(m) => Err(m),
                        }
                    },
                    _ => Err(invalid("let binding")),
                }
            } else {
                Err(invalid("let binding"))
            }
        },
        _ => Err(invalid("let binding")),
    }
}

/// Reads the bindings of a `let`.
fn parse_bindings(s: &SExpr) -> (r: Result<Vec<(String, Expr)>, String>)
    ensures
        match r {
            Ok(bs) => bindings_parse(*s) && bindings_parse_to(*s, bs@),
            Err(m) => !bindings_parse(*s) && invalid_message(m@),
        },
        (*s is List && s->List_0@.len() > 0 && reserved_binding(s->List_0@[0])) ==> (r matches Err(
            m,
        ) && keyword_message(m@)),
    decreases s, 2int,
{
    match s {
        SExpr::List(items) => {
            let mut bs: Vec<(String, Expr)> = Vec::new();
            let mut j: usize = 0;
            while j < items.len()
                invariant
                    j > 0 ==> !reserved_binding(items@[0]),
                    *s == SExpr::List(*items),
                    j <= items@.len(),
                    bs@.len() == j,
                    forall|i: int|
                        0 <= i < j ==> binding_parses_to(#[trigger] items@[i], bs@[i].0@, bs@[i].1),
                    forall|i: int| 0 <= i < j ==> binding_parses(#[trigger] items@[i]),
                    forall|i: int| 0 <= i < items@.len() ==> decreases_to!(s => items@[i]),
                decreases items@.len() - j,
            {
                match parse_bind(&items[j]) {
                    Ok(be) => {
                        bs.push(be);
                    },
                    Err(m) => {
                        proof {
                            if bindings_parse(*s) {
                                assert(s->List_0@ == items@);
                                assert(forall|i: int|
                                    0 <= i < items@.len() ==> binding_parses(#[trigger] items@[i]));
                                assert(binding_parses(items@[j as int]));
                            }
                        }
                        return Err(m);
                    },
                }
                j = j + 1;
            }
            Ok(bs)
        },
        _ => Err(invalid("let bindings")),
    }
}

/// Reads an S-expression as an expression of the language.
pub fn parse_sexpr(s: &SExpr) -> (r: Result<Expr, String>)
    ensures
        match r {
            Ok(e) => parses(*s) && parses_to(*s, e),
            Err(m) => !parses(*s) && invalid_message(m@),
        },
        reserved_symbol(*s) ==> (r matches Err(m) && keyword_message(m@)),
        (*s is List && let_with_reserved_name(s->List_0@)) ==> (r matches Err(m) && keyword_message(
            m@,
        )),
    decreases s, 3int,
{
    match s {
        SExpr::Int(n) => Ok(Expr::Number(*n)),
        SExpr::Float => Err(invalid("floating-point literal")),
        SExpr::Sym(name) => {
            if is(name, "true") {
                Ok(Expr::Boolean(true))
            } else if is(name, "false") {
                Ok(Expr::Boolean(false))
            } else if is(name, "input") {
                Ok(Expr::Input)
            } else if is(name, "nil") {
                Ok(Expr::Nil)
            } else if is_keyword(name) {
                Err(reserved(name, " cannot be used as a variable identifier"))
            } else {
                Ok(Expr::Id(clone_string(name)))
            }
        },
        SExpr::List(items) => {
            proof {
                assert(decreases_to!(s => items));
            }
            parse_list(items)
        },
    }
}

fn parse_box(s: &SExpr) -> (r: Result<Box<Expr>, String>)
    ensures
        match r {
            Ok(e) => parses(*s) && parses_to(*s, *e),
            Err(m) => !parses(*s) && invalid_message(m@),
        },
    decreases s, 4int,
{
    match parse_sexpr(s) {
        Ok(e) => Ok(Box::new(e)),
        Err(m) => Err(m),
    }
}

proof fn lemma_let_is_no_operator()
    ensures
        binary_op_of("let"@) is None,
        unary_op_of("let"@) is None,
{
    reveal_strlit("let");
    reveal_strlit("+");
    reveal_strlit("-");
    reveal_strlit("*");
    reveal_strlit("=");
    reveal_strlit(">");
    reveal_strlit(">=");
    reveal_strlit("<");
    reveal_strlit("<=");
    reveal_strlit("==");
    reveal_strlit("isnum");
    reveal_strlit("isbool");
    reveal_strlit("isvec");
    reveal_strlit("add1");
    reveal_strlit("sub1");
    reveal_strlit("print");
    let l = "let"@;
    assert(l.len() == 3);
    assert(l != "+"@ && l != "-"@ && l != "*"@ && l != "="@ && l != ">"@ && l != ">="@ && l != "<"@
        && l != "<="@ && l != "=="@) by {
        assert("+"@.len() == 1 && "-"@.len() == 1 && "*"@.len() == 1 && "="@.len() == 1 && ">"@.len()
            == 1 && ">="@.len() == 2 && "<"@.len() == 1 && "<="@.len() == 2 && "=="@.len() == 2);
    }
    assert(l != "isnum"@ && l != "isbool"@ && l != "isvec"@ && l != "add1"@ && l != "sub1"@ && l
        != "print"@) by {
        assert("isnum"@.len() == 5 && "isbool"@.len() == 6 && "isvec"@.len() == 5 && "add1"@.len()
            == 4 && "sub1"@.len() == 4 && "print"@.len() == 5);
    }
}

fn parse_list(items: &Vec<SExpr>) -> (r: Result<Expr, String>)
    ensures
        match r {
            Ok(e) => list_parses(items@) && list_parses_to(items@, e),
            Err(m) => !list_parses(items@) && invalid_message(m@),
        },
        let_with_reserved_name(items@) ==> (r matches Err(m) && keyword_message(m@)),
    decreases items, 5int,
{
    let n = items.len();
    if n == 0 {
        return Err(invalid("empty list"));
    }
    let h: &String = match &items[0] {
        SExpr::Sym(h) => h,
        _ => {
            return Err(invalid("a list must start with a keyword or a function name"));
        },
    };
    proof {
        assert(forall|i: int| 0 <= i < n ==> decreases_to!(items => items@[i]));
    }
    let uop = unary_op(h);
    let bop = binary_op(h);
    proof {
        lemma_let_is_no_operator();
    }
    if n == 2 && uop.is_some() {
        let op = uop.unwrap();
        match parse_box(&items[1]) {
            Ok(a) => Ok(Expr::UnOp(op, a)),
            Err(m) => Err(m),
        }
    } else if n == 4 && is(h, "if") {
        let a = parse_box(&items[1]);
        let b = parse_box(&items[2]);
        let c = parse_box(&items[3]);
        match (a, b, c) {
            (Ok(a), Ok(b), Ok(c)) => Ok(Expr::If(a, b, c)),
            (Err(m), _, _) | (_, Err(m), _) | (_, _, Err(m)) => Err(m),
        }
    } else if n == 3 && bop.is_some() {
        let op = bop.unwrap();
        let a = parse_box(&items[1]);
        let b = parse_box(&items[2]);
        match (a, b) {
            (Ok(a), Ok(b)) => Ok(Expr::BinOp(op, a, b)),
            (Err(m), _) | (_, Err(m)) => Err(m),
        }
    } else if n == 3 && is(h, "let") {
        let bs = parse_bindings(&items[1]);
        let body = parse_box(&items[2]);
        match (bs, body) {
            (Ok(bs), Ok(body)) => {
                if bs.len() == 0 {
                    Err(invalid("no bindings"))
                } else {
                    Ok(Expr::Let(bs, body))
                }
            },
            (Err(m), _) | (_, Err(m)) => Err(m),
        }
    } else if n == 3 && is(h, "set!") && matches!(items[1], SExpr::Sym(_)) {
        let x = match &items[1] {
            SExpr::Sym(x) => x,
            _ => {
                return Err(invalid("set!"));
            },
        };
        if is_keyword(x) {
            return Err(reserved(x, " cannot be assigned"));
        }
        match parse_box(&items[2]) {
            Ok(a) => Ok(Expr::Assign(clone_string(x), a)),
            Err(m) => Err(m),
        }
    } else if n >= 2 && is(h, "block") {
        match parse_all(items, 1) {
            Ok(es) => Ok(Expr::Block(es)),
            Err(m) => Err(m),
        }
    } else if n == 2 && is(h, "loop") {
        match parse_box(&items[1]) {
            Ok(a) => Ok(Expr::Loop(a)),
            Err(m) => Err(m),
        }
    } else if n == 2 && is(h, "break") {
        match parse_box(&items[1]) {
            Ok(a) => Ok(Expr::Break(a)),
            Err(m) => Err(m),
        }
    } else if n >= 2 && is(h, "vec") {
        match parse_all(items, 1) {
            Ok(es) => Ok(Expr::Vec(es)),
            Err(m) => Err(m),
        }
    } else if n == 3 && is(h, "vec-get") {
        let a = parse_box(&items[1]);
        let b = parse_box(&items[2]);
        match (a, b) {
            (Ok(a), Ok(b)) => Ok(Expr::VecGet(a, b)),
            (Err(m), _) | (_, Err(m)) => Err(m),
        }
    } else if n == 4 && is(h, "vec-set!") {
        let a = parse_box(&items[1]);
        let b = parse_box(&items[2]);
        let c = parse_box(&items[3]);
        match (a, b, c) {
            (Ok(a), Ok(b), Ok(c)) => Ok(Expr::VecSet(a, b, c)),
            (Err(m), _, _) | (_, Err(m), _) | (_, _, Err(m)) => Err(m),
        }
    } else if n == 2 && is(h, "vec-len") {
        match parse_box(&items[1]) {
            Ok(a) => Ok(Expr::VecLen(a)),
            Err(m) => Err(m),
        }
    } else if n == 3 && is(h, "make-vec") {
        let a = parse_box(&items[1]);
        let b = parse_box(&items[2]);
        match (a, b) {
            (Ok(a), Ok(b)) => Ok(Expr::MakeVec(a, b)),
            (Err(m), _) | (_, Err(m)) => Err(m),
        }
    } else if is_keyword(h) {
        Err(reserved(h, " cannot be called as a function"))
    } else {
        match parse_all(items, 1) {
            Ok(es) => Ok(Expr::Call(clone_string(h), es)),
            Err(m) => Err(m),
        }
    }
}

/// Whether `s` has the shape of a function definition.
fn is_fundef(s: &SExpr) -> (r: bool)
    ensures
        r == is_fundef_spec(*s),
{
    match s {
        SExpr::List(items) => items.len() == 3 && match &items[0] {
            SExpr::Sym(k) => is(k, "fun"),
            _ => false,
        } && matches!(items[1], SExpr::List(_)),
        _ => false,
    }
}

/// Reads a parameter name.
fn parse_param(s: &SExpr) -> (r: Result<String, String>)
    ensures
        match r {
            Ok(x) => s matches SExpr::Sym(y) && x@ == y@ && !is_keyword_spec(y@),
            Err(m) => !(s matches SExpr::Sym(y) && !is_keyword_spec(y@)) && invalid_message(m@),
        },
{
    match s {
        SExpr::Sym(x) => {
            if is_keyword(x) {
                Err(reserved(x, " cannot name a parameter"))
            } else {
                Ok(clone_string(x))
            }
        },
        _ => Err(invalid("function parameter")),
    }
}

/// Reads a function definition.
fn parse_definition(s: &SExpr) -> (r: Result<FunDef, String>)
    requires
        is_fundef_spec(*s),
    ensures
        match r {
            Ok(d) => def_parses_to(*s, d),
            Err(m) => !def_parses(*s) && invalid_message(m@),
        },
{
    let items = match s {
        SExpr::List(items) => items,
        _ => {
            return Err(invalid("definition"));
        },
    };
    let np = match &items[1] {
        SExpr::List(np) => np,
        _ => {
            return Err(invalid("definition"));
        },
    };
    if np.len() == 0 {
        return Err(invalid("function definition syntax"));
    }
    let f = match &np[0] {
        SExpr::Sym(f) => f,
        _ => {
            return Err(invalid("function definition syntax"));
        },
    };
    if is_keyword(f) {
        return Err(reserved(f, " cannot name a function"));
    }
    let mut params: Vec<String> = Vec::new();
    let mut j: usize = 1;
    while j < np.len()
        invariant
            *s == SExpr::List(*items),
            items@[1] == SExpr::List(*np),
            is_fundef_spec(*s),
            1 <= j <= np@.len(),
            params@.len() == j - 1,
            forall|i: int|
                1 <= i < j ==> (#[trigger] np@[i] matches SExpr::Sym(x) && !is_keyword_spec(x@)),
            forall|i: int|
                0 <= i < params@.len() ==> (#[trigger] np@[i + 1] matches SExpr::Sym(x) && x@
                    == params@[i]@),
        decreases np@.len() - j,
    {
        match parse_param(&np[j]) {
            Ok(x) => {
                params.push(x);
            },
            Err(m) => {
                proof {
                    if def_parses(*s) {
                        assert(s->List_0@[1]->List_0@ == np@);
                        assert(forall|i: int|
                            1 <= i < np@.len() ==> (#[trigger] np@[i] matches SExpr::Sym(x)
                                && !is_keyword_spec(x@)));
                    }
                }
                return Err(m);
            },
        }
        j = j + 1;
    }
    match parse_box(&items[2]) {
        Ok(body) => Ok(FunDef { name: clone_string(f), params, body }),
        Err(m) => Err(m),
    }
}

/// Reads a whole program.
pub fn parse_program(s: &SExpr) -> (r: Result<Program, String>)
    ensures
        match r {
            Ok(p) => program_parses(*s) && program_parses_to(*s, p),
            Err(m) => !program_parses(*s) && invalid_message(m@),
        },
{
    match s {
        SExpr::List(items) => {
            let mut defs: Vec<FunDef> = Vec::new();
            let mut j: usize = 0;
            while j < items.len()
                invariant
                    *s == SExpr::List(*items),
                    j <= items@.len(),
                    defs@.len() == j,
                    forall|i: int| 0 <= i < j ==> is_fundef_spec(#[trigger] items@[i]),
                    forall|i: int| 0 <= i < j ==> def_parses(#[trigger] items@[i]),
                    forall|i: int| 0 <= i < j ==> def_parses_to(#[trigger] items@[i], defs@[i]),
                decreases items@.len() - j,
            {
                if is_fundef(&items[j]) {
                    match parse_definition(&items[j]) {
                        Ok(d) => {
                            defs.push(d);
                        },
                        Err(m) => {
                            proof {
                                lemma_first_non_def(items@, 0, j + 1);
                            }
                            return Err(m);
                        },
                    }
                } else {
                    proof {
                        lemma_first_non_def(items@, 0, j as int);
                    }
                    let main = if j == 0 {
                        parse_box(s)
                    } else {
                        parse_box(&items[j])
                    };
                    return match main {
                        Ok(m) => Ok(Program { defs, main: m }),
                        Err(m) => Err(m),
                    };
                }
                j = j + 1;
            }
            proof {
                lemma_first_non_def(items@, 0, items@.len() as int);
            }
            Err(invalid("only found definitions, no main expression"))
        },
        SExpr::Float => Err(invalid("a program is definitions and a main expression")),
        _ => match parse_box(s) {
            Ok(m) => Ok(Program { defs: Vec::new(), main: m }),
            Err(m) => Err(m),
        },
    }
}

} // verus!
