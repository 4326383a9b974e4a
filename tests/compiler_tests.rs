use snek::assembly::{instr_to_str, instructions_to_string, program_to_asm, val_to_str, Instr, Reg, Val};
use snek::compiler::{compile_program, CompileError};
use snek::constants::{ErrCode, I63_MAX, I63_MIN};
use snek::depth::depth;
use snek::parser::{parse_program, parse_sexpr, SExpr};
use snek::runtime::{error_message, parse_input, InputError};
use snek::syntax::{Expr, Op2};

fn sym(s: &str) -> SExpr {
    SExpr::Sym(s.to_string())
}

fn num(n: i64) -> SExpr {
    SExpr::Int(n)
}

fn list(items: Vec<SExpr>) -> SExpr {
    SExpr::List(items)
}

fn compile_text(s: &SExpr) -> Result<String, String> {
    let prog = parse_program(s)?;
    match compile_program(&prog, "our_code_starts_here".to_string()) {
        Ok(code) => Ok(program_to_asm(code)),
        Err(e) => Err(e.message()),
    }
}

fn compile_err(s: &SExpr) -> String {
    match compile_text(s) {
        Ok(text) => panic!("expected an error, got {text}"),
        Err(m) => m,
    }
}

#[test]
fn input_true_false_and_numbers() {
    assert_eq!(parse_input("true"), Ok(7));
    assert_eq!(parse_input("false"), Ok(3));
    assert_eq!(parse_input("10"), Ok(20));
    assert_eq!(parse_input("-5"), Ok(-10));
    assert_eq!(parse_input("+3"), Ok(6));
    assert_eq!(parse_input("4611686018427387903"), Ok(9223372036854775806));
    assert_eq!(parse_input("-4611686018427387904"), Ok(-9223372036854775808));
}

#[test]
fn input_refused() {
    assert_eq!(parse_input("4611686018427387904"), Err(InputError::Overflow));
    assert_eq!(parse_input("-4611686018427387905"), Err(InputError::Overflow));
    assert_eq!(parse_input("abc"), Err(InputError::NotAValue));
    assert_eq!(parse_input(""), Err(InputError::NotAValue));
    assert_eq!(parse_input("-"), Err(InputError::NotAValue));
    assert_eq!(parse_input("99999999999999999999"), Err(InputError::Overflow));
    assert_eq!(parse_input("10000000000000000000"), Err(InputError::Overflow));
    assert_eq!(parse_input("-10000000000000000000"), Err(InputError::Overflow));
    assert_eq!(parse_input("+"), Err(InputError::NotAValue));
    assert_eq!(parse_input("12a"), Err(InputError::NotAValue));
    assert!(InputError::Overflow.message().contains("input overflows a 63-bit signed integer"));
}

#[test]
fn runtime_error_messages() {
    assert_eq!(error_message(1), "an error occurred: numeric overflow");
    assert_eq!(error_message(2), "an error occurred: invalid argument (incompatible types)");
    assert_eq!(error_message(3), "an error occurred: index out of bounds");
    assert_eq!(error_message(4), "an error occurred: invalid vector address");
    assert_eq!(error_message(5), "an error occurred: invalid vector offset");
    assert_eq!(error_message(6), "an error occurred: vector address out of bounds");
    assert_eq!(error_message(9), "Unknown error code: 9");
}

#[test]
fn error_codes_are_distinct() {
    let all = [
        ErrCode::Overflow,
        ErrCode::InvalidType,
        ErrCode::IndexOutOfBounds,
        ErrCode::InvalidVecAddress,
        ErrCode::InvalidVecOffset,
        ErrCode::InvalidVecSize,
    ];
    for (i, e) in all.iter().enumerate() {
        assert_eq!(e.code(), i as i64 + 1);
    }
    assert_eq!(ErrCode::IndexOutOfBounds.label(), "error_index_out_of_bounds");
}

#[test]
fn operand_text() {
    assert_eq!(val_to_str(&Val::Reg(Reg::R15)), "r15");
    assert_eq!(val_to_str(&Val::Imm(-42)), "-42");
    assert_eq!(val_to_str(&Val::Imm(i64::MIN)), "-9223372036854775808");
    assert_eq!(val_to_str(&Val::RegOff(Reg::RBP, 16)), "[rbp - 16]");
    assert_eq!(val_to_str(&Val::RegOff(Reg::RBP, -24)), "[rbp + 24]");
    assert_eq!(val_to_str(&Val::RegOff(Reg::RBX, 0)), "[rbx]");
    assert_eq!(val_to_str(&Val::RegOff(Reg::RDI, i64::MIN)), "[rdi + 9223372036854775808]");
}

#[test]
fn instruction_text() {
    assert_eq!(instr_to_str(&Instr::Mov(Val::Reg(Reg::RAX), Val::Imm(6))), "mov qword rax, 6");
    assert_eq!(instr_to_str(&Instr::Mov(Val::Reg(Reg::EDI), Val::Imm(3))), "mov edi, 3");
    assert_eq!(
        instr_to_str(&Instr::Mov(Val::RegOff(Reg::RBP, 8), Val::Reg(Reg::RAX))),
        "mov [rbp - 8], rax"
    );
    assert_eq!(instr_to_str(&Instr::Mul(Val::Reg(Reg::RAX), Val::RegOff(Reg::RBP, 8))), "imul rax, [rbp - 8]");
    assert_eq!(instr_to_str(&Instr::Push(Val::Imm(1))), "push qword 1");
    assert_eq!(instr_to_str(&Instr::Pop(Val::Reg(Reg::RBP))), "pop rbp");
    assert_eq!(instr_to_str(&Instr::Not(Val::Reg(Reg::RBX))), "not rbx");
    assert_eq!(instr_to_str(&Instr::Label("ifend_3".to_string())), "ifend_3:");
    assert_eq!(instr_to_str(&Instr::JumpOverflow("x".to_string())), "jo x");
    assert_eq!(instr_to_str(&Instr::CMovle(Val::Reg(Reg::RAX), Val::Reg(Reg::RBX))), "cmovle rax, rbx");
    assert_eq!(instr_to_str(&Instr::Ret()), "ret");
}

#[test]
fn listing_indents_instructions_only() {
    let text = instructions_to_string(vec![
        Instr::Label("f".to_string()),
        Instr::Push(Val::Reg(Reg::RBP)),
        Instr::Ret(),
    ]);
    assert_eq!(text, "f:\n\tpush qword rbp\n\tret");
    assert_eq!(instructions_to_string(vec![]), "");
    let file = program_to_asm(vec![Instr::Ret()]);
    assert!(file.starts_with("section .text\nglobal our_code_starts_here\n"));
    assert!(file.contains("extern snek_error\nextern snek_print\nextern snek_equals\n"));
    assert!(file.ends_with("\tret\n"));
}

#[test]
fn depth_of_forms() {
    let e = parse_sexpr(&list(vec![sym("+"), num(1), list(vec![sym("+"), num(2), num(3)])])).unwrap();
    assert_eq!(depth(&e), 2);
    let e = parse_sexpr(&list(vec![
        sym("let"),
        list(vec![list(vec![sym("x"), num(1)]), list(vec![sym("y"), num(2)])]),
        list(vec![sym("+"), sym("x"), sym("y")]),
    ]))
    .unwrap();
    assert_eq!(depth(&e), 3);
    let e = parse_sexpr(&list(vec![sym("vec"), num(1), num(2), num(3)])).unwrap();
    assert_eq!(depth(&e), 3);
    let e = parse_sexpr(&list(vec![sym("vec-set!"), sym("v"), num(0), num(1)])).unwrap();
    assert_eq!(depth(&e), 2);
    let e = parse_sexpr(&list(vec![sym("make-vec"), num(3), list(vec![sym("vec"), num(1), num(2)])])).unwrap();
    assert_eq!(depth(&e), 3);
    assert_eq!(depth(&Expr::Number(5)), 0);
}

#[test]
fn parse_forms() {
    match parse_sexpr(&list(vec![sym("+"), num(1), num(2)])).unwrap() {
        Expr::BinOp(Op2::Plus, a, b) => {
            assert!(matches!(*a, Expr::Number(1)));
            assert!(matches!(*b, Expr::Number(2)));
        }
        other => panic!("unexpected {other:?}"),
    }
    assert!(matches!(parse_sexpr(&sym("nil")).unwrap(), Expr::Nil));
    assert!(matches!(parse_sexpr(&sym("input")).unwrap(), Expr::Input));
    match parse_sexpr(&list(vec![sym("f"), num(1), sym("x")])).unwrap() {
        Expr::Call(f, args) => {
            assert_eq!(f, "f");
            assert_eq!(args.len(), 2);
        }
        other => panic!("unexpected {other:?}"),
    }
}

#[test]
fn parse_refusals() {
    assert!(parse_sexpr(&sym("let")).is_err());
    assert!(parse_sexpr(&list(vec![])).is_err());
    assert!(parse_sexpr(&list(vec![sym("add1"), num(1), num(2)])).is_err());
    assert!(parse_sexpr(&list(vec![sym("block")])).is_err());
    assert!(parse_sexpr(&list(vec![sym("vec")])).is_err());
    assert!(parse_sexpr(&list(vec![sym("let"), list(vec![list(vec![sym("if"), num(1)])]), num(2)])).is_err());
    assert!(parse_sexpr(&list(vec![sym("set!"), sym("true"), num(1)])).is_err());
    assert!(parse_sexpr(&SExpr::Float).is_err());
    let err = parse_sexpr(&list(vec![sym("let"), list(vec![list(vec![sym("if"), num(1)])]), num(2)])).unwrap_err();
    assert!(err.starts_with("Invalid: "));
    assert!(err.contains("keyword"));
    assert!(parse_sexpr(&sym("add1")).unwrap_err().starts_with("Invalid: reserved keyword add1"));
    assert!(parse_sexpr(&list(vec![sym("if"), num(1)])).unwrap_err().starts_with("Invalid: reserved keyword"));
}

#[test]
fn empty_let_is_invalid() {
    let s = list(vec![sym("let"), list(vec![]), num(5)]);
    let err = parse_program(&s).unwrap_err();
    assert!(err.contains("Invalid"));
}

#[test]
fn program_with_definitions() {
    let s = list(vec![
        list(vec![sym("fun"), list(vec![sym("f"), sym("x")]), sym("x")]),
        list(vec![sym("f"), num(3)]),
        sym("ignored"),
    ]);
    let p = parse_program(&s).unwrap();
    assert_eq!(p.defs.len(), 1);
    assert_eq!(p.defs[0].name, "f");
    assert_eq!(p.defs[0].params, vec!["x".to_string()]);
    assert!(matches!(*p.main, Expr::Call(_, _)));
    let only_defs = list(vec![list(vec![sym("fun"), list(vec![sym("f")]), num(1)])]);
    assert!(parse_program(&only_defs).is_err());
    let bad_param = list(vec![
        list(vec![sym("fun"), list(vec![sym("f"), sym("nil")]), num(1)]),
        num(1),
    ]);
    assert!(parse_program(&bad_param).is_err());
    let p = parse_program(&num(7)).unwrap();
    assert!(p.defs.is_empty());
}

#[test]
fn add_two_numbers() {
    let text = compile_text(&list(vec![sym("+"), num(1), num(2)])).unwrap();
    assert!(text.contains("\tmov qword rax, 2\n"));
    assert!(text.contains("\tmov [rbp - 8], rax\n"));
    assert!(text.contains("\tmov qword rax, 4\n"));
    assert!(text.contains("\tadd rax, [rbp - 8]\n\tjo error_numeric_overflow\n"));
    assert!(text.contains("our_code_starts_here:\n"));
    assert!(text.ends_with("\tret\n"));
}

#[test]
fn assignment_in_block() {
    let s = list(vec![
        sym("let"),
        list(vec![list(vec![sym("x"), num(10)])]),
        list(vec![
            sym("block"),
            list(vec![sym("set!"), sym("x"), list(vec![sym("+"), sym("x"), num(1)])]),
            sym("x"),
        ]),
    ]);
    let text = compile_text(&s).unwrap();
    assert!(text.contains("\tmov qword rax, 20\n\tmov [rbp - 8], rax\n"));
    assert!(text.contains("\tmov rax, [rbp - 8]\n"));
}

#[test]
fn vector_round_trip_compiles() {
    let s = list(vec![
        sym("let"),
        list(vec![list(vec![sym("v"), list(vec![sym("vec"), num(10), num(20), num(30), num(40)])])]),
        list(vec![
            sym("block"),
            list(vec![sym("vec-set!"), sym("v"), num(0), num(231)]),
            list(vec![sym("vec-get"), sym("v"), num(0)]),
        ]),
    ]);
    let text = compile_text(&s).unwrap();
    assert!(text.contains("\tadd r15, 40\n"));
    assert!(text.contains("jge error_index_out_of_bounds"));
    assert!(text.contains("jl error_index_out_of_bounds"));
}

#[test]
fn negative_index_traps_out_of_bounds() {
    let s = list(vec![sym("vec-get"), list(vec![sym("vec"), num(10), num(20), num(30), num(40)]), num(-1)]);
    let text = compile_text(&s).unwrap();
    assert!(text.contains("\tcmp rax, 0\n\tjl error_index_out_of_bounds\n"));
    assert!(text.contains("error_index_out_of_bounds:\n\tmov edi, 3\n\tcall snek_error"));
    assert!(error_message(3).contains("index out of bounds"));
}

#[test]
fn adding_a_boolean_traps_invalid_argument() {
    let text = compile_text(&list(vec![sym("+"), num(1), sym("true")])).unwrap();
    assert!(text.contains("\ttest rax, 1\n\tjnz error_invalid_type\n"));
    assert!(text.contains("error_invalid_type:\n\tmov edi, 2\n\tcall snek_error"));
    assert!(error_message(2).contains("invalid argument"));
}

#[test]
fn recursive_factorial_compiles() {
    let s = list(vec![
        list(vec![
            sym("fun"),
            list(vec![sym("fact"), sym("n")]),
            list(vec![
                sym("if"),
                list(vec![sym("<"), sym("n"), num(2)]),
                num(1),
                list(vec![
                    sym("*"),
                    sym("n"),
                    list(vec![sym("fact"), list(vec![sym("sub1"), sym("n")])]),
                ]),
            ]),
        ]),
        list(vec![sym("fact"), sym("input")]),
    ]);
    let text = compile_text(&s).unwrap();
    assert!(text.contains("\nfun_fact:\n\tpush qword rbp\n\tmov rbp, rsp\n"));
    assert!(text.contains("\tmov rax, [rbp + 16]\n"));
    assert!(text.contains("\tcall fun_fact\n"));
    assert!(text.contains("\tpush qword 1\n"));
    assert!(text.contains("\tmov rax, r13\n"));
    assert_eq!(parse_input("10"), Ok(20));
}

#[test]
fn function_labels_do_not_collide() {
    let s = list(vec![
        list(vec![sym("fun"), list(vec![sym("loop_0")]), num(1)]),
        list(vec![sym("loop"), list(vec![sym("break"), list(vec![sym("loop_0")])])]),
    ]);
    let text = compile_text(&s).unwrap();
    assert!(text.contains("\nfun_loop_0:\n"));
    assert!(text.contains("\nloop_0:\n"));
    assert!(text.contains("\tcall fun_loop_0\n"));
}

#[test]
fn static_errors() {
    assert_eq!(compile_err(&sym("x")), "Unbound variable identifier x");
    let dup = list(vec![
        sym("let"),
        list(vec![list(vec![sym("x"), num(1)]), list(vec![sym("x"), num(2)])]),
        sym("x"),
    ]);
    assert!(compile_err(&dup).contains("Duplicate binding"));
    assert!(compile_err(&list(vec![sym("break"), num(1)])).contains("break"));
    assert_eq!(compile_err(&list(vec![sym("g"), num(1)])), "Invalid: undefined function g");
    let arity = list(vec![
        list(vec![sym("fun"), list(vec![sym("f"), sym("a"), sym("b")]), sym("a")]),
        list(vec![sym("f"), num(1)]),
    ]);
    assert_eq!(compile_err(&arity), "Invalid: function f called with 1 args, expected 2");
    let input_in_fun = list(vec![
        list(vec![sym("fun"), list(vec![sym("f")]), sym("input")]),
        list(vec![sym("f")]),
    ]);
    assert_eq!(compile_err(&input_in_fun), "Invalid: input can only be used in the main expression");
    let dup_param = list(vec![
        list(vec![sym("fun"), list(vec![sym("f"), sym("a"), sym("a")]), sym("a")]),
        num(1),
    ]);
    assert!(compile_err(&dup_param).contains("Duplicate parameter"));
    let dup_fun = list(vec![
        list(vec![sym("fun"), list(vec![sym("f")]), num(1)]),
        list(vec![sym("fun"), list(vec![sym("f")]), num(2)]),
        num(1),
    ]);
    assert!(compile_err(&dup_fun).contains("Invalid"));
    assert!(compile_err(&num(I63_MAX + 1)).contains("Invalid"));
    assert!(compile_text(&num(I63_MAX)).is_ok());
    assert!(compile_text(&num(I63_MIN)).is_ok());
}

#[test]
fn first_error_is_reported() {
    let s = list(vec![sym("+"), sym("a"), sym("b")]);
    assert_eq!(compile_err(&s), "Unbound variable identifier a");
    let prog = parse_program(&list(vec![sym("block"), sym("y"), list(vec![sym("break"), num(1)])])).unwrap();
    match compile_program(&prog, "start".to_string()) {
        Err(CompileError::UnboundVariable(x)) => assert_eq!(x, "y"),
        other => panic!("unexpected {other:?}"),
    }
}

#[test]
fn loops_and_breaks_use_fresh_labels() {
    let s = list(vec![
        sym("loop"),
        list(vec![sym("if"), sym("true"), list(vec![sym("break"), num(1)]), num(2)]),
    ]);
    let text = compile_text(&s).unwrap();
    assert!(text.contains("\nloop_0:\n"));
    assert!(text.contains("\tjmp endloop_1\n"));
    assert!(text.contains("\nifend_2:\n"));
    assert!(text.contains("\nifelse_3:\n"));
}

#[test]
fn make_vec_checks_size() {
    let text = compile_text(&list(vec![sym("make-vec"), num(3), sym("nil")])).unwrap();
    assert!(text.contains("jne error_invalid_vec_size"));
    assert!(text.contains("jl error_invalid_vec_size"));
    assert!(text.contains("make_vec_start_0:"));
}

#[test]
fn type_checks_in_emitted_code() {
    let text = compile_text(&list(vec![sym("isnum"), num(5)])).unwrap();
    assert!(text.contains("\tmov rbx, rax\n\tnot rbx\n\tand rbx, 1\n\tcmp rbx, 1\n"));
    assert!(text.contains("\tmov qword rax, 3\n\tmov qword rbx, 7\n\tcmove rax, rbx\n"));
    let text = compile_text(&list(vec![sym("isbool"), sym("true")])).unwrap();
    assert!(text.contains("\tand rbx, 3\n\tcmp rbx, 3\n"));
    let text = compile_text(&list(vec![sym("isvec"), sym("nil")])).unwrap();
    assert!(text.contains("\tand rbx, 3\n\tcmp rbx, 1\n\tmov qword rbx, 3\n\tmov qword r10, 7\n\tcmove rbx, r10\n\tmov qword r10, 3\n\tcmp rax, 1\n\tcmove rbx, r10\n\tmov rax, rbx\n"));
    let text = compile_text(&list(vec![sym("vec-len"), sym("nil")])).unwrap();
    assert!(text.contains("\tcmp rbx, 1\n\tje error_invalid_vec_address\n"));
}

#[test]
fn add1_checks_overflow() {
    let text = compile_text(&list(vec![sym("add1"), num(I63_MAX)])).unwrap();
    assert!(text.contains("\tmov qword rax, 9223372036854775806\n"));
    assert!(text.contains("\tjne error_invalid_type\n\tadd rax, 2\n\tjo error_numeric_overflow\n"));
    let text = compile_text(&list(vec![sym("*"), num(3), num(4)])).unwrap();
    assert!(text.contains("\tsar rax, 1\n\timul rax, [rbp - 8]\n\tjo error_numeric_overflow\n"));
}

#[test]
fn comparisons_check_their_operands() {
    let text = compile_text(&list(vec![sym("<"), num(1), num(2)])).unwrap();
    assert!(text.contains("\tor rbx, [rbp - 8]\n\ttest rbx, 1\n\tjne error_invalid_type\n"));
    assert!(text.contains("\tcmovl rax, rbx\n"));
    let text = compile_text(&list(vec![sym("="), num(1), sym("true")])).unwrap();
    assert!(text.contains("\txor rbx, [rbp - 8]\n\ttest rbx, 1\n\tjnz error_invalid_type\n"));
    assert!(text.contains("\tcmp r10, 3\n\tje error_invalid_type\n"));
    let text = compile_text(&list(vec![sym("=="), sym("nil"), sym("nil")])).unwrap();
    assert!(text.contains("\tmov rdi, [rbp - 8]\n\tmov rsi, rax\n\tcall snek_equals\n"));
}

#[test]
fn functions_restore_their_frame() {
    let s = list(vec![
        list(vec![sym("fun"), list(vec![sym("f"), sym("a")]), list(vec![sym("+"), sym("a"), num(1)])]),
        list(vec![sym("f"), num(2)]),
    ]);
    let text = compile_text(&s).unwrap();
    assert!(text.contains("\nfun_f:\n\tpush qword rbp\n\tmov rbp, rsp\n\tsub rsp, 16\n"));
    assert!(text.contains("\tadd rsp, 16\n\tpop rbp\n\tret\n"));
    assert!(text.contains("our_code_starts_here:\n\tpush qword rbp\n\tpush qword rbx\n\tpush qword r12\n\tpush qword r13\n\tpush qword r14\n\tpush qword r15\n\tmov rbp, rsp\n\tsub rsp, 8\n"));
    assert!(text.contains("\tadd rsp, 8\n\tpop r15\n\tpop r14\n\tpop r13\n\tpop r12\n\tpop rbx\n\tpop rbp\n\tret\n"));
    assert!(text.contains("\tpush qword 1\n\tpush qword [rbp - 8]\n\tcall fun_f\n\tadd rsp, 16\n"));
}

#[test]
fn compiling_twice_gives_the_same_text() {
    let s = list(vec![
        sym("loop"),
        list(vec![sym("if"), sym("input"), list(vec![sym("break"), num(1)]), num(2)]),
    ]);
    assert_eq!(compile_text(&s).unwrap(), compile_text(&s).unwrap());
}
