//! The x86-64 instructions that the compiler emits, and their NASM text.
use vstd::prelude::*;

verus! {

/// An instruction operand.
#[derive(Debug, Clone, Copy, PartialEq, Eq, Structural)]
pub enum Val {
    Reg(Reg),
    Imm(i64),
    /// A memory operand at the register minus the offset: a positive offset
    /// addresses a lower address, a negative one a higher address.
    RegOff(Reg, i64),
}

/// The registers that the compiler uses.
#[derive(Debug, Clone, Copy, PartialEq, Eq, Structural)]
pub enum Reg {
    /// Result register, caller-saved.
    RAX,
    /// First argument register.
    RDI,
    /// Second argument register.
    RSI,
    /// Third argument register.
    RDX,
    RSP,
    RBP,
    /// Scratch register.
    RBX,
    /// Scratch register.
    R10,
    /// Heap start.
    R11,
    R12,
    /// The `input` value.
    R13,
    /// Heap end.
    R14,
    /// Heap pointer.
    R15,
    /// Low half of the first argument register, for error codes.
    EDI,
}

/// Instructions.
#[derive(Debug)]
pub enum Instr {
    Mov(Val, Val),
    Add(Val, Val),
    Sub(Val, Val),
    Mul(Val, Val),
    Cmp(Val, Val),
    Test(Val, Val),
    CMove(Val, Val),
    CMovg(Val, Val),
    CMovge(Val, Val),
    CMovl(Val, Val),
    CMovle(Val, Val),
    Sar(Val, Val),
    Shl(Val, Val),
    And(Val, Val),
    Or(Val, Val),
    Xor(Val, Val),
    Not(Val),
    Label(String),
    Jump(String),
    JumpEqual(String),
    JumpNotEqual(String),
    JumpNotZero(String),
    JumpGreaterEqual(String),
    JumpLess(String),
    JumpOverflow(String),
    Push(Val),
    Pop(Val),
    Call(String),
    Ret(),
}

/// An instruction as the specifications speak of it: labels as their text.
pub enum InstrV {
    Mov(Val, Val),
    Add(Val, Val),
    Sub(Val, Val),
    Mul(Val, Val),
    Cmp(Val, Val),
    Test(Val, Val),
    CMove(Val, Val),
    CMovg(Val, Val),
    CMovge(Val, Val),
    CMovl(Val, Val),
    CMovle(Val, Val),
    Sar(Val, Val),
    Shl(Val, Val),
    And(Val, Val),
    Or(Val, Val),
    Xor(Val, Val),
    Not(Val),
    Label(Seq<char>),
    Jump(Seq<char>),
    JumpEqual(Seq<char>),
    JumpNotEqual(Seq<char>),
    JumpNotZero(Seq<char>),
    JumpGreaterEqual(Seq<char>),
    JumpLess(Seq<char>),
    JumpOverflow(Seq<char>),
    Push(Val),
    Pop(Val),
    Call(Seq<char>),
    Ret,
}

impl View for Instr {
    type V = InstrV;

    open spec fn view(&self) -> InstrV {
        match self {
            Instr::Mov(a, b) => InstrV::Mov(*a, *b),
            Instr::Add(a, b) => InstrV::Add(*a, *b),
            Instr::Sub(a, b) => InstrV::Sub(*a, *b),
            Instr::Mul(a, b) => InstrV::Mul(*a, *b),
            Instr::Cmp(a, b) => InstrV::Cmp(*a, *b),
            Instr::Test(a, b) => InstrV::Test(*a, *b),
            Instr::CMove(a, b) => InstrV::CMove(*a, *b),
            Instr::CMovg(a, b) => InstrV::CMovg(*a, *b),
            Instr::CMovge(a, b) => InstrV::CMovge(*a, *b),
            Instr::CMovl(a, b) => InstrV::CMovl(*a, *b),
            Instr::CMovle(a, b) => InstrV::CMovle(*a, *b),
            Instr::Sar(a, b) => InstrV::Sar(*a, *b),
            Instr::Shl(a, b) => InstrV::Shl(*a, *b),
            Instr::And(a, b) => InstrV::And(*a, *b),
            Instr::Or(a, b) => InstrV::Or(*a, *b),
            Instr::Xor(a, b) => InstrV::Xor(*a, *b),
            Instr::Not(a) => InstrV::Not(*a),
            Instr::Label(l) => InstrV::Label(l@),
            Instr::Jump(l) => InstrV::Jump(l@),
            Instr::JumpEqual(l) => InstrV::JumpEqual(l@),
            Instr::JumpNotEqual(l) => InstrV::JumpNotEqual(l@),
            Instr::JumpNotZero(l) => InstrV::JumpNotZero(l@),
            Instr::JumpGreaterEqual(l) => InstrV::JumpGreaterEqual(l@),
            Instr::JumpLess(l) => InstrV::JumpLess(l@),
            Instr::JumpOverflow(l) => InstrV::JumpOverflow(l@),
            Instr::Push(a) => InstrV::Push(*a),
            Instr::Pop(a) => InstrV::Pop(*a),
            Instr::Call(l) => InstrV::Call(l@),
            Instr::Ret() => InstrV::Ret,
        }
    }
}

/// A run of instructions as the specifications speak of it.
pub open spec fn code_view(s: Seq<Instr>) -> Seq<InstrV> {
    s.map_values(|i: Instr| i@)
}

pub open spec fn digit_char(d: nat) -> char {
    if d == 0 {
        '0'
    } else if d == 1 {
        '1'
    } else if d == 2 {
        '2'
    } else if d == 3 {
        '3'
    } else if d == 4 {
        '4'
    } else if d == 5 {
        '5'
    } else if d == 6 {
        '6'
    } else if d == 7 {
        '7'
    } else if d == 8 {
        '8'
    } else {
        '9'
    }
}

/// The decimal digits of `n`, without leading zeros.
pub open spec fn nat_text(n: nat) -> Seq<char>
    decreases n,
{
    if n < 10 {
        seq![digit_char(n)]
    } else {
        nat_text(n / 10).push(digit_char(n % 10))
    }
}

/// `i` in signed decimal.
pub open spec fn int_text(i: int) -> Seq<char> {
    if i < 0 {
        seq!['-'] + nat_text((-i) as nat)
    } else {
        nat_text(i as nat)
    }
}

pub open spec fn reg_text(r: Reg) -> Seq<char> {
    match r {
        Reg::RAX => "rax"@,
        Reg::RDI => "rdi"@,
        Reg::RSI => "rsi"@,
        Reg::RDX => "rdx"@,
        Reg::RSP => "rsp"@,
        Reg::RBP => "rbp"@,
        Reg::RBX => "rbx"@,
        Reg::R10 => "r10"@,
        Reg::R11 => "r11"@,
        Reg::R12 => "r12"@,
        Reg::R13 => "r13"@,
        Reg::R14 => "r14"@,
        Reg::R15 => "r15"@,
        Reg::EDI => "edi"@,
    }
}

pub open spec fn val_text(v: Val) -> Seq<char> {
    match v {
        Val::Reg(r) => reg_text(r),
        Val::Imm(n) => int_text(n as int),
        Val::RegOff(r, off) => if off > 0 {
            "["@ + reg_text(r) + " - "@ + int_text(off as int) + "]"@
        } else if off < 0 {
            "["@ + reg_text(r) + " + "@ + int_text(-off) + "]"@
        } else {
            "["@ + reg_text(r) + "]"@
        },
    }
}

/// An instruction with two operands: `op a, b`.
pub open spec fn binary_text(op: Seq<char>, a: Val, b: Val) -> Seq<char> {
    op + " "@ + val_text(a) + ", "@ + val_text(b)
}

/// The NASM text of one instruction. A move of an immediate into memory or a
/// register carries the `qword` size, but for an error code moved into `edi`.
pub open spec fn instr_text(i: Instr) -> Seq<char> {
    match i {
        Instr::Mov(a, b) => if a == Val::Reg(Reg::EDI) && b is Imm {
            "mov edi, "@ + val_text(b)
        } else if matches!(b, Val::Imm(_)) {
            "mov qword "@ + val_text(a) + ", "@ + val_text(b)
        } else {
            binary_text("mov"@, a, b)
        },
        Instr::Add(a, b) => binary_text("add"@, a, b),
        Instr::Sub(a, b) => binary_text("sub"@, a, b),
        Instr::Mul(a, b) => binary_text("imul"@, a, b),
        Instr::Cmp(a, b) => binary_text("cmp"@, a, b),
        Instr::Test(a, b) => binary_text("test"@, a, b),
        Instr::CMove(a, b) => binary_text("cmove"@, a, b),
        Instr::CMovg(a, b) => binary_text("cmovg"@, a, b),
        Instr::CMovge(a, b) => binary_text("cmovge"@, a, b),
        Instr::CMovl(a, b) => binary_text("cmovl"@, a, b),
        Instr::CMovle(a, b) => binary_text("cmovle"@, a, b),
        Instr::Sar(a, b) => binary_text("sar"@, a, b),
        Instr::Shl(a, b) => binary_text("shl"@, a, b),
        Instr::And(a, b) => binary_text("and"@, a, b),
        Instr::Or(a, b) => binary_text("or"@, a, b),
        Instr::Xor(a, b) => binary_text("xor"@, a, b),
        Instr::Not(a) => "not "@ + val_text(a),
        Instr::Label(l) => l@ + ":"@,
        Instr::Jump(l) => "jmp "@ + l@,
        Instr::JumpEqual(l) => "je "@ + l@,
        Instr::JumpNotEqual(l) => "jne "@ + l@,
        Instr::JumpNotZero(l) => "jnz "@ + l@,
        Instr::JumpGreaterEqual(l) => "jge "@ + l@,
        Instr::JumpLess(l) => "jl "@ + l@,
        Instr::JumpOverflow(l) => "jo "@ + l@,
        Instr::Push(a) => "push qword "@ + val_text(a),
        Instr::Pop(a) => "pop "@ + val_text(a),
        Instr::Call(l) => "call "@ + l@,
        Instr::Ret() => "ret"@,
    }
}

/// A line of the listing: labels flush left, instructions after a tab.
pub open spec fn line_text(i: Instr) -> Seq<char> {
    if i is Label {
        instr_text(i)
    } else {
        "\t"@ + instr_text(i)
    }
}

/// The lines of the instructions, separated by newlines.
pub open spec fn lines_text(s: Seq<Instr>) -> Seq<char>
    decreases s.len(),
{
    if s.len() == 0 {
        Seq::empty()
    } else if s.len() == 1 {
        line_text(s[0])
    } else {
        lines_text(s.drop_last()) + "\n"@ + line_text(s.last())
    }
}

/// What precedes the code in an assembly file: the section, the entry symbol,
/// and the runtime's three functions.
pub open spec fn header_text() -> Seq<char> {
    ASM_HEADER@
}

pub const ASM_HEADER: &'static str =
    "section .text\nglobal our_code_starts_here\nextern snek_error\nextern snek_print\nextern snek_equals\n";

fn digit_str(d: u64) -> (r: &'static str)
    requires
        d < 10,
    ensures
        r@ == seq![digit_char(d as nat)],
{
    proof {
        reveal_strlit("0");
        reveal_strlit("1");
        reveal_strlit("2");
        reveal_strlit("3");
        reveal_strlit("4");
        reveal_strlit("5");
        reveal_strlit("6");
        reveal_strlit("7");
        reveal_strlit("8");
        reveal_strlit("9");
    }
    if d == 0 {
        "0"
    } else if d == 1 {
        "1"
    } else if d == 2 {
        "2"
    } else if d == 3 {
        "3"
    } else if d == 4 {
        "4"
    } else if d == 5 {
        "5"
    } else if d == 6 {
        "6"
    } else if d == 7 {
        "7"
    } else if d == 8 {
        "8"
    } else {
        "9"
    }
}

/// Appends the decimal digits of `n`.
pub fn write_nat(out: &mut String, n: u64)
    ensures
        final(out)@ == old(out)@ + nat_text(n as nat),
    decreases n,
{
    if n >= 10 {
        write_nat(out, n / 10);
    }
    let d = digit_str(n % 10);
    out.append(d);
    proof {
        if n >= 10 {
            assert(final(out)@ =~= old(out)@ + nat_text(n as nat));
        } else {
            assert(final(out)@ =~= old(out)@ + nat_text(n as nat));
        }
    }
}

/// Appends `i` in signed decimal.
pub fn write_int(out: &mut String, i: i64)
    ensures
        final(out)@ == old(out)@ + int_text(i as int),
{
    if i < 0 {
        proof {
            reveal_strlit("-");
        }
        out.append("-");
        let m: u64 = if i == i64::MIN {
            9223372036854775808u64
        } else {
            (-i) as u64
        };
        write_nat(out, m);
        assert(final(out)@ =~= old(out)@ + int_text(i as int));
    } else {
        write_nat(out, i as u64);
    }
}

/// `i` in signed decimal.
pub fn int_to_string(i: i64) -> (r: String)
    ensures
        r@ == int_text(i as int),
{
    let mut s = String::new();
    write_int(&mut s, i);
    assert(s@ =~= int_text(i as int));
    s
}

pub fn reg_to_str(r: Reg) -> (s: &'static str)
    ensures
        s@ == reg_text(r),
{
    match r {
        Reg::RAX => "rax",
        Reg::RDI => "rdi",
        Reg::RSI => "rsi",
        Reg::RDX => "rdx",
        Reg::RSP => "rsp",
        Reg::RBP => "rbp",
        Reg::RBX => "rbx",
        Reg::R10 => "r10",
        Reg::R11 => "r11",
        Reg::R12 => "r12",
        Reg::R13 => "r13",
        Reg::R14 => "r14",
        Reg::R15 => "r15",
        Reg::EDI => "edi",
    }
}

fn write_val(out: &mut String, v: Val)
    ensures
        final(out)@ == old(out)@ + val_text(v),
{
    match v {
        Val::Reg(r) => {
            out.append(reg_to_str(r));
        },
        Val::Imm(n) => {
            write_int(out, n);
        },
        Val::RegOff(r, off) => {
            out.append("[");
            out.append(reg_to_str(r));
            if off > 0 {
                out.append(" - ");
                write_int(out, off);
            } else if off < 0 {
                out.append(" + ");
                let m: u64 = if off == i64::MIN {
                    9223372036854775808u64
                } else {
                    (-off) as u64
                };
                write_nat(out, m);
                proof {
                    assert(int_text(-off) == nat_text(m as nat));
                }
            }
            out.append("]");
        },
    }
    assert(final(out)@ =~= old(out)@ + val_text(v));
}

/// Formats an operand.
pub fn val_to_str(v: &Val) -> (r: String)
    ensures
        r@ == val_text(*v),
{
    let mut s = String::new();
    write_val(&mut s, *v);
    assert(s@ =~= val_text(*v));
    s
}

fn write_binary(out: &mut String, op: &str, a: Val, b: Val)
    ensures
        final(out)@ == old(out)@ + binary_text(op@, a, b),
{
    out.append(op);
    out.append(" ");
    write_val(out, a);
    out.append(", ");
    write_val(out, b);
    assert(final(out)@ =~= old(out)@ + binary_text(op@, a, b));
}

fn write_unary(out: &mut String, op: &str, a: &String)
    ensures
        final(out)@ == old(out)@ + op@ + a@,
{
    out.append(op);
    out.append(a.as_str());
    assert(final(out)@ =~= old(out)@ + op@ + a@);
}

fn write_instr(out: &mut String, instr: &Instr)
    ensures
        final(out)@ == old(out)@ + instr_text(*instr),
{
    match instr {
        Instr::Mov(a, b) => {
            if *a == Val::Reg(Reg::EDI) && matches!(b, Val::Imm(_)) {
                out.append("mov edi, ");
                write_val(out, *b);
            } else if matches!(b, Val::Imm(_)) {
                out.append("mov qword ");
                write_val(out, *a);
                out.append(", ");
                write_val(out, *b);
            } else {
                write_binary(out, "mov", *a, *b);
            }
        },
        Instr::Add(a, b) => write_binary(out, "add", *a, *b),
        Instr::Sub(a, b) => write_binary(out, "sub", *a, *b),
        Instr::Mul(a, b) => write_binary(out, "imul", *a, *b),
        Instr::Cmp(a, b) => write_binary(out, "cmp", *a, *b),
        Instr::Test(a, b) => write_binary(out, "test", *a, *b),
        Instr::CMove(a, b) => write_binary(out, "cmove", *a, *b),
        Instr::CMovg(a, b) => write_binary(out, "cmovg", *a, *b),
        Instr::CMovge(a, b) => write_binary(out, "cmovge", *a, *b),
        Instr::CMovl(a, b) => write_binary(out, "cmovl", *a, *b),
        Instr::CMovle(a, b) => write_binary(out, "cmovle", *a, *b),
        Instr::Sar(a, b) => write_binary(out, "sar", *a, *b),
        Instr::Shl(a, b) => write_binary(out, "shl", *a, *b),
        Instr::And(a, b) => write_binary(out, "and", *a, *b),
        Instr::Or(a, b) => write_binary(out, "or", *a, *b),
        Instr::Xor(a, b) => write_binary(out, "xor", *a, *b),
        Instr::Not(a) => {
            out.append("not ");
            write_val(out, *a);
        },
        Instr::Label(l) => {
            out.append(l.as_str());
            out.append(":");
        },
        Instr::Jump(l) => write_unary(out, "jmp ", l),
        Instr::JumpEqual(l) => write_unary(out, "je ", l),
        Instr::JumpNotEqual(l) => write_unary(out, "jne ", l),
        Instr::JumpNotZero(l) => write_unary(out, "jnz ", l),
        Instr::JumpGreaterEqual(l) => write_unary(out, "jge ", l),
        Instr::JumpLess(l) => write_unary(out, "jl ", l),
        Instr::JumpOverflow(l) => write_unary(out, "jo ", l),
        Instr::Push(a) => {
            out.append("push qword ");
            write_val(out, *a);
        },
        Instr::Pop(a) => {
            out.append("pop ");
            write_val(out, *a);
        },
        Instr::Call(l) => write_unary(out, "call ", l),
        Instr::Ret() => {
            out.append("ret");
        },
    }
    assert(final(out)@ =~= old(out)@ + instr_text(*instr));
}

/// Formats one instruction as NASM text.
pub fn instr_to_str(instr: &Instr) -> (r: String)
    ensures
        r@ == instr_text(*instr),
{
    let mut s = String::new();
    write_instr(&mut s, instr);
    assert(s@ =~= instr_text(*instr));
    s
}

/// Formats the instructions as NASM lines: a label flush left with its colon,
/// any other instruction after a tab, one per line.
pub fn instructions_to_string(instrs: Vec<Instr>) -> (r: String)
    ensures
        r@ == lines_text(instrs@),
{
    let mut s = String::new();
    let mut k: usize = 0;
    while k < instrs.len()
        invariant
            k <= instrs@.len(),
            s@ == lines_text(instrs@.subrange(0, k as int)),
        decreases instrs@.len() - k,
    {
        let ghost before = s@;
        if k > 0 {
            s.append("\n");
        }
        if !matches!(instrs[k], Instr::Label(_)) {
            s.append("\t");
        }
        write_instr(&mut s, &instrs[k]);
        proof {
            let next = instrs@.subrange(0, k + 1);
            assert(next.drop_last() =~= instrs@.subrange(0, k as int));
            assert(next.last() == instrs@[k as int]);
            if k == 0 {
                assert(s@ =~= line_text(instrs@[0]));
                assert(next.len() == 1);
            } else {
                assert(s@ =~= before + "\n"@ + line_text(instrs@[k as int]));
            }
        }
        k = k + 1;
    }
    assert(instrs@.subrange(0, instrs@.len() as int) =~= instrs@);
    s
}

/// The whole assembly file: the header, then the instructions, then a newline.
pub fn program_to_asm(instrs: Vec<Instr>) -> (r: String)
    ensures
        r@ == header_text() + lines_text(instrs@) + "\n"@,
{
    let mut s = String::from_str(ASM_HEADER);
    let body = instructions_to_string(instrs);
    s.append(body.as_str());
    s.append("\n");
    s
}

} // verus!
