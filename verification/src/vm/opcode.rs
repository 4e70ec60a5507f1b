//! The instruction set.

use vstd::prelude::*;
use vstd::string::*;
use crate::text::{append_boolean, append_decimal, append_signed_decimal, boolean_text, decimal, signed_decimal};
use crate::types::Type;

verus! {

/// One entry of a closure's capture list: the value found `offset` slots
/// below the base of the active frame is bound to `name`, with its static
/// type.
#[derive(Debug)]
pub struct Capture {
    pub name: String,
    pub offset: usize,
    pub typ: Type,
}

/// What a capture is, mathematically.
pub struct CaptureView {
    pub name: Seq<char>,
    pub offset: nat,
    pub typ: Type,
}

impl View for Capture {
    type V = CaptureView;

    open spec fn view(&self) -> CaptureView {
        CaptureView { name: self.name@, offset: self.offset as nat, typ: self.typ }
    }
}

/// An instruction of the machine.
#[derive(Debug)]
pub enum Opcode {
    Add,
    And,
    /// Pushes a copy of the argument `offset` slots below the frame's base.
    Arg(usize),
    Bconst(bool),
    Call,
    Div,
    Dup,
    Equal,
    /// Builds a closure from an entry point and a capture list.
    Fconst(usize, Vec<Capture>),
    GetEnv(String),
    Greater,
    GreaterEqual,
    Iconst(i64),
    /// Jumps by an offset relative to this instruction.
    Jmp(i64),
    /// Pops a boolean and jumps by the offset if it is false.
    Jz(i64),
    Less,
    LessEqual,
    Mod,
    Mul,
    Not,
    NotEqual,
    Or,
    Pop,
    /// A tail call of the active function with this many arguments.
    Recur(usize),
    /// Returns from the active function, removing this many slots.
    Ret(usize),
    Rot,
    SetEnv(String),
    /// Marks the source position (line, column) of what follows.
    Srcpos(usize, usize),
    Sub,
    Uconst,
}

/// What an instruction is, mathematically.
pub enum OpcodeView {
    Add,
    And,
    Arg(nat),
    Bconst(bool),
    Call,
    Div,
    Dup,
    Equal,
    Fconst(nat, Seq<CaptureView>),
    GetEnv(Seq<char>),
    Greater,
    GreaterEqual,
    Iconst(i64),
    Jmp(int),
    Jz(int),
    Less,
    LessEqual,
    Mod,
    Mul,
    Not,
    NotEqual,
    Or,
    Pop,
    Recur(nat),
    Ret(nat),
    Rot,
    SetEnv(Seq<char>),
    Srcpos(nat, nat),
    Sub,
    Uconst,
}

/// The view of each capture of a list, in order.
pub open spec fn captures_view(captures: Seq<Capture>) -> Seq<CaptureView> {
    captures.map_values(|capture: Capture| capture@)
}

impl View for Opcode {
    type V = OpcodeView;

    open spec fn view(&self) -> OpcodeView {
        match self {
            Opcode::Add => OpcodeView::Add,
            Opcode::And => OpcodeView::And,
            Opcode::Arg(offset) => OpcodeView::Arg(*offset as nat),
            Opcode::Bconst(b) => OpcodeView::Bconst(*b),
            Opcode::Call => OpcodeView::Call,
            Opcode::Div => OpcodeView::Div,
            Opcode::Dup => OpcodeView::Dup,
            Opcode::Equal => OpcodeView::Equal,
            Opcode::Fconst(entry, captures) => OpcodeView::Fconst(
                *entry as nat,
                captures_view(captures@),
            ),
            Opcode::GetEnv(name) => OpcodeView::GetEnv(name@),
            Opcode::Greater => OpcodeView::Greater,
            Opcode::GreaterEqual => OpcodeView::GreaterEqual,
            Opcode::Iconst(i) => OpcodeView::Iconst(*i),
            Opcode::Jmp(offset) => OpcodeView::Jmp(*offset as int),
            Opcode::Jz(offset) => OpcodeView::Jz(*offset as int),
            Opcode::Less => OpcodeView::Less,
            Opcode::LessEqual => OpcodeView::LessEqual,
            Opcode::Mod => OpcodeView::Mod,
            Opcode::Mul => OpcodeView::Mul,
            Opcode::Not => OpcodeView::Not,
            Opcode::NotEqual => OpcodeView::NotEqual,
            Opcode::Or => OpcodeView::Or,
            Opcode::Pop => OpcodeView::Pop,
            Opcode::Recur(arity) => OpcodeView::Recur(*arity as nat),
            Opcode::Ret(arity) => OpcodeView::Ret(*arity as nat),
            Opcode::Rot => OpcodeView::Rot,
            Opcode::SetEnv(name) => OpcodeView::SetEnv(name@),
            Opcode::Srcpos(line, col) => OpcodeView::Srcpos(*line as nat, *col as nat),
            Opcode::Sub => OpcodeView::Sub,
            Opcode::Uconst => OpcodeView::Uconst,
        }
    }
}

/// The disassembly of an instruction: its mnemonic, then its immediate
/// operands. A closure shows its entry point and not its capture list.
pub open spec fn opcode_text(op: OpcodeView) -> Seq<char> {
    match op {
        OpcodeView::Add => "add"@,
        OpcodeView::And => "and"@,
        OpcodeView::Arg(offset) => "arg "@ + decimal(offset),
        OpcodeView::Bconst(b) => "const "@ + boolean_text(b),
        OpcodeView::Call => "call"@,
        OpcodeView::Div => "div"@,
        OpcodeView::Dup => "dup"@,
        OpcodeView::Equal => "eq"@,
        OpcodeView::Fconst(entry, _) => "lambda @"@ + decimal(entry),
        OpcodeView::GetEnv(name) => "getenv "@ + name,
        OpcodeView::Greater => "gt"@,
        OpcodeView::GreaterEqual => "ge"@,
        OpcodeView::Iconst(i) => "const "@ + signed_decimal(i as int),
        OpcodeView::Jmp(offset) => "jmp "@ + signed_decimal(offset),
        OpcodeView::Jz(offset) => "jz "@ + signed_decimal(offset),
        OpcodeView::Less => "lt"@,
        OpcodeView::LessEqual => "le"@,
        OpcodeView::Mod => "mod"@,
        OpcodeView::Mul => "mul"@,
        OpcodeView::Not => "not"@,
        OpcodeView::NotEqual => "neq"@,
        OpcodeView::Or => "or"@,
        OpcodeView::Pop => "pop"@,
        OpcodeView::Recur(arity) => "recur "@ + decimal(arity),
        OpcodeView::Ret(arity) => "ret "@ + decimal(arity),
        OpcodeView::Rot => "rot"@,
        OpcodeView::SetEnv(name) => "setenv "@ + name,
        OpcodeView::Srcpos(line, col) => "srcpos "@ + decimal(line) + " "@ + decimal(col),
        OpcodeView::Sub => "sub"@,
        OpcodeView::Uconst => "uconst"@,
    }
}

fn mnemonic_with_count(mnemonic: &str, count: usize) -> (text: String)
    ensures
        text@ == mnemonic@ + decimal(count as nat),
{
    let mut text = String::from_str(mnemonic);
    append_decimal(&mut text, count as u64);
    text
}

fn mnemonic_with_integer(mnemonic: &str, i: i64) -> (text: String)
    ensures
        text@ == mnemonic@ + signed_decimal(i as int),
{
    let mut text = String::from_str(mnemonic);
    append_signed_decimal(&mut text, i);
    text
}

fn mnemonic_with_name(mnemonic: &str, name: &String) -> (text: String)
    ensures
        text@ == mnemonic@ + name@,
{
    let mut text = String::from_str(mnemonic);
    text.append(name.as_str());
    text
}

impl Opcode {
    /// The disassembly of this instruction, on one line.
    pub fn to_string(&self) -> (text: String)
        ensures
            text@ == opcode_text(self@),
    {
        match self {
            Opcode::Add => String::from_str("add"),
            Opcode::And => String::from_str("and"),
            Opcode::Arg(offset) => mnemonic_with_count("arg ", *offset),
            Opcode::Bconst(b) => {
                let mut text = String::from_str("const ");
                append_boolean(&mut text, *b);
                text
            },
            Opcode::Call => String::from_str("call"),
            Opcode::Div => String::from_str("div"),
            Opcode::Dup => String::from_str("dup"),
            Opcode::Equal => String::from_str("eq"),
            Opcode::Fconst(entry, _) => mnemonic_with_count("lambda @", *entry),
            Opcode::GetEnv(name) => mnemonic_with_name("getenv ", name),
            Opcode::Greater => String::from_str("gt"),
            Opcode::GreaterEqual => String::from_str("ge"),
            Opcode::Iconst(i) => mnemonic_with_integer("const ", *i),
            Opcode::Jmp(offset) => mnemonic_with_integer("jmp ", *offset),
            Opcode::Jz(offset) => mnemonic_with_integer("jz ", *offset),
            Opcode::Less => String::from_str("lt"),
            Opcode::LessEqual => String::from_str("le"),
            Opcode::Mod => String::from_str("mod"),
            Opcode::Mul => String::from_str("mul"),
            Opcode::Not => String::from_str("not"),
            Opcode::NotEqual => String::from_str("neq"),
            Opcode::Or => String::from_str("or"),
            Opcode::Pop => String::from_str("pop"),
            Opcode::Recur(arity) => mnemonic_with_count("recur ", *arity),
            Opcode::Ret(arity) => mnemonic_with_count("ret ", *arity),
            Opcode::Rot => String::from_str("rot"),
            Opcode::SetEnv(name) => mnemonic_with_name("setenv ", name),
            Opcode::Srcpos(line, col) => {
                let mut text = mnemonic_with_count("srcpos ", *line);
                text.append(" ");
                append_decimal(&mut text, *col as u64);
                text
            },
            Opcode::Sub => String::from_str("sub"),
            Opcode::Uconst => String::from_str("uconst"),
        }
    }
}

} // verus!
