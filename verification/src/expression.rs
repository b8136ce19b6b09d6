//! The expression tree: its node types, their mathematical model, and the
//! operations that every node offers.

use vstd::prelude::*;
use crate::frame::{FrameStack, SlotCounter, StackView};
use crate::function::Function;
use crate::labels::{numbering, Labels};
use crate::mips::{
    call_by_label, call_label, append_decimal, reserve, decimal, load_arg, load_arg_text, load_var, load_var_text, pop, pop_text, pop_two,
    pop_two_text, push_value, push_value_text, reserve_text, save_t0, save_t0_text, save_var,
    save_var_text,
};

verus! {

/// The delimiter pair that a block was written in.
#[derive(Clone, Copy, Debug, PartialEq, Eq, Structural)]
pub enum BlockType {
    Curl,
    Brack,
}

/// The mathematical value of an expression tree.
pub enum ExprModel {
    Number { text: Seq<char> },
    Var { name: Seq<char>, addr: usize },
    TwoSideOp { left: Box<ExprModel>, right: Box<ExprModel>, sign: Seq<char>, mips: Seq<char> },
    If { code: Box<ExprModel>, cond: Box<ExprModel> },
    While { code: Box<ExprModel>, cond: Box<ExprModel> },
    VarDecl { name: Seq<char>, addr: usize, value: Box<ExprModel> },
    FuncDecl {
        name: Seq<char>,
        body: Box<ExprModel>,
        params: Seq<usize>,
        frame: StackView,
        n_vars: usize,
    },
    Call { name: Seq<char>, call_mips: Seq<char>, args: Seq<ExprModel> },
    Block { kind: BlockType, lines: Seq<ExprModel>, scope: Option<StackView> },
}

/// The display name of a block kind.
pub open spec fn block_name(kind: BlockType) -> Seq<char> {
    match kind {
        BlockType::Curl => "curl"@,
        BlockType::Brack => "brack"@,
    }
}

impl ExprModel {
    /// The display name of a node.
    pub open spec fn name(self) -> Seq<char> {
        match self {
            ExprModel::Number { .. } => "number"@,
            ExprModel::Var { name, .. } => name,
            ExprModel::TwoSideOp { sign, .. } => sign,
            ExprModel::If { .. } => "if"@,
            ExprModel::While { .. } => "while"@,
            ExprModel::VarDecl { .. } => "var decl"@,
            ExprModel::FuncDecl { name, .. } => name,
            ExprModel::Call { .. } => "func"@,
            ExprModel::Block { kind, .. } => block_name(kind),
        }
    }

    /// The kind of a block node; `None` for every other node.
    pub open spec fn block_kind(self) -> Option<BlockType> {
        match self {
            ExprModel::Block { kind, .. } => Some(kind),
            _ => None,
        }
    }
}

impl BlockType {
    /// The display name of the kind: `curl` or `brack`.
    pub fn get_name(&self) -> (r: String)
        ensures
            r@ == block_name(*self),
    {
        match self {
            BlockType::Curl => String::from_str("curl"),
            BlockType::Brack => String::from_str("brack"),
        }
    }
}

/// A node of the expression tree.
#[derive(Debug)]
pub enum Expression {
    Number(Number),
    Var(Var),
    TwoSideOp(TwoSideOp),
    If(IfBlock),
    While(WhileBlock),
    VarDecl(VarDecl),
    FuncDecl(FuncDecl),
    Call(FunctionCall),
    Block(CodeBlock),
}

/// A number literal, kept as its source text.
#[derive(Debug)]
pub struct Number(pub String);

/// A reference to a variable: its name and its slot.
#[derive(Debug)]
pub struct Var {
    name: String,
    addr: usize,
}

/// A binary operator applied to two operands. `sign` is the operator's
/// symbol, `mips` the instruction text that combines `$t0` and `$t1`.
#[derive(Debug)]
pub struct TwoSideOp {
    values: (Box<Expression>, Box<Expression>),
    sign: String,
    mips: String,
}

/// A conditional: a condition and the code that runs where it holds.
#[derive(Debug)]
pub struct IfBlock {
    code: Box<Expression>,
    cond: Box<Expression>,
}

/// A loop: a condition and the code that runs while it holds.
#[derive(Debug)]
pub struct WhileBlock {
    code: Box<Expression>,
    cond: Box<Expression>,
}

/// A variable declaration: the name, its slot, and the initial value.
#[derive(Debug)]
pub struct VarDecl {
    name: String,
    addr: usize,
    value: Box<Expression>,
}

/// A function declaration: the name, the body, the slots of the formal
/// parameters in the order of declaration, the frame of the body, and the
/// number of slots that the function reserves: what the slot counter stood
/// at when the function was declared.
#[derive(Debug)]
pub struct FuncDecl {
    name: String,
    body: Box<Expression>,
    args: Vec<usize>,
    frame: FrameStack,
    n_vars: usize,
}

/// A call: the callee's name, the text that transfers control to it, and
/// the arguments.
#[derive(Debug)]
pub struct FunctionCall {
    name: String,
    call_mips: String,
    args: Vec<Expression>,
}

/// A bracket-delimited sequence of nodes. A curly block carries the frame
/// that its lines were parsed in.
#[derive(Debug)]
pub struct CodeBlock {
    block_type: BlockType,
    lines: Vec<Expression>,
    frame: Option<FrameStack>,
}

/// The view of an optional frame.
pub open spec fn frame_view(frame: Option<FrameStack>) -> Option<StackView> {
    match frame {
        Some(f) => Some(f@),
        None => None,
    }
}

/// The model of a node.
pub closed spec fn expr_view(e: Expression) -> ExprModel
    decreases e,
{
    match e {
        Expression::Number(n) => ExprModel::Number { text: n.0@ },
        Expression::Var(v) => ExprModel::Var { name: v.name@, addr: v.addr },
        Expression::TwoSideOp(op) => ExprModel::TwoSideOp {
            left: Box::new(expr_view(*op.values.0)),
            right: Box::new(expr_view(*op.values.1)),
            sign: op.sign@,
            mips: op.mips@,
        },
        Expression::If(b) => ExprModel::If {
            code: Box::new(expr_view(*b.code)),
            cond: Box::new(expr_view(*b.cond)),
        },
        Expression::While(b) => ExprModel::While {
            code: Box::new(expr_view(*b.code)),
            cond: Box::new(expr_view(*b.cond)),
        },
        Expression::VarDecl(d) => ExprModel::VarDecl {
            name: d.name@,
            addr: d.addr,
            value: Box::new(expr_view(*d.value)),
        },
        Expression::FuncDecl(d) => ExprModel::FuncDecl {
            name: d.name@,
            body: Box::new(expr_view(*d.body)),
            params: d.args@,
            frame: d.frame@,
            n_vars: d.n_vars,
        },
        Expression::Call(c) => ExprModel::Call {
            name: c.name@,
            call_mips: c.call_mips@,
            args: lines_view(c.args@),
        },
        Expression::Block(b) => ExprModel::Block {
            kind: b.block_type,
            lines: lines_view(b.lines@),
            scope: frame_view(b.frame),
        },
    }
}

/// The models of a sequence of nodes, in order.
pub closed spec fn lines_view(lines: Seq<Expression>) -> Seq<ExprModel>
    decreases lines,
{
    if lines.len() == 0 {
        Seq::empty()
    } else {
        lines_view(lines.drop_last()).push(expr_view(lines.last()))
    }
}

/// `lines_view` maps `expr_view` over the sequence.
pub proof fn lemma_lines_view(lines: Seq<Expression>)
    ensures
        lines_view(lines).len() == lines.len(),
        forall|i: int| 0 <= i < lines.len() ==> #[trigger] lines_view(lines)[i] == lines[i]@,
    decreases lines.len(),
{
    if lines.len() > 0 {
        lemma_lines_view(lines.drop_last());
        assert forall|i: int| 0 <= i < lines.len() implies #[trigger] lines_view(lines)[i]
            == lines[i]@ by {
            if i < lines.len() - 1 {
                assert(lines.drop_last()[i] == lines[i]);
            }
        }
    }
}

/// Appending a node appends its model.
pub proof fn lemma_lines_view_push(lines: Seq<Expression>, e: Expression)
    ensures
        lines_view(lines.push(e)) == lines_view(lines).push(e@),
{
    assert(lines.push(e).drop_last() =~= lines);
}

impl View for Expression {
    type V = ExprModel;

    closed spec fn view(&self) -> ExprModel {
        expr_view(*self)
    }
}

impl View for Number {
    type V = ExprModel;

    closed spec fn view(&self) -> ExprModel {
        ExprModel::Number { text: self.0@ }
    }
}

impl View for Var {
    type V = ExprModel;

    closed spec fn view(&self) -> ExprModel {
        ExprModel::Var { name: self.name@, addr: self.addr }
    }
}

impl View for TwoSideOp {
    type V = ExprModel;

    closed spec fn view(&self) -> ExprModel {
        ExprModel::TwoSideOp {
            left: Box::new((*self.values.0)@),
            right: Box::new((*self.values.1)@),
            sign: self.sign@,
            mips: self.mips@,
        }
    }
}

impl View for IfBlock {
    type V = ExprModel;

    closed spec fn view(&self) -> ExprModel {
        ExprModel::If { code: Box::new((*self.code)@), cond: Box::new((*self.cond)@) }
    }
}

impl View for WhileBlock {
    type V = ExprModel;

    closed spec fn view(&self) -> ExprModel {
        ExprModel::While { code: Box::new((*self.code)@), cond: Box::new((*self.cond)@) }
    }
}

impl View for VarDecl {
    type V = ExprModel;

    closed spec fn view(&self) -> ExprModel {
        ExprModel::VarDecl { name: self.name@, addr: self.addr, value: Box::new((*self.value)@) }
    }
}

impl View for FuncDecl {
    type V = ExprModel;

    closed spec fn view(&self) -> ExprModel {
        ExprModel::FuncDecl {
            name: self.name@,
            body: Box::new((*self.body)@),
            params: self.args@,
            frame: self.frame@,
            n_vars: self.n_vars,
        }
    }
}

impl View for FunctionCall {
    type V = ExprModel;

    closed spec fn view(&self) -> ExprModel {
        ExprModel::Call { name: self.name@, call_mips: self.call_mips@, args: lines_view(self.args@) }
    }
}

impl View for CodeBlock {
    type V = ExprModel;

    closed spec fn view(&self) -> ExprModel {
        ExprModel::Block {
            kind: self.block_type,
            lines: lines_view(self.lines@),
            scope: frame_view(self.frame),
        }
    }
}

/// Copies a sequence of nodes.
pub fn clone_lines(lines: &Vec<Expression>) -> (r: Vec<Expression>)
    ensures
        lines_view(r@) == lines_view(lines@),
        r@.len() == lines@.len(),
    decreases lines,
{
    let mut out: Vec<Expression> = Vec::new();
    let mut i: usize = 0;
    assert(lines@.take(0) =~= out@);
    while i < lines.len()
        invariant
            i <= lines.len(),
            out@.len() == i,
            lines_view(out@) == lines_view(lines@.take(i as int)),
        decreases lines.len() - i,
    {
        let e = lines[i].clone();
        proof {
            lemma_lines_view_push(out@, e);
            lemma_lines_view_push(lines@.take(i as int), lines@[i as int]);
            assert(lines@.take(i as int).push(lines@[i as int]) =~= lines@.take(i + 1));
        }
        out.push(e);
        i += 1;
    }
    assert(lines@.take(lines.len() as int) =~= lines@);
    out
}

impl Clone for Expression {
    fn clone(&self) -> (r: Self)
        ensures
            r@ == self@,
        decreases self,
    {
        match self {
            Expression::Number(n) => Expression::Number(Number(n.0.clone())),
            Expression::Var(v) => Expression::Var(Var { name: v.name.clone(), addr: v.addr }),
            Expression::TwoSideOp(op) => Expression::TwoSideOp(
                TwoSideOp {
                    values: (Box::new((*op.values.0).clone()), Box::new((*op.values.1).clone())),
                    sign: op.sign.clone(),
                    mips: op.mips.clone(),
                },
            ),
            Expression::If(b) => Expression::If(
                IfBlock { code: Box::new((*b.code).clone()), cond: Box::new((*b.cond).clone()) },
            ),
            Expression::While(b) => Expression::While(
                WhileBlock { code: Box::new((*b.code).clone()), cond: Box::new((*b.cond).clone()) },
            ),
            Expression::VarDecl(d) => Expression::VarDecl(
                VarDecl {
                    name: d.name.clone(),
                    addr: d.addr,
                    value: Box::new((*d.value).clone()),
                },
            ),
            Expression::FuncDecl(d) => {
                let args = copy_slots(&d.args);
                Expression::FuncDecl(
                    FuncDecl {
                        name: d.name.clone(),
                        body: Box::new((*d.body).clone()),
                        args,
                        frame: d.frame.clone(),
                        n_vars: d.n_vars,
                    },
                )
            },
            Expression::Call(c) => Expression::Call(
                FunctionCall {
                    name: c.name.clone(),
                    call_mips: c.call_mips.clone(),
                    args: clone_lines(&c.args),
                },
            ),
            Expression::Block(b) => {
                let frame = match &b.frame {
                    Some(f) => Some(f.clone()),
                    None => None,
                };
                Expression::Block(
                    CodeBlock { block_type: b.block_type, lines: clone_lines(&b.lines), frame },
                )
            },
        }
    }
}

/// Copies a list of slots.
fn copy_slots(slots: &Vec<usize>) -> (r: Vec<usize>)
    ensures
        r@ == slots@,
{
    let mut out: Vec<usize> = Vec::new();
    let mut i: usize = 0;
    while i < slots.len()
        invariant
            i <= slots.len(),
            out@ == slots@.take(i as int),
        decreases slots.len() - i,
    {
        out.push(slots[i]);
        assert(slots@.take(i as int).push(slots@[i as int]) =~= slots@.take(i + 1));
        i += 1;
    }
    assert(slots@.take(slots.len() as int) =~= slots@);
    out
}

/// The text of a conditional whose label number is `id`, around the texts of
/// its condition and of its code.
pub open spec fn if_text(cond: Seq<char>, code: Seq<char>, id: u32) -> Seq<char> {
    cond + pop_text() + "#branch:\nbeqz $t0, if_false"@ + decimal(id as nat) + "\n"@
        + "#branch code: \n"@ + code + "if_false"@ + decimal(id as nat) + ":\n"@
}

/// The text of a loop whose label number is `id`, around the texts of its
/// condition and of its code.
pub open spec fn while_text(cond: Seq<char>, code: Seq<char>, id: u32) -> Seq<char> {
    "while_start"@ + decimal(id as nat) + ":\n#calc cond\n"@ + cond + "#eval cond: \n"@ + pop_text()
        + "#branch:\nbeqz $t0, while_end"@ + decimal(id as nat) + "\n"@ + code + "j while_start"@
        + decimal(id as nat) + "\nwhile_end"@ + decimal(id as nat) + ":\n"@
}

/// The text that moves the `i`-th incoming argument, counted from the last
/// formal parameter, into that parameter's slot.
pub open spec fn param_text(args: Seq<usize>, i: int) -> Seq<char> {
    load_arg_text((i + 1) as usize) + save_var_text(args[args.len() - 1 - i])
}

/// The texts for the first `n` parameters counted from the last, each
/// separated from the next by a newline.
pub open spec fn params_text(args: Seq<usize>, n: nat) -> Seq<char>
    decreases n,
{
    if n == 0 {
        Seq::empty()
    } else if n == 1 {
        param_text(args, 0)
    } else {
        params_text(args, (n - 1) as nat) + "\n"@ + param_text(args, n - 1)
    }
}

/// The text of a function declaration around the text of its body: a jump
/// over the body, the label, the prologue that saves the caller's frame and
/// stack pointers and reserves `n_vars` slots, the binding of the
/// parameters, the body, the epilogue, and the label behind the body.
pub open spec fn func_decl_text(name: Seq<char>, n_vars: usize, args: Seq<usize>, body: Seq<char>) -> Seq<char> {
    "j "@ + name + "_end\n"@ + name + ":\n"@ + "add $t4, $t6, $zero\n"@ + "add $t5, $sp, $zero\n"@
        + reserve_text(n_vars) + params_text(args, args.len()) + body + pop_text()
        + "add $sp, $t5, $zero\n"@ + "add $t6, $t4, $zero\n"@ + save_t0_text() + "jr $ra\n"@ + name
        + "_end:"@
}

/// The text of a binary operator around the texts of its operands.
pub open spec fn two_side_text(left: Seq<char>, right: Seq<char>, mips: Seq<char>) -> Seq<char> {
    left + right + pop_two_text() + mips + "\n"@ + save_t0_text()
}

impl ExprModel {
    /// The number of label numbers that emitting the node takes: one for each
    /// conditional and each loop in it.
    pub open spec fn label_count(self) -> nat
        decreases self,
    {
        match self {
            ExprModel::Number { .. } => 0,
            ExprModel::Var { .. } => 0,
            ExprModel::TwoSideOp { left, right, .. } => left.label_count() + right.label_count(),
            ExprModel::If { code, cond } => 1 + cond.label_count() + code.label_count(),
            ExprModel::While { code, cond } => 1 + cond.label_count() + code.label_count(),
            ExprModel::VarDecl { value, .. } => value.label_count(),
            ExprModel::FuncDecl { body, .. } => body.label_count(),
            ExprModel::Call { args, .. } => lines_label_count(args),
            ExprModel::Block { lines, .. } => lines_label_count(lines),
        }
    }

    /// The assembly text of the node, where its conditionals and loops take
    /// their label numbers from `ids`, the first at index `pos`, in the
    /// order in which they are met: a node before its condition, the
    /// condition before the code.
    pub open spec fn text(self, ids: Seq<u32>, pos: int) -> Seq<char>
        decreases self,
    {
        match self {
            ExprModel::Number { text } => push_value_text(text),
            ExprModel::Var { addr, .. } => load_var_text(addr),
            ExprModel::TwoSideOp { left, right, mips, .. } => two_side_text(
                left.text(ids, pos),
                right.text(ids, pos + left.label_count()),
                mips,
            ),
            ExprModel::If { code, cond } => if_text(
                cond.text(ids, pos + 1),
                code.text(ids, pos + 1 + cond.label_count()),
                ids[pos],
            ),
            ExprModel::While { code, cond } => while_text(
                cond.text(ids, pos + 1),
                code.text(ids, pos + 1 + cond.label_count()),
                ids[pos],
            ),
            ExprModel::VarDecl { addr, value, .. } => value.text(ids, pos) + save_var_text(addr),
            ExprModel::FuncDecl { name, body, params, n_vars, .. } => func_decl_text(
                name,
                n_vars,
                params,
                body.text(ids, pos),
            ),
            ExprModel::Call { call_mips, args, .. } => lines_text(args, ids, pos) + call_mips,
            ExprModel::Block { lines, .. } => lines_text(lines, ids, pos),
        }
    }
}

/// The number of label numbers that a sequence of nodes takes.
pub open spec fn lines_label_count(lines: Seq<ExprModel>) -> nat
    decreases lines,
{
    if lines.len() == 0 {
        0
    } else {
        lines_label_count(lines.drop_last()) + lines.last().label_count()
    }
}

/// The texts of a sequence of nodes, each separated from the next by a
/// newline.
pub open spec fn lines_text(lines: Seq<ExprModel>, ids: Seq<u32>, pos: int) -> Seq<char>
    decreases lines,
{
    if lines.len() == 0 {
        Seq::empty()
    } else if lines.len() == 1 {
        lines[0].text(ids, pos)
    } else {
        lines_text(lines.drop_last(), ids, pos) + "\n"@ + lines.last().text(
            ids,
            pos + lines_label_count(lines.drop_last()),
        )
    }
}

/// The text of a node depends on no label number but those it takes.
pub proof fn lemma_text_agrees(e: ExprModel, a: Seq<u32>, b: Seq<u32>, pos: int)
    requires
        forall|k: int| pos <= k < pos + e.label_count() ==> a[k] == b[k],
    ensures
        e.text(a, pos) == e.text(b, pos),
    decreases e,
{
    match e {
        ExprModel::Number { .. } => {},
        ExprModel::Var { .. } => {},
        ExprModel::TwoSideOp { left, right, .. } => {
            lemma_text_agrees(*left, a, b, pos);
            lemma_text_agrees(*right, a, b, pos + left.label_count());
        },
        ExprModel::If { code, cond } => {
            lemma_text_agrees(*cond, a, b, pos + 1);
            lemma_text_agrees(*code, a, b, pos + 1 + cond.label_count());
        },
        ExprModel::While { code, cond } => {
            lemma_text_agrees(*cond, a, b, pos + 1);
            lemma_text_agrees(*code, a, b, pos + 1 + cond.label_count());
        },
        ExprModel::VarDecl { value, .. } => {
            lemma_text_agrees(*value, a, b, pos);
        },
        ExprModel::FuncDecl { body, .. } => {
            lemma_text_agrees(*body, a, b, pos);
        },
        ExprModel::Call { args, .. } => {
            lemma_lines_text_agrees(args, a, b, pos);
        },
        ExprModel::Block { lines, .. } => {
            lemma_lines_text_agrees(lines, a, b, pos);
        },
    }
}

/// The same for a sequence of nodes.
pub proof fn lemma_lines_text_agrees(lines: Seq<ExprModel>, a: Seq<u32>, b: Seq<u32>, pos: int)
    requires
        forall|k: int| pos <= k < pos + lines_label_count(lines) ==> a[k] == b[k],
    ensures
        lines_text(lines, a, pos) == lines_text(lines, b, pos),
    decreases lines,
{
    if lines.len() == 1 {
        assert(lines_label_count(lines.drop_last()) == 0);
        lemma_text_agrees(lines[0], a, b, pos);
    } else if lines.len() > 1 {
        lemma_lines_text_agrees(lines.drop_last(), a, b, pos);
        lemma_text_agrees(lines.last(), a, b, pos + lines_label_count(lines.drop_last()));
    }
}

/// The fragment of a conditional whose label number is `id`.
pub fn if_mips(cond: &str, code: &str, id: u32) -> (r: String)
    ensures
        r@ == if_text(cond@, code@, id),
{
    let mut r = String::from_str(cond);
    r.append(pop().as_str());
    r.append("#branch:\nbeqz $t0, if_false");
    append_decimal(&mut r, id as u64);
    r.append("\n");
    r.append("#branch code: \n");
    r.append(code);
    r.append("if_false");
    append_decimal(&mut r, id as u64);
    r.append(":\n");
    assert(r@ =~= if_text(cond@, code@, id));
    r
}

/// The fragment of a loop whose label number is `id`.
pub fn while_mips(cond: &str, code: &str, id: u32) -> (r: String)
    ensures
        r@ == while_text(cond@, code@, id),
{
    let mut r = String::from_str("while_start");
    append_decimal(&mut r, id as u64);
    r.append(":\n#calc cond\n");
    r.append(cond);
    r.append("#eval cond: \n");
    r.append(pop().as_str());
    r.append("#branch:\nbeqz $t0, while_end");
    append_decimal(&mut r, id as u64);
    r.append("\n");
    r.append(code);
    r.append("j while_start");
    append_decimal(&mut r, id as u64);
    r.append("\nwhile_end");
    append_decimal(&mut r, id as u64);
    r.append(":\n");
    assert(r@ =~= while_text(cond@, code@, id));
    r
}

/// The fragment that binds the incoming arguments to the parameters' slots.
pub fn params_mips(args: &Vec<usize>) -> (r: String)
    ensures
        r@ == params_text(args@, args@.len()),
{
    let mut r = String::new();
    let mut i: usize = 0;
    while i < args.len()
        invariant
            i <= args.len(),
            r@ == params_text(args@, i as nat),
        decreases args.len() - i,
    {
        if i > 0 {
            r.append("\n");
        }
        r.append(load_arg(i + 1).as_str());
        r.append(save_var(args[args.len() - 1 - i]).as_str());
        assert(r@ =~= params_text(args@, (i + 1) as nat));
        i += 1;
    }
    r
}

/// The fragment of a function declaration around the fragment of its body.
pub fn func_decl_mips(name: &str, n_vars: usize, args: &Vec<usize>, body: &str) -> (r: String)
    ensures
        r@ == func_decl_text(name@, n_vars, args@, body@),
{
    let mut r = String::from_str("j ");
    r.append(name);
    r.append("_end\n");
    r.append(name);
    r.append(":\n");
    r.append("add $t4, $t6, $zero\n");
    r.append("add $t5, $sp, $zero\n");
    r.append(reserve(n_vars).as_str());
    r.append(params_mips(args).as_str());
    r.append(body);
    r.append(pop().as_str());
    r.append("add $sp, $t5, $zero\n");
    r.append("add $t6, $t4, $zero\n");
    r.append(save_t0().as_str());
    r.append("jr $ra\n");
    r.append(name);
    r.append("_end:");
    assert(r@ =~= func_decl_text(name@, n_vars, args@, body@));
    r
}

/// Emits a sequence of nodes, each separated from the next by a newline.
pub fn emit_lines(lines: &Vec<Expression>, labels: &mut Labels) -> (r: String)
    requires
        old(labels).wf(),
    ensures
        final(labels).wf(),
        final(labels).given() == old(labels).given(),
        final(labels).counts() == old(labels).counts(),
        final(labels).used().len() == old(labels).used().len() + lines_label_count(lines_view(lines@)),
        final(labels).used().take(old(labels).used().len() as int) == old(labels).used(),
        r@ == lines_text(lines_view(lines@), final(labels).used(), old(labels).used().len() as int),
    decreases lines,
{
    let ghost m = lines_view(lines@);
    let ghost start = labels.used().len() as int;
    let ghost before = labels.used();
    proof {
        lemma_lines_view(lines@);
    }
    let mut r = String::new();
    let mut i: usize = 0;
    assert(labels.used().take(start) =~= before);
    while i < lines.len()
        invariant
            i <= lines.len(),
            m == lines_view(lines@),
            m.len() == lines@.len(),
            forall|k: int| 0 <= k < lines@.len() ==> #[trigger] m[k] == lines@[k]@,
            labels.wf(),
            labels.given() == old(labels).given(),
            labels.counts() == old(labels).counts(),
            start == old(labels).used().len(),
            before == old(labels).used(),
            labels.used().len() == start + lines_label_count(m.take(i as int)),
            labels.used().take(start) == before,
            r@ == lines_text(m.take(i as int), labels.used(), start),
        decreases lines.len() - i,
    {
        let ghost prev = labels.used();
        let ghost done = m.take(i as int);
        let ghost mid = labels.used().len() as int;
        let line = lines[i].emit(labels);
        proof {
            let now = labels.used();
            assert(m.take(i + 1).drop_last() =~= done);
            assert(m.take(i + 1).last() == m[i as int]);
            assert forall|k: int| start <= k < start + lines_label_count(done) implies prev[k]
                == now[k] by {
                assert(now.take(mid)[k] == now[k]);
            }
            lemma_lines_text_agrees(done, prev, now, start);
            assert(now.take(start) =~= now.take(mid).take(start));
        }
        if i > 0 {
            r.append("\n");
        }
        r.append(line.as_str());
        proof {
            if i == 0 {
                assert(lines_label_count(done) == 0);
                assert(r@ =~= line@);
            }
        }
        i += 1;
    }
    assert(m.take(lines.len() as int) =~= m);
    r
}

impl Expression {
    /// Emits the node, taking a label number from `labels` for each
    /// conditional and each loop.
    pub fn emit(&self, labels: &mut Labels) -> (r: String)
        requires
            old(labels).wf(),
        ensures
            final(labels).wf(),
            final(labels).given() == old(labels).given(),
            final(labels).counts() == old(labels).counts(),
            final(labels).used().len() == old(labels).used().len() + self@.label_count(),
            final(labels).used().take(old(labels).used().len() as int) == old(labels).used(),
            r@ == self@.text(final(labels).used(), old(labels).used().len() as int),
        decreases self,
    {
        let ghost start = labels.used().len() as int;
        let ghost before = labels.used();
        assert(labels.used().take(start) =~= before);
        match self {
            Expression::Number(n) => push_value(n.0.as_str()),
            Expression::Var(v) => load_var(v.addr),
            Expression::TwoSideOp(op) => {
                let left = (*op.values.0).emit(labels);
                let ghost prev = labels.used();
                let right = (*op.values.1).emit(labels);
                proof {
                    let now = labels.used();
                    assert forall|k: int| start <= k < prev.len() implies prev[k] == now[k] by {
                        assert(now.take(prev.len() as int)[k] == now[k]);
                    }
                    lemma_text_agrees((*op.values.0)@, prev, now, start);
                    assert(now.take(start) =~= now.take(prev.len() as int).take(start));
                }
                let mut r = left;
                r.append(right.as_str());
                r.append(pop_two().as_str());
                r.append(op.mips.as_str());
                r.append("\n");
                r.append(save_t0().as_str());
                r
            },
            Expression::If(b) => {
                let id = labels.next();
                let ghost first = labels.used();
                let cond = (*b.cond).emit(labels);
                let ghost prev = labels.used();
                let code = (*b.code).emit(labels);
                proof {
                    let now = labels.used();
                    assert forall|k: int| 0 <= k < prev.len() implies prev[k] == now[k] by {
                        assert(now.take(prev.len() as int)[k] == now[k]);
                    }
                    assert(prev.take(first.len() as int)[start] == prev[start]);
                    lemma_text_agrees((*b.cond)@, prev, now, start + 1);
                    assert forall|k: int| 0 <= k < start implies now[k] == before[k] by {
                        assert(prev.take(first.len() as int)[k] == prev[k]);
                    }
                    assert(now.take(start) =~= before);
                }
                if_mips(cond.as_str(), code.as_str(), id)
            },
            Expression::While(b) => {
                let id = labels.next();
                let ghost first = labels.used();
                let cond = (*b.cond).emit(labels);
                let ghost prev = labels.used();
                let code = (*b.code).emit(labels);
                proof {
                    let now = labels.used();
                    assert forall|k: int| 0 <= k < prev.len() implies prev[k] == now[k] by {
                        assert(now.take(prev.len() as int)[k] == now[k]);
                    }
                    assert(prev.take(first.len() as int)[start] == prev[start]);
                    lemma_text_agrees((*b.cond)@, prev, now, start + 1);
                    assert forall|k: int| 0 <= k < start implies now[k] == before[k] by {
                        assert(prev.take(first.len() as int)[k] == prev[k]);
                    }
                    assert(now.take(start) =~= before);
                }
                while_mips(cond.as_str(), code.as_str(), id)
            },
            Expression::VarDecl(d) => {
                let mut r = (*d.value).emit(labels);
                r.append(save_var(d.addr).as_str());
                r
            },
            Expression::FuncDecl(d) => {
                let body = (*d.body).emit(labels);
                func_decl_mips(d.name.as_str(), d.n_vars, &d.args, body.as_str())
            },
            Expression::Call(c) => {
                let mut r = emit_lines(&c.args, labels);
                r.append(c.call_mips.as_str());
                r
            },
            Expression::Block(b) => emit_lines(&b.lines, labels),
        }
    }

    /// The assembly text of the node. The conditionals and loops in it get
    /// the label numbers 0, 1, 2 and so on, in the order in which they are
    /// met, so that no two of them share a label.
    pub fn gen_mips(&self) -> (r: String)
        ensures
            r@ == self@.text(numbering(self@.label_count()), 0),
    {
        let mut labels = Labels::numbered();
        let r = self.emit(&mut labels);
        proof {
            lemma_text_agrees(self@, labels.used(), numbering(self@.label_count()), 0);
        }
        r
    }

    /// The assembly text of the node, with the label numbers taken from
    /// `ids` in order. Where `ids` holds fewer numbers than the node takes,
    /// the rest are random.
    pub fn gen_mips_with(&self, ids: Vec<u32>) -> (r: String)
        ensures
            ids@.len() >= self@.label_count() ==> r@ == self@.text(ids@, 0),
            exists|all: Seq<u32>|
                all.len() == self@.label_count() && r@ == self@.text(all, 0) && forall|k: int|
                    0 <= k < all.len() && k < ids@.len() ==> all[k] == ids@[k],
    {
        let ghost given = ids@;
        let mut labels = Labels::new(ids);
        let r = self.emit(&mut labels);
        proof {
            let all = labels.used();
            if given.len() >= self@.label_count() {
                lemma_text_agrees(self@, all, given, 0);
            }
            assert(all.len() == self@.label_count() && r@ == self@.text(all, 0) && forall|k: int|
                0 <= k < all.len() && k < given.len() ==> all[k] == given[k]);
        }
        r
    }

    /// The display name of the node.
    pub fn get_name(&self) -> (r: String)
        ensures
            r@ == self@.name(),
    {
        match self {
            Expression::Number(_) => String::from_str("number"),
            Expression::Var(v) => v.name.clone(),
            Expression::TwoSideOp(op) => op.sign.clone(),
            Expression::If(_) => String::from_str("if"),
            Expression::While(_) => String::from_str("while"),
            Expression::VarDecl(_) => String::from_str("var decl"),
            Expression::FuncDecl(d) => d.name.clone(),
            Expression::Call(_) => String::from_str("func"),
            Expression::Block(b) => b.block_type.get_name(),
        }
    }

    /// The lines of the block that the node is, where it is one.
    pub fn into_lines(self) -> (r: Option<Vec<Expression>>)
        ensures
            match self@ {
                ExprModel::Block { lines, .. } => r is Some && lines_view(r->Some_0@) == lines,
                _ => r is None,
            },
    {
        match self {
            Expression::Block(b) => Some(b.lines),
            _ => None,
        }
    }

    /// The block that the node is, where it is one.
    pub fn as_block(&self) -> (r: Option<&CodeBlock>)
        ensures
            match r {
                Some(b) => b@ == self@ && self@.block_kind() == Some(b.kind()),
                None => self@.block_kind() is None,
            },
    {
        match self {
            Expression::Block(b) => Some(b),
            _ => None,
        }
    }
}

impl CodeBlock {
    /// The kind of the block.
    pub closed spec fn kind(&self) -> BlockType {
        self.block_type
    }

    /// A block of kind `block_type` that holds `lines`; `frame` is the frame
    /// that the lines were parsed in, where the block has one of its own.
    pub fn new(lines: Vec<Expression>, block_type: BlockType, frame: Option<FrameStack>) -> (r: Self)
        ensures
            r@ == (ExprModel::Block {
                kind: block_type,
                lines: lines_view(lines@),
                scope: frame_view(frame),
            }),
            r.kind() == block_type,
    {
        CodeBlock { block_type, lines, frame }
    }

    /// The kind of the block.
    pub fn block_type(&self) -> (r: BlockType)
        ensures
            r == self.kind(),
            self@.block_kind() == Some(r),
    {
        self.block_type
    }

    /// The frame that the block's lines were parsed in, where it has one.
    pub fn frame(&self) -> (r: &Option<FrameStack>)
        ensures
            self@ matches ExprModel::Block { scope, .. } && scope == frame_view(*r),
    {
        &self.frame
    }

    /// The nodes that the block holds.
    pub fn lines(&self) -> (r: &Vec<Expression>)
        ensures
            self@ matches ExprModel::Block { lines, .. } && lines == lines_view(r@),
    {
        &self.lines
    }
}

impl Number {
    /// A number literal with the source text `text`.
    pub fn new(text: String) -> (r: Self)
        ensures
            r@ == (ExprModel::Number { text: text@ }),
    {
        Number(text)
    }
}

impl Var {
    /// A reference to the variable `name` in slot `addr`.
    pub fn new(name: String, addr: usize) -> (r: Self)
        ensures
            r@ == (ExprModel::Var { name: name@, addr }),
    {
        Var { name, addr }
    }
}

impl TwoSideOp {
    /// The operator `sign`, with the instruction text `mips`, applied to the
    /// pair `values`.
    pub fn new(values: (Box<Expression>, Box<Expression>), sign: String, mips: String) -> (r: Self)
        ensures
            r@ == (ExprModel::TwoSideOp {
                left: Box::new((*values.0)@),
                right: Box::new((*values.1)@),
                sign: sign@,
                mips: mips@,
            }),
    {
        TwoSideOp { values, sign, mips }
    }
}

impl IfBlock {
    /// A conditional that runs `code` where `cond` holds.
    pub fn new(code: Box<Expression>, cond: Box<Expression>) -> (r: Self)
        ensures
            r@ == (ExprModel::If { code: Box::new((*code)@), cond: Box::new((*cond)@) }),
    {
        IfBlock { code, cond }
    }
}

impl WhileBlock {
    /// A loop that runs `code` while `cond` holds.
    pub fn new(code: Box<Expression>, cond: Box<Expression>) -> (r: Self)
        ensures
            r@ == (ExprModel::While { code: Box::new((*code)@), cond: Box::new((*cond)@) }),
    {
        WhileBlock { code, cond }
    }
}

impl VarDecl {
    /// A declaration of `name`, in slot `addr`, with the initial value
    /// `value`.
    pub fn new(name: String, addr: usize, value: Box<Expression>) -> (r: Self)
        ensures
            r@ == (ExprModel::VarDecl { name: name@, addr, value: Box::new((*value)@) }),
    {
        VarDecl { name, addr, value }
    }
}

impl FuncDecl {
    /// A declaration of the function `name` with the body `body`; `args`
    /// holds the slots of the formal parameters, `frame` is the frame of
    /// the body, and `n_vars` is the number of slots that the function
    /// reserves.
    pub fn new(
        name: String,
        body: Box<Expression>,
        args: Vec<usize>,
        frame: FrameStack,
        n_vars: usize,
    ) -> (r: Self)
        ensures
            r@ == (ExprModel::FuncDecl {
                name: name@,
                body: Box::new((*body)@),
                params: args@,
                frame: frame@,
                n_vars,
            }),
    {
        FuncDecl { name, body, args, frame, n_vars }
    }
}

impl FunctionCall {
    /// A call of the function `name`, to which `call_mips` transfers
    /// control, with the arguments `args`.
    pub fn new(name: String, call_mips: String, args: Vec<Expression>) -> (r: Self)
        ensures
            r@ == (ExprModel::Call {
                name: name@,
                call_mips: call_mips@,
                args: lines_view(args@),
            }),
    {
        FunctionCall { name, call_mips, args }
    }
}

impl Number {
    /// The node as a member of the tree.
    pub fn into_expr(self) -> (r: Expression)
        ensures
            r@ == self@,
    {
        Expression::Number(self)
    }
}

impl Var {
    /// The node as a member of the tree.
    pub fn into_expr(self) -> (r: Expression)
        ensures
            r@ == self@,
    {
        Expression::Var(self)
    }
}

impl TwoSideOp {
    /// The node as a member of the tree.
    pub fn into_expr(self) -> (r: Expression)
        ensures
            r@ == self@,
    {
        Expression::TwoSideOp(self)
    }
}

impl IfBlock {
    /// The node as a member of the tree.
    pub fn into_expr(self) -> (r: Expression)
        ensures
            r@ == self@,
    {
        Expression::If(self)
    }
}

impl WhileBlock {
    /// The node as a member of the tree.
    pub fn into_expr(self) -> (r: Expression)
        ensures
            r@ == self@,
    {
        Expression::While(self)
    }
}

impl VarDecl {
    /// The node as a member of the tree.
    pub fn into_expr(self) -> (r: Expression)
        ensures
            r@ == self@,
    {
        Expression::VarDecl(self)
    }
}

impl FuncDecl {
    /// The node as a member of the tree.
    pub fn into_expr(self) -> (r: Expression)
        ensures
            r@ == self@,
    {
        Expression::FuncDecl(self)
    }
}

impl FunctionCall {
    /// The node as a member of the tree.
    pub fn into_expr(self) -> (r: Expression)
        ensures
            r@ == self@,
    {
        Expression::Call(self)
    }
}

impl CodeBlock {
    /// The node as a member of the tree.
    pub fn into_expr(self) -> (r: Expression)
        ensures
            r@ == self@,
    {
        Expression::Block(self)
    }
}

impl Function for FuncDecl {
    open spec fn call_text(&self) -> Seq<char> {
        call_by_label(self@.name())
    }

    open spec fn name_text(&self) -> Seq<char> {
        self@.name()
    }

    fn get_call_mips(&self) -> (r: String) {
        call_label(self.name.as_str())
    }

    fn get_name(&self) -> (r: String) {
        self.name.clone()
    }
}

/// Copies of a node that stand in a box of their own, as the children of
/// a node do.
pub trait ExpressionClone {
    /// The model of the node that is copied.
    spec fn model(&self) -> ExprModel;

    /// A copy of the node in a box.
    fn clone_box(&self) -> (r: Box<Expression>)
        ensures
            (*r)@ == self.model(),
    ;
}

impl ExpressionClone for Expression {
    open spec fn model(&self) -> ExprModel {
        self@
    }

    fn clone_box(&self) -> (r: Box<Expression>) {
        Box::new(self.clone())
    }
}

/// The line that sets the stack pointer up before the program runs.
pub open spec fn stack_setup_text() -> Seq<char> {
    "addi $sp, $sp, -1000\n"@
}

/// The text of a whole program: the line that sets the stack up, the
/// fragment that reserves `n_vars` slots, and the text of the root node, each
/// on lines of its own.
pub open spec fn program_text(n_vars: usize, body: Seq<char>) -> Seq<char> {
    stack_setup_text() + reserve_text(n_vars) + "\n"@ + body + "\n"@
}

/// The assembly text of a program: the stack set-up, the reservation of
/// every slot that `counter`, the counter of the root frame `frame`, has
/// handed out, and the text of `root` with its labels numbered from 0.
pub fn program_mips(root: &Expression, frame: &FrameStack, counter: &SlotCounter) -> (r: String)
    ensures
        r@ == program_text(counter@, root@.text(numbering(root@.label_count()), 0)),
{
    let body = root.gen_mips();
    let mut r = String::from_str("addi $sp, $sp, -1000\n");
    r.append(frame.gen_mips(counter).as_str());
    r.append("\n");
    r.append(body.as_str());
    r.append("\n");
    r
}

} // verus!
