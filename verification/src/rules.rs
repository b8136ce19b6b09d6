//! The grammar rules of the language, one for each kind of node that a rule
//! builds.

use vstd::prelude::*;
use crate::error::ParseError;
use crate::expression::{
    lines_view, BlockType, Expression, FuncDecl, FunctionCall, IfBlock, TwoSideOp, VarDecl,
    WhileBlock,
};
use crate::frame::{FrameStack, SlotCounter};
use crate::function::Function;
use crate::pattern::{
    construct, patterns_view, BlockPatt, ConstrModel, ExprBuilder, ExprConstr, ExprPattern,
    Pattern, PatternModel, RuleModel, TextPatt, TextPattVar,
};

verus! {

impl IfBlock {
    /// Builds a conditional from its two captures: the condition, then the
    /// code.
    pub fn construct(params: Vec<Expression>, frame: &mut FrameStack, counter: &mut SlotCounter) -> (r: Result<
        Expression,
        ParseError,
    >)
        ensures
            match construct(ConstrModel::If, lines_view(params@), old(frame)@.at(old(counter)@)) {
                Ok((node, f)) => r is Ok && r->Ok_0@ == node && final(frame)@.at(final(counter)@) == f,
                Err(e) => r is Err && r->Err_0 == e && final(frame)@ == old(frame)@,
            },
            final(counter)@ >= old(counter)@,
            r is Ok && old(frame)@.at(old(counter)@).wf() ==> final(frame)@.at(final(counter)@).wf(),
    {
        ExprConstr::If.construct(params, frame, counter)
    }

    /// The rule of the conditional: the word `if`, a round block, a curly
    /// block.
    pub fn get_builder() -> (r: ExprBuilder)
        ensures
            r@ == (RuleModel {
                patterns: seq![
                    PatternModel::Text("if"@),
                    PatternModel::Block(BlockType::Brack),
                    PatternModel::Block(BlockType::Curl),
                ],
                constr: ConstrModel::If,
            }),
    {
        let patterns = vec![
            Pattern::Text(TextPatt(String::from_str("if"))),
            Pattern::Block(BlockPatt(BlockType::Brack)),
            Pattern::Block(BlockPatt(BlockType::Curl)),
        ];
        assert(patterns_view(patterns@) =~= seq![
            PatternModel::Text("if"@),
            PatternModel::Block(BlockType::Brack),
            PatternModel::Block(BlockType::Curl),
        ]);
        ExprBuilder::new(patterns, ExprConstr::If)
    }
}

impl WhileBlock {
    /// Builds a loop from its two captures: the condition, then the code.
    pub fn construct(params: Vec<Expression>, frame: &mut FrameStack, counter: &mut SlotCounter) -> (r: Result<
        Expression,
        ParseError,
    >)
        ensures
            match construct(ConstrModel::While, lines_view(params@), old(frame)@.at(old(counter)@)) {
                Ok((node, f)) => r is Ok && r->Ok_0@ == node && final(frame)@.at(final(counter)@) == f,
                Err(e) => r is Err && r->Err_0 == e && final(frame)@ == old(frame)@,
            },
            final(counter)@ >= old(counter)@,
            r is Ok && old(frame)@.at(old(counter)@).wf() ==> final(frame)@.at(final(counter)@).wf(),
    {
        ExprConstr::While.construct(params, frame, counter)
    }

    /// The rule of the loop: the word `while`, a round block, a curly block.
    pub fn get_builder() -> (r: ExprBuilder)
        ensures
            r@ == (RuleModel {
                patterns: seq![
                    PatternModel::Text("while"@),
                    PatternModel::Block(BlockType::Brack),
                    PatternModel::Block(BlockType::Curl),
                ],
                constr: ConstrModel::While,
            }),
    {
        let patterns = vec![
            Pattern::Text(TextPatt(String::from_str("while"))),
            Pattern::Block(BlockPatt(BlockType::Brack)),
            Pattern::Block(BlockPatt(BlockType::Curl)),
        ];
        assert(patterns_view(patterns@) =~= seq![
            PatternModel::Text("while"@),
            PatternModel::Block(BlockType::Brack),
            PatternModel::Block(BlockType::Curl),
        ]);
        ExprBuilder::new(patterns, ExprConstr::While)
    }
}

impl TwoSideOp {
    /// The rule of the binary operator `sign`, whose instruction text is
    /// `mips`: an expression, the operator's symbol, an expression.
    pub fn get_builder(sign: &str, mips: &str) -> (r: ExprBuilder)
        ensures
            r@ == (RuleModel {
                patterns: seq![PatternModel::Expr, PatternModel::Text(sign@), PatternModel::Expr],
                constr: ConstrModel::TwoSideOp { sign: sign@, mips: mips@ },
            }),
    {
        let patterns = vec![
            Pattern::Expr(ExprPattern),
            Pattern::Text(TextPatt(String::from_str(sign))),
            Pattern::Expr(ExprPattern),
        ];
        assert(patterns_view(patterns@) =~= seq![
            PatternModel::Expr,
            PatternModel::Text(sign@),
            PatternModel::Expr,
        ]);
        ExprBuilder::new(
            patterns,
            ExprConstr::TwoSideOp { sign: String::from_str(sign), mips: String::from_str(mips) },
        )
    }
}

impl VarDecl {
    /// The rule of the declaration: a name, the word `sei`, an expression.
    pub fn get_builder() -> (r: ExprBuilder)
        ensures
            r@ == (RuleModel {
                patterns: seq![PatternModel::Name, PatternModel::Text("sei"@), PatternModel::Expr],
                constr: ConstrModel::VarDecl,
            }),
    {
        let patterns = vec![
            Pattern::Name(TextPattVar),
            Pattern::Text(TextPatt(String::from_str("sei"))),
            Pattern::Expr(ExprPattern),
        ];
        assert(patterns_view(patterns@) =~= seq![
            PatternModel::Name,
            PatternModel::Text("sei"@),
            PatternModel::Expr,
        ]);
        ExprBuilder::new(patterns, ExprConstr::VarDecl)
    }
}

impl FunctionCall {
    /// The rule of a call of the known function `func`: its name, a round
    /// block.
    pub fn get_builder<F: Function>(func: &F) -> (r: ExprBuilder)
        ensures
            r@ == (RuleModel {
                patterns: seq![
                    PatternModel::Text(func.name_text()),
                    PatternModel::Block(BlockType::Brack),
                ],
                constr: ConstrModel::Call { name: func.name_text(), call_mips: func.call_text() },
            }),
    {
        let patterns = vec![
            Pattern::Text(TextPatt(func.get_name())),
            Pattern::Block(BlockPatt(BlockType::Brack)),
        ];
        assert(patterns_view(patterns@) =~= seq![
            PatternModel::Text(func.name_text()),
            PatternModel::Block(BlockType::Brack),
        ]);
        ExprBuilder::new(
            patterns,
            ExprConstr::Call { name: func.get_name(), call_mips: func.get_call_mips() },
        )
    }

    /// The rule of a call of a function that is known by its name only: a
    /// name, a round block.
    pub fn get_builder_var() -> (r: ExprBuilder)
        ensures
            r@ == (RuleModel {
                patterns: seq![PatternModel::Name, PatternModel::Block(BlockType::Brack)],
                constr: ConstrModel::CallVar,
            }),
    {
        let patterns = vec![
            Pattern::Name(TextPattVar),
            Pattern::Block(BlockPatt(BlockType::Brack)),
        ];
        assert(patterns_view(patterns@) =~= seq![
            PatternModel::Name,
            PatternModel::Block(BlockType::Brack),
        ]);
        ExprBuilder::new(patterns, ExprConstr::CallVar)
    }
}

impl FuncDecl {
    /// The rule of the function declaration: the word `def`, a name, a round
    /// block of parameters, a curly block.
    pub fn get_builder() -> (r: ExprBuilder)
        ensures
            r@ == (RuleModel {
                patterns: seq![
                    PatternModel::Text("def"@),
                    PatternModel::Name,
                    PatternModel::Block(BlockType::Brack),
                    PatternModel::Block(BlockType::Curl),
                ],
                constr: ConstrModel::FuncDecl,
            }),
    {
        let patterns = vec![
            Pattern::Text(TextPatt(String::from_str("def"))),
            Pattern::Name(TextPattVar),
            Pattern::Block(BlockPatt(BlockType::Brack)),
            Pattern::Block(BlockPatt(BlockType::Curl)),
        ];
        assert(patterns_view(patterns@) =~= seq![
            PatternModel::Text("def"@),
            PatternModel::Name,
            PatternModel::Block(BlockType::Brack),
            PatternModel::Block(BlockType::Curl),
        ]);
        ExprBuilder::new(patterns, ExprConstr::FuncDecl)
    }
}

} // verus!
