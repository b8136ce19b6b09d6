//! The grammar rule engine: matchers, rules, and the sweep that rewrites a
//! sequence of tokens and nodes with one rule.

use vstd::prelude::*;
use crate::error::ParseError;
use crate::expression::{
    lemma_lines_view, lemma_lines_view_push, lines_view, BlockType, ExprModel,
    Expression, FuncDecl, FunctionCall, IfBlock, TwoSideOp, Var, VarDecl, WhileBlock,
};
use crate::frame::{lemma_counted_wf, FrameStack, FrameView, SlotCounter};
use crate::mips::{call_by_label, call_label};
use crate::token::{same_text, Token, TokenType, TokenView};

verus! {

/// An item of the sequence that the parser works on: a raw token or a node
/// that was built already.
#[derive(Debug)]
pub enum TORE<'a> {
    Token(Token<'a>),
    Expr(Expression),
}

/// The mathematical value of an item.
pub enum ToreModel {
    Token(TokenView),
    Expr(ExprModel),
}

impl<'a> View for TORE<'a> {
    type V = ToreModel;

    open spec fn view(&self) -> ToreModel {
        match self {
            TORE::Token(t) => ToreModel::Token(t@),
            TORE::Expr(e) => ToreModel::Expr(e@),
        }
    }
}

impl<'a> Clone for TORE<'a> {
    fn clone(&self) -> (r: Self)
        ensures
            r@ == self@,
    {
        match self {
            TORE::Token(t) => TORE::Token(Token::new(t.token_type, t.slice)),
            TORE::Expr(e) => TORE::Expr(e.clone()),
        }
    }
}

/// The models of a sequence of items, in order.
pub open spec fn items_view<'a>(items: Seq<TORE<'a>>) -> Seq<ToreModel> {
    items.map_values(|t: TORE<'a>| t@)
}

/// Whether an item is a raw token with the text `text`.
pub open spec fn is_token_text(item: ToreModel, text: Seq<char>) -> bool {
    match item {
        ToreModel::Token(t) => t.text == text,
        ToreModel::Expr(_) => false,
    }
}

/// What a matcher is.
pub enum PatternModel {
    /// Matches a raw token with exactly this text; captures nothing.
    Text(Seq<char>),
    /// Matches any raw token; captures it as a variable placeholder.
    Name,
    /// Matches a block node of this kind; captures the node.
    Block(BlockType),
    /// Matches any node, or a bare word; captures the node, or the word as
    /// a variable placeholder.
    Expr,
}

/// The placeholder that stands for a captured name: a variable reference
/// whose slot is not resolved.
pub open spec fn placeholder(name: Seq<char>) -> ExprModel {
    ExprModel::Var { name, addr: 0 }
}

/// What a matcher makes of an item: `None` where it does not match,
/// `Some(None)` where it matches and captures nothing, `Some(Some(node))`
/// where it matches and captures `node`.
pub open spec fn match_item(p: PatternModel, item: ToreModel) -> Option<Option<ExprModel>> {
    match p {
        PatternModel::Text(text) => if is_token_text(item, text) {
            Some(None)
        } else {
            None
        },
        PatternModel::Name => match item {
            ToreModel::Token(t) => Some(Some(placeholder(t.text))),
            ToreModel::Expr(_) => None,
        },
        PatternModel::Block(kind) => match item {
            ToreModel::Expr(e) => if e.block_kind() == Some(kind) {
                Some(Some(e))
            } else {
                None
            },
            ToreModel::Token(_) => None,
        },
        PatternModel::Expr => match item {
            ToreModel::Expr(e) => Some(Some(e)),
            ToreModel::Token(t) => if t.kind == TokenType::Word {
                Some(Some(placeholder(t.text)))
            } else {
                None
            },
        },
    }
}

/// The model of what `match_tore` returns.
pub open spec fn capture_view(r: Option<Option<Expression>>) -> Option<Option<ExprModel>> {
    match r {
        None => None,
        Some(None) => Some(None),
        Some(Some(e)) => Some(Some(e@)),
    }
}

/// A matcher: it looks at one item and matches it or not, and may capture a
/// node from it.
pub trait SimplePattern {
    /// What the matcher is.
    spec fn model(&self) -> PatternModel;

    /// Matches one item.
    fn match_tore<'a>(&self, t: &TORE<'a>) -> (r: Option<Option<Expression>>)
        ensures
            capture_view(r) == match_item(self.model(), t@),
    ;
}

/// Matches a raw token with a fixed text, and captures nothing.
#[derive(Debug)]
pub struct TextPatt(pub String);

/// Matches any raw token and captures it as a variable placeholder.
#[derive(Debug)]
pub struct TextPattVar;

/// Matches a block node of a given kind and captures it.
#[derive(Debug)]
pub struct BlockPatt(pub BlockType);

/// Matches any node, or a bare word, and captures it.
#[derive(Debug)]
pub struct ExprPattern;

/// Any of the matchers.
#[derive(Debug)]
pub enum Pattern {
    Text(TextPatt),
    Name(TextPattVar),
    Block(BlockPatt),
    Expr(ExprPattern),
}

impl SimplePattern for TextPatt {
    open spec fn model(&self) -> PatternModel {
        PatternModel::Text(self.0@)
    }

    fn match_tore<'a>(&self, t: &TORE<'a>) -> (r: Option<Option<Expression>>) {
        match t {
            TORE::Token(tok) => {
                if same_text(tok.slice, self.0.as_str()) {
                    Some(None)
                } else {
                    None
                }
            },
            TORE::Expr(_) => None,
        }
    }
}

impl SimplePattern for TextPattVar {
    open spec fn model(&self) -> PatternModel {
        PatternModel::Name
    }

    fn match_tore<'a>(&self, t: &TORE<'a>) -> (r: Option<Option<Expression>>) {
        match t {
            TORE::Token(tok) => {
                let var = Var::new(tok.slice.to_owned(), 0);
                Some(Some(var.into_expr()))
            },
            TORE::Expr(_) => None,
        }
    }
}

impl SimplePattern for BlockPatt {
    open spec fn model(&self) -> PatternModel {
        PatternModel::Block(self.0)
    }

    fn match_tore<'a>(&self, t: &TORE<'a>) -> (r: Option<Option<Expression>>) {
        match t {
            TORE::Expr(e) => {
                match e.as_block() {
                    Some(b) => {
                        if b.block_type() == self.0 {
                            Some(Some(e.clone()))
                        } else {
                            None
                        }
                    },
                    None => None,
                }
            },
            TORE::Token(_) => None,
        }
    }
}

impl SimplePattern for ExprPattern {
    open spec fn model(&self) -> PatternModel {
        PatternModel::Expr
    }

    fn match_tore<'a>(&self, t: &TORE<'a>) -> (r: Option<Option<Expression>>) {
        match t {
            TORE::Expr(e) => Some(Some(e.clone())),
            TORE::Token(tok) => {
                if tok.token_type == TokenType::Word {
                    let var = Var::new(tok.slice.to_owned(), 0);
                    Some(Some(var.into_expr()))
                } else {
                    None
                }
            },
        }
    }
}

impl SimplePattern for Pattern {
    open spec fn model(&self) -> PatternModel {
        match self {
            Pattern::Text(p) => p.model(),
            Pattern::Name(p) => p.model(),
            Pattern::Block(p) => p.model(),
            Pattern::Expr(p) => p.model(),
        }
    }

    fn match_tore<'a>(&self, t: &TORE<'a>) -> (r: Option<Option<Expression>>) {
        match self {
            Pattern::Text(p) => p.match_tore(t),
            Pattern::Name(p) => p.match_tore(t),
            Pattern::Block(p) => p.match_tore(t),
            Pattern::Expr(p) => p.match_tore(t),
        }
    }
}

/// What a constructor is: the kind of node that it builds from a rule's
/// captures.
pub enum ConstrModel {
    TwoSideOp { sign: Seq<char>, mips: Seq<char> },
    VarDecl,
    If,
    While,
    Call { name: Seq<char>, call_mips: Seq<char> },
    CallVar,
    FuncDecl,
}

/// What a rule is: its matchers in order, and its constructor.
pub struct RuleModel {
    pub patterns: Seq<PatternModel>,
    pub constr: ConstrModel,
}

/// The display names of a sequence of nodes.
pub open spec fn names_of(lines: Seq<ExprModel>) -> Seq<Seq<char>> {
    lines.map_values(|e: ExprModel| e.name())
}

/// Asks `frame` for each of `names` from index `i` on, in order, and adds the
/// slots to `slots`. Fails where a name needs a slot and none is left.
pub open spec fn bind_from(names: Seq<Seq<char>>, i: int, slots: Seq<usize>, frame: FrameView) -> Result<
    (Seq<usize>, FrameView),
    ParseError,
>
    decreases names.len() - i,
{
    if i < 0 || i >= names.len() {
        Ok((slots, frame))
    } else if !frame.can_bind(names[i]) {
        Err(ParseError::SlotsExhausted)
    } else {
        bind_from(names, i + 1, slots.push(frame.slot_for(names[i])), frame.after_get(names[i]))
    }
}

/// What a constructor builds from the captures `caps` in the frame `frame`:
/// the node and the frame afterwards, or the reason why it cannot.
pub open spec fn construct(c: ConstrModel, caps: Seq<ExprModel>, frame: FrameView) -> Result<
    (ExprModel, FrameView),
    ParseError,
> {
    match c {
        ConstrModel::TwoSideOp { sign, mips } => if caps.len() == 2 {
            Ok(
                (
                    ExprModel::TwoSideOp {
                        left: Box::new(caps[0]),
                        right: Box::new(caps[1]),
                        sign,
                        mips,
                    },
                    frame,
                ),
            )
        } else {
            Err(ParseError::RuleMismatch)
        },
        ConstrModel::VarDecl => if caps.len() == 2 {
            let name = caps[0].name();
            if frame.can_bind(name) {
                Ok(
                    (
                        ExprModel::VarDecl {
                            name,
                            addr: frame.slot_for(name),
                            value: Box::new(caps[1]),
                        },
                        frame.after_get(name),
                    ),
                )
            } else {
                Err(ParseError::SlotsExhausted)
            }
        } else {
            Err(ParseError::RuleMismatch)
        },
        ConstrModel::If => if caps.len() == 2 {
            Ok((ExprModel::If { code: Box::new(caps[1]), cond: Box::new(caps[0]) }, frame))
        } else {
            Err(ParseError::RuleMismatch)
        },
        ConstrModel::While => if caps.len() == 2 {
            Ok((ExprModel::While { code: Box::new(caps[1]), cond: Box::new(caps[0]) }, frame))
        } else {
            Err(ParseError::RuleMismatch)
        },
        ConstrModel::Call { name, call_mips } => if caps.len() == 1 {
            match caps[0] {
                ExprModel::Block { lines, .. } => Ok(
                    (ExprModel::Call { name, call_mips, args: lines }, frame),
                ),
                _ => Err(ParseError::RuleMismatch),
            }
        } else {
            Err(ParseError::RuleMismatch)
        },
        ConstrModel::CallVar => if caps.len() == 2 {
            match caps[1] {
                ExprModel::Block { lines, .. } => Ok(
                    (
                        ExprModel::Call {
                            name: caps[0].name(),
                            call_mips: call_by_label(caps[0].name()),
                            args: lines,
                        },
                        frame,
                    ),
                ),
                _ => Err(ParseError::RuleMismatch),
            }
        } else {
            Err(ParseError::RuleMismatch)
        },
        ConstrModel::FuncDecl => if caps.len() == 3 {
            match (caps[1], caps[2]) {
                (
                    ExprModel::Block { lines, .. },
                    ExprModel::Block { scope: Some(body_frame), .. },
                ) => match bind_from(
                    names_of(lines),
                    0,
                    Seq::empty(),
                    body_frame.at(frame.n_vars),
                ) {
                    Ok((slots, f)) => Ok(
                        (
                            ExprModel::FuncDecl {
                                name: caps[0].name(),
                                body: Box::new(caps[2]),
                                params: slots,
                                frame: f.stack(),
                                n_vars: f.n_vars,
                            },
                            frame.counted(f.n_vars),
                        ),
                    ),
                    Err(e) => Err(e),
                },
                _ => Err(ParseError::RuleMismatch),
            }
        } else {
            Err(ParseError::RuleMismatch)
        },
    }
}

/// Matches the matchers from index `k` on against the items from index
/// `at + k` on, and adds what they capture to `caps`.
pub open spec fn window_from(
    patterns: Seq<PatternModel>,
    items: Seq<ToreModel>,
    at: int,
    k: int,
    caps: Seq<ExprModel>,
) -> Option<Seq<ExprModel>>
    decreases patterns.len() - k,
{
    if k < 0 || k >= patterns.len() {
        Some(caps)
    } else {
        match match_item(patterns[k], items[at + k]) {
            None => None,
            Some(None) => window_from(patterns, items, at, k + 1, caps),
            Some(Some(e)) => window_from(patterns, items, at, k + 1, caps.push(e)),
        }
    }
}

/// What the matchers capture from the window of items that begins at index
/// `at`, in the order of the matchers; `None` where one of them does not
/// match.
pub open spec fn match_window(patterns: Seq<PatternModel>, items: Seq<ToreModel>, at: int) -> Option<
    Seq<ExprModel>,
> {
    window_from(patterns, items, at, 0, Seq::empty())
}

/// The sequence in which the `n` items from index `at` on are replaced by
/// the one item `by`.
pub open spec fn splice(items: Seq<ToreModel>, at: int, n: int, by: ToreModel) -> Seq<ToreModel> {
    items.take(at).push(by) + items.skip(at + n)
}

/// One sweep of a rule over `items`, from index `i` on. At each index the
/// rule's window is tried; where it matches, the constructor's node replaces
/// the window, and the sweep goes on one index further. A rule without
/// matchers changes nothing.
pub open spec fn sweep(rule: RuleModel, items: Seq<ToreModel>, frame: FrameView, i: int) -> Result<
    (Seq<ToreModel>, FrameView),
    ParseError,
>
    decreases items.len() - i,
{
    let n = rule.patterns.len() as int;
    if n == 0 || i < 0 || i + n > items.len() {
        Ok((items, frame))
    } else {
        match match_window(rule.patterns, items, i) {
            None => sweep(rule, items, frame, i + 1),
            Some(caps) => match construct(rule.constr, caps, frame) {
                Err(e) => Err(e),
                Ok((node, after)) => sweep(
                    rule,
                    splice(items, i, n, ToreModel::Expr(node)),
                    after,
                    i + 1,
                ),
            },
        }
    }
}

/// The constructor of a rule: the kind of node that it builds.
#[derive(Debug)]
pub enum ExprConstr {
    /// A binary operator with this symbol and this instruction text.
    TwoSideOp { sign: String, mips: String },
    /// A variable declaration.
    VarDecl,
    /// A conditional.
    If,
    /// A loop.
    While,
    /// A call of a known function with this name and this call text.
    Call { name: String, call_mips: String },
    /// A call of a function that is known by its name only.
    CallVar,
    /// A function declaration.
    FuncDecl,
}

impl View for ExprConstr {
    type V = ConstrModel;

    open spec fn view(&self) -> ConstrModel {
        match self {
            ExprConstr::TwoSideOp { sign, mips } => ConstrModel::TwoSideOp {
                sign: sign@,
                mips: mips@,
            },
            ExprConstr::VarDecl => ConstrModel::VarDecl,
            ExprConstr::If => ConstrModel::If,
            ExprConstr::While => ConstrModel::While,
            ExprConstr::Call { name, call_mips } => ConstrModel::Call {
                name: name@,
                call_mips: call_mips@,
            },
            ExprConstr::CallVar => ConstrModel::CallVar,
            ExprConstr::FuncDecl => ConstrModel::FuncDecl,
        }
    }
}

/// Asks `frame` for the name of each of `lines`, in order.
pub fn bind_params(lines: &Vec<Expression>, frame: &mut FrameStack, counter: &mut SlotCounter) -> (r: Result<
    Vec<usize>,
    ParseError,
>)
    ensures
        match bind_from(names_of(lines_view(lines@)), 0, Seq::empty(), old(frame)@.at(old(counter)@)) {
            Ok((slots, f)) => r is Ok && r->Ok_0@ == slots && final(frame)@.at(final(counter)@) == f,
            Err(e) => r is Err && r->Err_0 == e,
        },
        final(counter)@ >= old(counter)@,
        r is Ok && old(frame)@.at(old(counter)@).wf() ==> final(frame)@.at(final(counter)@).wf(),
{
    let ghost names = names_of(lines_view(lines@));
    proof {
        lemma_lines_view(lines@);
    }
    let mut slots: Vec<usize> = Vec::new();
    let mut i: usize = 0;
    while i < lines.len()
        invariant
            i <= lines.len(),
            counter@ >= old(counter)@,
            old(frame)@.at(old(counter)@).wf() ==> frame@.at(counter@).wf(),
            names == names_of(lines_view(lines@)),
            names.len() == lines@.len(),
            forall|k: int| 0 <= k < lines@.len() ==> #[trigger] names[k] == lines@[k]@.name(),
            bind_from(names, 0, Seq::empty(), old(frame)@.at(old(counter)@)) == bind_from(
                names,
                i as int,
                slots@,
                frame@.at(counter@),
            ),
        decreases lines.len() - i,
    {
        let name = lines[i].get_name();
        if !frame.can_bind(name.as_str(), counter) {
            return Err(ParseError::SlotsExhausted);
        }
        let slot = frame.get_addr(name.as_str(), counter);
        slots.push(slot);
        i += 1;
    }
    Ok(slots)
}

impl ExprConstr {
    /// Builds the node from the captures `params`. Binding a name may change
    /// `frame`.
    pub fn construct(&self, params: Vec<Expression>, frame: &mut FrameStack, counter: &mut SlotCounter) -> (r: Result<
        Expression,
        ParseError,
    >)
        ensures
            match construct(self@, lines_view(params@), old(frame)@.at(old(counter)@)) {
                Ok((node, f)) => r is Ok && r->Ok_0@ == node && final(frame)@.at(final(counter)@) == f,
                Err(e) => r is Err && r->Err_0 == e && final(frame)@ == old(frame)@,
            },
            final(counter)@ >= old(counter)@,
            r is Ok && old(frame)@.at(old(counter)@).wf() ==> final(frame)@.at(final(counter)@).wf(),
    {
        let mut params = params;
        proof {
            lemma_lines_view(params@);
        }
        let n = params.len();
        match self {
            ExprConstr::TwoSideOp { sign, mips } => {
                if n != 2 {
                    return Err(ParseError::RuleMismatch);
                }
                let b = params.pop().unwrap();
                let a = params.pop().unwrap();
                let node = TwoSideOp::new((Box::new(a), Box::new(b)), sign.clone(), mips.clone());
                Ok(node.into_expr())
            },
            ExprConstr::VarDecl => {
                if n != 2 {
                    return Err(ParseError::RuleMismatch);
                }
                let value = params.pop().unwrap();
                let name = params.pop().unwrap().get_name();
                if !frame.can_bind(name.as_str(), counter) {
                    return Err(ParseError::SlotsExhausted);
                }
                let addr = frame.get_addr(name.as_str(), counter);
                Ok(VarDecl::new(name, addr, Box::new(value)).into_expr())
            },
            ExprConstr::If => {
                if n != 2 {
                    return Err(ParseError::RuleMismatch);
                }
                let code = params.pop().unwrap();
                let cond = params.pop().unwrap();
                Ok(IfBlock::new(Box::new(code), Box::new(cond)).into_expr())
            },
            ExprConstr::While => {
                if n != 2 {
                    return Err(ParseError::RuleMismatch);
                }
                let code = params.pop().unwrap();
                let cond = params.pop().unwrap();
                Ok(WhileBlock::new(Box::new(code), Box::new(cond)).into_expr())
            },
            ExprConstr::Call { name, call_mips } => {
                if n != 1 {
                    return Err(ParseError::RuleMismatch);
                }
                match params.pop().unwrap().into_lines() {
                    Some(args) => Ok(
                        FunctionCall::new(name.clone(), call_mips.clone(), args).into_expr(),
                    ),
                    None => Err(ParseError::RuleMismatch),
                }
            },
            ExprConstr::CallVar => {
                if n != 2 {
                    return Err(ParseError::RuleMismatch);
                }
                let args = params.pop().unwrap();
                let name = params.pop().unwrap().get_name();
                match args.into_lines() {
                    Some(args) => {
                        let call_mips = call_label(name.as_str());
                        Ok(FunctionCall::new(name, call_mips, args).into_expr())
                    },
                    None => Err(ParseError::RuleMismatch),
                }
            },
            ExprConstr::FuncDecl => {
                if n != 3 {
                    return Err(ParseError::RuleMismatch);
                }
                let body = params.pop().unwrap();
                let args = params.pop().unwrap();
                let name = params.pop().unwrap().get_name();
                let mut body_frame = match body.as_block() {
                    Some(block) => match block.frame() {
                        Some(f) => f.clone(),
                        None => {
                            return Err(ParseError::RuleMismatch);
                        },
                    },
                    None => {
                        return Err(ParseError::RuleMismatch);
                    },
                };
                let bound = match args.as_block() {
                    Some(block) => bind_params(block.lines(), &mut body_frame, counter),
                    None => {
                        return Err(ParseError::RuleMismatch);
                    },
                };
                match bound {
                    Ok(slots) => {
                        proof {
                            if old(frame)@.at(old(counter)@).wf() {
                                lemma_counted_wf(old(frame)@.at(old(counter)@), counter@);
                            }
                        }
                        Ok(
                            FuncDecl::new(
                                name,
                                Box::new(body),
                                slots,
                                body_frame,
                                counter.count(),
                            ).into_expr(),
                        )
                    },
                    Err(e) => Err(e),
                }
            },
        }
    }
}

/// The models of a sequence of matchers, in order.
pub open spec fn patterns_view(patterns: Seq<Pattern>) -> Seq<PatternModel> {
    patterns.map_values(|p: Pattern| p.model())
}

/// A grammar rule: matchers that are held against a window of items, and a
/// constructor that builds one node from what they capture.
#[derive(Debug)]
pub struct ExprBuilder {
    patterns: Vec<Pattern>,
    constructor: ExprConstr,
}

impl View for ExprBuilder {
    type V = RuleModel;

    closed spec fn view(&self) -> RuleModel {
        RuleModel { patterns: patterns_view(self.patterns@), constr: self.constructor@ }
    }
}

impl ExprBuilder {
    /// A rule has at least one matcher.
    #[verifier::type_invariant]
    closed spec fn has_matchers(&self) -> bool {
        self.patterns@.len() > 0
    }

    /// The rule with the matchers `patterns` and the constructor
    /// `constructor`.
    pub fn new(patterns: Vec<Pattern>, constructor: ExprConstr) -> (r: Self)
        requires
            patterns@.len() > 0,
        ensures
            r@ == (RuleModel { patterns: patterns_view(patterns@), constr: constructor@ }),
    {
        ExprBuilder { patterns, constructor }
    }

    /// Holds the rule's matchers against the window of `tokens` that begins
    /// at index `at`, and returns what they capture.
    pub fn match_at<'a>(&self, tokens: &Vec<TORE<'a>>, at: usize) -> (r: Option<Vec<Expression>>)
        requires
            at + self@.patterns.len() <= tokens@.len(),
        ensures
            match match_window(self@.patterns, items_view(tokens@), at as int) {
                Some(caps) => r is Some && lines_view(r->Some_0@) == caps,
                None => r is None,
            },
    {
        let ghost pats = self@.patterns;
        let ghost items = items_view(tokens@);
        let mut params: Vec<Expression> = Vec::new();
        let mut k: usize = 0;
        let total = tokens.len();
        proof {
            lemma_lines_view(params@);
            assert(lines_view(params@) =~= Seq::<ExprModel>::empty());
        }
        while k < self.patterns.len()
            invariant
                k <= self.patterns.len(),
                pats == self@.patterns,
                pats.len() == self.patterns@.len(),
                items == items_view(tokens@),
                at + pats.len() <= tokens@.len(),
                total == tokens@.len(),
                match_window(pats, items, at as int) == window_from(
                    pats,
                    items,
                    at as int,
                    k as int,
                    lines_view(params@),
                ),
            decreases self.patterns.len() - k,
        {
            assert(pats[k as int] == self.patterns@[k as int].model());
            assert(items[at + k] == tokens@[at + k]@);
            match self.patterns[k].match_tore(&tokens[at + k]) {
                None => {
                    return None;
                },
                Some(None) => {},
                Some(Some(e)) => {
                    proof {
                        lemma_lines_view_push(params@, e);
                    }
                    params.push(e);
                },
            }
            k += 1;
        }
        Some(params)
    }

    /// Sweeps the rule once over `tokens`, from left to right. Wherever the
    /// rule's window matches, the constructor's node takes the place of the
    /// window, and the sweep goes on one item further.
    pub fn parse_occurences<'a>(&self, tokens: Vec<TORE<'a>>, frame: &mut FrameStack, counter: &mut SlotCounter) -> (r: Result<
        Vec<TORE<'a>>,
        ParseError,
    >)
        ensures
            match sweep(self@, items_view(tokens@), old(frame)@.at(old(counter)@), 0) {
                Ok((items, f)) => r is Ok && items_view(r->Ok_0@) == items && final(frame)@.at(final(counter)@) == f,
                Err(e) => r is Err && r->Err_0 == e,
            },
            final(counter)@ >= old(counter)@,
            r is Ok && old(frame)@.at(old(counter)@).wf() ==> final(frame)@.at(final(counter)@).wf(),
            r is Ok ==> r->Ok_0@.len() <= tokens@.len(),
    {
        proof {
            use_type_invariant(self);
        }
        let ghost rule = self@;
        let ghost start_items = items_view(tokens@);
        let mut work = tokens;
        let n = self.patterns.len();
        let mut i: usize = 0;
        while n <= work.len() && i <= work.len() - n
            invariant
                counter@ >= old(counter)@,
                old(frame)@.at(old(counter)@).wf() ==> frame@.at(counter@).wf(),
                rule == self@,
                start_items == items_view(tokens@),
                n == rule.patterns.len(),
                n > 0,
                work@.len() <= start_items.len(),
                sweep(rule, start_items, old(frame)@.at(old(counter)@), 0) == sweep(
                    rule,
                    items_view(work@),
                    frame@.at(counter@),
                    i as int,
                ),
            decreases work@.len() - i,
        {
            let ghost before = work@;
            let ghost items = items_view(work@);
            match self.match_at(&work, i) {
                None => {},
                Some(params) => {
                    let node = match self.constructor.construct(params, frame, counter) {
                        Ok(node) => node,
                        Err(e) => {
                            return Err(e);
                        },
                    };
                    let mut k: usize = 0;
                    while k < n
                        invariant
                            k <= n,
                            i + n <= before.len(),
                            work@ == before.take(i as int) + before.skip(i + k),
                        decreases n - k,
                    {
                        work.remove(i);
                        assert(work@ =~= before.take(i as int) + before.skip(i + k + 1));
                        k += 1;
                    }
                    let ghost model = node@;
                    work.insert(i, TORE::Expr(node));
                    assert(items_view(work@) =~= splice(
                        items,
                        i as int,
                        n as int,
                        ToreModel::Expr(model),
                    ));
                },
            }
            i += 1;
        }
        Ok(work)
    }
}

} // verus!
