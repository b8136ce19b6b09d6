//! The parser: bracket grouping, the sweeps of the rules in the order of
//! their registration, and the resolution of what is left into lines.

use vstd::prelude::*;
use crate::error::ParseError;
use crate::expression::{
    lemma_lines_view, lemma_lines_view_push, lines_view, BlockType, CodeBlock, ExprModel,
    Expression, Number, Var,
};
use crate::frame::{lemma_counted_wf, FrameStack, FrameView, SlotCounter, StackView};
use crate::lexer::{lex, tokens_of, tokens_view};
use crate::pattern::{
    construct, is_token_text, items_view, match_window, splice, sweep, ExprBuilder, RuleModel,
    ToreModel, TORE,
};
use crate::token::{same_text, Token, TokenType, TokenView};

verus! {

/// The text of the bracket that opens a block of the kind.
pub open spec fn open_text(kind: BlockType) -> Seq<char> {
    match kind {
        BlockType::Curl => "{"@,
        BlockType::Brack => "("@,
    }
}

/// The text of the bracket that closes a block of the kind.
pub open spec fn close_text(kind: BlockType) -> Seq<char> {
    match kind {
        BlockType::Curl => "}"@,
        BlockType::Brack => ")"@,
    }
}

/// Scans from index `j` on with `depth` brackets open: an opening bracket
/// adds one to the depth, a closing bracket takes one away, and the closing
/// bracket that takes the last one away is the result.
pub open spec fn scan_close(
    items: Seq<ToreModel>,
    open: Seq<char>,
    close: Seq<char>,
    j: int,
    depth: nat,
) -> Option<int>
    decreases items.len() - j,
{
    if j < 0 || j >= items.len() {
        None
    } else if is_token_text(items[j], open) {
        scan_close(items, open, close, j + 1, depth + 1)
    } else if is_token_text(items[j], close) {
        if depth <= 1 {
            Some(j)
        } else {
            scan_close(items, open, close, j + 1, (depth - 1) as nat)
        }
    } else {
        scan_close(items, open, close, j + 1, depth)
    }
}

/// The index of the closing bracket that matches the opening bracket at
/// index `start`; `None` where the sequence ends before the depth is back at
/// zero.
pub open spec fn matching_close(items: Seq<ToreModel>, open: Seq<char>, close: Seq<char>, start: int) -> Option<
    int,
> {
    scan_close(items, open, close, start + 1, 1)
}

/// A closing bracket that the scan finds lies at or behind the index where
/// the scan began, and inside the sequence.
pub proof fn lemma_scan_close_range(
    items: Seq<ToreModel>,
    open: Seq<char>,
    close: Seq<char>,
    j: int,
    depth: nat,
)
    ensures
        scan_close(items, open, close, j, depth) matches Some(end) ==> j <= end < items.len()
            && is_token_text(items[end], close) && !is_token_text(items[end], open),
    decreases items.len() - j,
{
    if 0 <= j < items.len() {
        if is_token_text(items[j], open) {
            lemma_scan_close_range(items, open, close, j + 1, depth + 1);
        } else if is_token_text(items[j], close) {
            if depth > 1 {
                lemma_scan_close_range(items, open, close, j + 1, (depth - 1) as nat);
            }
        } else {
            lemma_scan_close_range(items, open, close, j + 1, depth);
        }
    }
}

/// The frame in which the interior of a block is parsed: a curly block opens
/// a layer of its own, a round one stays in the frame around it.
pub open spec fn inner_frame(kind: BlockType, frame: FrameView) -> FrameView {
    match kind {
        BlockType::Curl => frame.pushed(),
        BlockType::Brack => frame,
    }
}

/// The layers that a block keeps: a curly block keeps those that its
/// interior was parsed in.
pub open spec fn block_scope(kind: BlockType, after: FrameView) -> Option<StackView> {
    match kind {
        BlockType::Curl => Some(after.stack()),
        BlockType::Brack => None,
    }
}

/// The frame around a block after the block's interior was parsed in
/// `after`: around a curly block the layers stay, and the counter, which the
/// block shares, stands where the interior left it.
pub open spec fn outer_frame(kind: BlockType, frame: FrameView, after: FrameView) -> FrameView {
    match kind {
        BlockType::Curl => frame.counted(after.n_vars),
        BlockType::Brack => after,
    }
}

/// The sweeps of `rules` over `items`, one rule after the other in the order
/// of the sequence, each from the first item to the last.
pub open spec fn run_rules(rules: Seq<RuleModel>, items: Seq<ToreModel>, frame: FrameView) -> Result<
    (Seq<ToreModel>, FrameView),
    ParseError,
>
    decreases rules.len(),
{
    if rules.len() == 0 {
        Ok((items, frame))
    } else {
        match sweep(rules[0], items, frame, 0) {
            Err(e) => Err(e),
            Ok((swept, after)) => run_rules(rules.skip(1), swept, after),
        }
    }
}

/// Turns what is left of `items` from index `i` on into lines, and adds them
/// to `lines`: a node is a line, a separator is dropped, a bare word is
/// resolved in the frame to a variable reference, and any other token ends
/// the parse.
pub open spec fn lines_from(items: Seq<ToreModel>, i: int, lines: Seq<ExprModel>, frame: FrameView) -> Result<
    (Seq<ExprModel>, FrameView),
    ParseError,
>
    decreases items.len() - i,
{
    if i < 0 || i >= items.len() {
        Ok((lines, frame))
    } else {
        match items[i] {
            ToreModel::Expr(e) => lines_from(items, i + 1, lines.push(e), frame),
            ToreModel::Token(t) => if t.text == ";"@ {
                lines_from(items, i + 1, lines, frame)
            } else if t.kind == TokenType::Word {
                if frame.can_bind(t.text) {
                    lines_from(
                        items,
                        i + 1,
                        lines.push(ExprModel::Var { name: t.text, addr: frame.slot_for(t.text) }),
                        frame.after_get(t.text),
                    )
                } else {
                    Err(ParseError::SlotsExhausted)
                }
            } else {
                Err(ParseError::UnexpectedToken)
            },
        }
    }
}

/// Groups the brackets of one kind in `items` from index `i` on. Each
/// opening bracket is matched with its closing bracket; what lies between
/// them is parsed on its own, and the block of the lines that come out of it
/// takes the place of the span, brackets included.
pub open spec fn group(
    items: Seq<ToreModel>,
    kind: BlockType,
    rules: Seq<RuleModel>,
    frame: FrameView,
    i: int,
) -> Result<(Seq<ToreModel>, FrameView), ParseError>
    decreases items.len(), 1int, items.len() - i,
{
    if i < 0 || i >= items.len() {
        Ok((items, frame))
    } else if !is_token_text(items[i], open_text(kind)) {
        group(items, kind, rules, frame, i + 1)
    } else {
        match matching_close(items, open_text(kind), close_text(kind), i) {
            None => Err(ParseError::UnmatchedBracket),
            Some(end) => {
                proof {
                    lemma_scan_close_range(items, open_text(kind), close_text(kind), i + 1, 1);
                }
                match parse_items(items.subrange(i + 1, end), rules, inner_frame(kind, frame)) {
                    Err(e) => Err(e),
                    Ok((lines, after)) => group(
                        splice(
                            items,
                            i,
                            end + 1 - i,
                            ToreModel::Expr(
                                ExprModel::Block { kind, lines, scope: block_scope(kind, after) },
                            ),
                        ),
                        kind,
                        rules,
                        outer_frame(kind, frame, after),
                        i + 1,
                    ),
                }
            },
        }
    }
}

/// Parses a sequence of items into lines: the curly brackets are grouped,
/// then the round ones, then each rule sweeps once, and what is left is
/// resolved into lines. Grouping never makes a sequence longer (see
/// `lemma_group`), so the branch for a longer one is never taken; it stands
/// here because the definition must end.
pub open spec fn parse_items(items: Seq<ToreModel>, rules: Seq<RuleModel>, frame: FrameView) -> Result<
    (Seq<ExprModel>, FrameView),
    ParseError,
>
    decreases items.len(), 2int, 0int,
{
    match group(items, BlockType::Curl, rules, frame, 0) {
        Err(e) => Err(e),
        Ok((braced, f1)) => if braced.len() <= items.len() {
            match group(braced, BlockType::Brack, rules, f1, 0) {
                Err(e) => Err(e),
                Ok((grouped, f2)) => match run_rules(rules, grouped, f2) {
                    Err(e) => Err(e),
                    Ok((reduced, f3)) => lines_from(reduced, 0, Seq::empty(), f3),
                },
            }
        } else {
            Err(ParseError::UnmatchedBracket)
        },
    }
}

/// Where grouping succeeds from index `i` on and no opening bracket stands
/// before `i`, none is left in the result, and the result is no longer than
/// the sequence was.
pub proof fn lemma_group(
    items: Seq<ToreModel>,
    kind: BlockType,
    rules: Seq<RuleModel>,
    frame: FrameView,
    i: int,
)
    requires
        0 <= i,
        forall|k: int| 0 <= k < i && k < items.len() ==> !is_token_text(#[trigger] items[k], open_text(kind)),
    ensures
        group(items, kind, rules, frame, i) matches Ok((out, _)) ==> out.len() <= items.len()
            && forall|k: int| 0 <= k < out.len() ==> !is_token_text(#[trigger] out[k], open_text(kind)),
    decreases items.len(), items.len() - i,
{
    if i < items.len() {
        if !is_token_text(items[i], open_text(kind)) {
            lemma_group(items, kind, rules, frame, i + 1);
        } else {
            match matching_close(items, open_text(kind), close_text(kind), i) {
                None => {},
                Some(end) => {
                    lemma_scan_close_range(items, open_text(kind), close_text(kind), i + 1, 1);
                    match parse_items(items.subrange(i + 1, end), rules, inner_frame(kind, frame)) {
                        Err(e) => {},
                        Ok((lines, after)) => {
                            let block = ToreModel::Expr(
                                ExprModel::Block { kind, lines, scope: block_scope(kind, after) },
                            );
                            let next = splice(items, i, end + 1 - i, block);
                            assert forall|k: int| 0 <= k < i + 1 && k < next.len() implies !is_token_text(
                                #[trigger] next[k],
                                open_text(kind),
                            ) by {
                                if k < i {
                                    assert(next[k] == items[k]);
                                }
                            }
                            lemma_group(next, kind, rules, outer_frame(kind, frame, after), i + 1);
                        },
                    }
                },
            }
        }
    }
}

/// A scan that begins with fewer brackets open ends no later.
pub proof fn lemma_scan_lower_depth(
    items: Seq<ToreModel>,
    open: Seq<char>,
    close: Seq<char>,
    j: int,
    deep: nat,
    shallow: nat,
)
    requires
        shallow <= deep,
        scan_close(items, open, close, j, deep) is Some,
    ensures
        scan_close(items, open, close, j, shallow) is Some,
    decreases items.len() - j,
{
    if 0 <= j < items.len() {
        if is_token_text(items[j], open) {
            lemma_scan_lower_depth(items, open, close, j + 1, deep + 1, shallow + 1);
        } else if is_token_text(items[j], close) {
            if shallow > 1 {
                lemma_scan_lower_depth(
                    items,
                    open,
                    close,
                    j + 1,
                    (deep - 1) as nat,
                    (shallow - 1) as nat,
                );
            }
        } else {
            lemma_scan_lower_depth(items, open, close, j + 1, deep, shallow);
        }
    }
}

/// Brackets nest: an opening bracket that stands inside a matched span has
/// a matching closing bracket itself.
pub proof fn lemma_scan_nests(
    items: Seq<ToreModel>,
    open: Seq<char>,
    close: Seq<char>,
    j: int,
    depth: nat,
    at: int,
)
    requires
        0 <= j <= at,
        scan_close(items, open, close, j, depth) matches Some(end) && at < end,
        is_token_text(items[at], open),
    ensures
        matching_close(items, open, close, at) is Some,
    decreases at - j,
{
    lemma_scan_close_range(items, open, close, j, depth);
    if j == at {
        lemma_scan_lower_depth(items, open, close, at + 1, depth + 1, 1);
    } else if is_token_text(items[j], open) {
        lemma_scan_nests(items, open, close, j + 1, depth + 1, at);
    } else if is_token_text(items[j], close) {
        lemma_scan_nests(items, open, close, j + 1, (depth - 1) as nat, at);
    } else {
        lemma_scan_nests(items, open, close, j + 1, depth, at);
    }
}

/// A scan that finds no closing bracket finds none either when a span in
/// front of where it begins is replaced by one item.
pub proof fn lemma_scan_behind_splice(
    items: Seq<ToreModel>,
    open: Seq<char>,
    close: Seq<char>,
    from: int,
    n: int,
    by: ToreModel,
    j: int,
    depth: nat,
)
    requires
        0 <= from,
        1 <= n,
        from + n <= j,
        from + n <= items.len(),
        scan_close(items, open, close, j, depth) is None,
    ensures
        scan_close(splice(items, from, n, by), open, close, j - n + 1, depth) is None,
    decreases items.len() - j,
{
    let next = splice(items, from, n, by);
    assert(next.len() == items.len() - n + 1);
    if j < items.len() {
        assert(next[j - n + 1] == items[j]);
        if is_token_text(items[j], open) {
            lemma_scan_behind_splice(items, open, close, from, n, by, j + 1, depth + 1);
        } else if is_token_text(items[j], close) {
            lemma_scan_behind_splice(
                items,
                open,
                close,
                from,
                n,
                by,
                j + 1,
                (depth - 1) as nat,
            );
        } else {
            lemma_scan_behind_splice(items, open, close, from, n, by, j + 1, depth);
        }
    }
}

/// An opening bracket without a matching closing bracket ends the grouping,
/// wherever it stands: the grouping from index `i` on fails, with the
/// unmatched-bracket condition or with the condition that ended the parse of
/// a block in front of the bracket.
pub proof fn lemma_unmatched_bracket(
    items: Seq<ToreModel>,
    kind: BlockType,
    rules: Seq<RuleModel>,
    frame: FrameView,
    i: int,
    at: int,
)
    requires
        0 <= i <= at < items.len(),
        is_token_text(items[at], open_text(kind)),
        matching_close(items, open_text(kind), close_text(kind), at) is None,
    ensures
        group(items, kind, rules, frame, i) is Err,
    decreases items.len(), items.len() - i,
{
    let open = open_text(kind);
    let close = close_text(kind);
    if i < at {
        if !is_token_text(items[i], open) {
            lemma_unmatched_bracket(items, kind, rules, frame, i + 1, at);
        } else {
            match matching_close(items, open, close, i) {
                None => {},
                Some(end) => {
                    lemma_scan_close_range(items, open, close, i + 1, 1);
                    if at < end {
                        lemma_scan_nests(items, open, close, i + 1, 1, at);
                    }
                    match parse_items(items.subrange(i + 1, end), rules, inner_frame(kind, frame)) {
                        Err(e) => {},
                        Ok((lines, after)) => {
                            let block = ToreModel::Expr(
                                ExprModel::Block { kind, lines, scope: block_scope(kind, after) },
                            );
                            let n = end + 1 - i;
                            let next = splice(items, i, n, block);
                            assert(next[at - n + 1] == items[at]);
                            lemma_scan_behind_splice(items, open, close, i, n, block, at + 1, 1);
                            lemma_unmatched_bracket(
                                next,
                                kind,
                                rules,
                                outer_frame(kind, frame, after),
                                i + 1,
                                at - n + 1,
                            );
                        },
                    }
                },
            }
        }
    }
}

/// An opening bracket without a matching closing bracket never gets
/// through: no grouping of a sequence that holds one succeeds, and no parse
/// of a sequence that holds an unmatched curly one. Where the bracket is the
/// first opening bracket of the sequence, the grouping ends with the
/// unmatched-bracket condition.
pub proof fn law_unmatched_bracket_ends_grouping(
    items: Seq<ToreModel>,
    kind: BlockType,
    rules: Seq<RuleModel>,
    frame: FrameView,
    at: int,
)
    requires
        0 <= at < items.len(),
        is_token_text(items[at], open_text(kind)),
        matching_close(items, open_text(kind), close_text(kind), at) is None,
    ensures
        group(items, kind, rules, frame, 0) is Err,
        (forall|k: int| 0 <= k < at ==> !is_token_text(#[trigger] items[k], open_text(kind))) ==> group(
            items,
            kind,
            rules,
            frame,
            0,
        ) == Err::<(Seq<ToreModel>, FrameView), ParseError>(ParseError::UnmatchedBracket),
        kind == BlockType::Curl ==> parse_items(items, rules, frame) is Err,
{
    lemma_unmatched_bracket(items, kind, rules, frame, 0, at);
    if forall|k: int| 0 <= k < at ==> !is_token_text(#[trigger] items[k], open_text(kind)) {
        lemma_first_unmatched_bracket(items, kind, rules, frame, 0, at);
    }
}

/// Where no opening bracket stands in front of an unmatched one, the
/// grouping ends with the unmatched-bracket condition.
pub proof fn lemma_first_unmatched_bracket(
    items: Seq<ToreModel>,
    kind: BlockType,
    rules: Seq<RuleModel>,
    frame: FrameView,
    i: int,
    at: int,
)
    requires
        0 <= i <= at < items.len(),
        is_token_text(items[at], open_text(kind)),
        matching_close(items, open_text(kind), close_text(kind), at) is None,
        forall|k: int| 0 <= k < at ==> !is_token_text(#[trigger] items[k], open_text(kind)),
    ensures
        group(items, kind, rules, frame, i) == Err::<(Seq<ToreModel>, FrameView), ParseError>(
            ParseError::UnmatchedBracket,
        ),
    decreases at - i,
{
    if i < at {
        lemma_first_unmatched_bracket(items, kind, rules, frame, i + 1, at);
    }
}

/// Grouping a sequence that holds no opening bracket changes nothing.
pub proof fn lemma_group_without_brackets(
    items: Seq<ToreModel>,
    kind: BlockType,
    rules: Seq<RuleModel>,
    frame: FrameView,
    i: int,
)
    requires
        forall|k: int| 0 <= k < items.len() ==> !is_token_text(#[trigger] items[k], open_text(kind)),
    ensures
        group(items, kind, rules, frame, i) == Ok::<(Seq<ToreModel>, FrameView), ParseError>(
            (items, frame),
        ),
    decreases items.len() - i,
{
    if 0 <= i < items.len() {
        lemma_group_without_brackets(items, kind, rules, frame, i + 1);
    }
}

/// Grouping is idempotent: what comes out of it holds no opening bracket of
/// the kind any more, and grouping it again, in whatever frame, returns it
/// as it is and leaves the frame as it is.
pub proof fn law_grouping_is_idempotent(
    items: Seq<ToreModel>,
    kind: BlockType,
    rules: Seq<RuleModel>,
    frame: FrameView,
    again: FrameView,
)
    requires
        group(items, kind, rules, frame, 0) is Ok,
    ensures
        ({
            let out = group(items, kind, rules, frame, 0)->Ok_0.0;
            &&& forall|k: int| 0 <= k < out.len() ==> !is_token_text(#[trigger] out[k], open_text(kind))
            &&& group(out, kind, rules, again, 0) == Ok::<(Seq<ToreModel>, FrameView), ParseError>(
                (out, again),
            )
        }),
{
    lemma_group(items, kind, rules, frame, 0);
    let out = group(items, kind, rules, frame, 0)->Ok_0.0;
    lemma_group_without_brackets(out, kind, rules, again, 0);
}

/// The rule that was registered first rewrites first: the second of two
/// rules sees nothing but what the whole sweep of the first has left, and
/// does nothing where that sweep fails. So where the first rule matches the
/// window at the head of the sequence and builds a node from it, that node
/// stands in the window's place before the second rule is tried at all,
/// whether the second rule would have matched there or not.
pub proof fn law_first_rule_rewrites_first(
    first: RuleModel,
    second: RuleModel,
    items: Seq<ToreModel>,
    frame: FrameView,
)
    ensures
        run_rules(seq![first, second], items, frame) == match sweep(first, items, frame, 0) {
            Err(e) => Err(e),
            Ok((swept, f)) => sweep(second, swept, f, 0),
        },
        first.patterns.len() > 0 && first.patterns.len() <= items.len() ==> match match_window(
            first.patterns,
            items,
            0,
        ) {
            None => true,
            Some(caps) => match construct(first.constr, caps, frame) {
                Err(e) => run_rules(seq![first, second], items, frame) == Err::<
                    (Seq<ToreModel>, FrameView),
                    ParseError,
                >(e),
                Ok((node, after)) => run_rules(seq![first, second], items, frame) == match sweep(
                    first,
                    splice(items, 0, first.patterns.len() as int, ToreModel::Expr(node)),
                    after,
                    1,
                ) {
                    Err(e) => Err(e),
                    Ok((swept, f)) => sweep(second, swept, f, 0),
                },
            },
        },
{
    let rules = seq![first, second];
    assert(rules.skip(1) =~= seq![second]);
    assert(rules.skip(1).skip(1) =~= Seq::<RuleModel>::empty());
    assert(rules[0] == first);
    assert(rules.skip(1)[0] == second);
    match sweep(first, items, frame, 0) {
        Err(e) => {},
        Ok((swept, f)) => {
            assert(run_rules(rules.skip(1), swept, f) == match sweep(second, swept, f, 0) {
                Err(e) => Err(e),
                Ok((s2, f2)) => run_rules(rules.skip(1).skip(1), s2, f2),
            });
        },
    }
}

/// The rules that a sequence of builders stands for.
pub open spec fn rules_view(builders: Seq<ExprBuilder>) -> Seq<RuleModel> {
    builders.map_values(|b: ExprBuilder| b@)
}

/// The brackets of a kind, the opening one first.
pub fn bracket_pair(kind: BlockType) -> (r: (&'static str, &'static str))
    ensures
        r.0@ == open_text(kind),
        r.1@ == close_text(kind),
{
    match kind {
        BlockType::Curl => ("{", "}"),
        BlockType::Brack => ("(", ")"),
    }
}

/// Whether an item is a raw token with the text `text`.
pub fn has_text<'a>(item: &TORE<'a>, text: &str) -> (r: bool)
    ensures
        r == is_token_text(item@, text@),
{
    match item {
        TORE::Token(t) => same_text(t.slice, text),
        TORE::Expr(_) => false,
    }
}

/// The index of the closing bracket that matches the opening bracket at
/// `brack_start`, by a scan that counts the depth; `None` where the
/// sequence ends before the depth is back at zero. `pair` holds the
/// opening and the closing bracket.
pub fn find_matching_bracket<'a>(
    tokens_or_expr: &Vec<TORE<'a>>,
    pair: (&str, &str),
    brack_start: usize,
) -> (r: Option<usize>)
    requires
        brack_start < tokens_or_expr@.len(),
        is_token_text(tokens_or_expr@[brack_start as int]@, pair.0@),
    ensures
        match matching_close(items_view(tokens_or_expr@), pair.0@, pair.1@, brack_start as int) {
            Some(end) => r == Some(end as usize) && brack_start < end < tokens_or_expr@.len(),
            None => r is None,
        },
{
    let ghost items = items_view(tokens_or_expr@);
    let total = tokens_or_expr.len();
    let mut depth: usize = 1;
    let mut j: usize = brack_start + 1;
    while j < total
        invariant
            brack_start < j <= total,
            total == tokens_or_expr@.len(),
            items == items_view(tokens_or_expr@),
            1 <= depth <= j - brack_start,
            matching_close(items, pair.0@, pair.1@, brack_start as int) == scan_close(
                items,
                pair.0@,
                pair.1@,
                j as int,
                depth as nat,
            ),
        decreases total - j,
    {
        assert(items[j as int] == tokens_or_expr@[j as int]@);
        if has_text(&tokens_or_expr[j], pair.0) {
            depth += 1;
        } else if has_text(&tokens_or_expr[j], pair.1) {
            if depth <= 1 {
                return Some(j);
            }
            depth -= 1;
        }
        j += 1;
    }
    None
}

/// Replaces each number token by a number literal node.
pub open spec fn nums_view(items: Seq<ToreModel>) -> Seq<ToreModel> {
    items.map_values(
        |item: ToreModel|
            match item {
                ToreModel::Token(t) => if t.kind == TokenType::Number {
                    ToreModel::Expr(ExprModel::Number { text: t.text })
                } else {
                    item
                },
                ToreModel::Expr(_) => item,
            },
    )
}

/// Replaces each number token by a number literal node, and leaves every
/// other item as it is.
pub fn parse_nums<'a>(tokens: Vec<TORE<'a>>) -> (r: Vec<TORE<'a>>)
    ensures
        items_view(r@) == nums_view(items_view(tokens@)),
{
    let mut out: Vec<TORE<'a>> = Vec::new();
    let mut i: usize = 0;
    while i < tokens.len()
        invariant
            i <= tokens.len(),
            out@.len() == i,
            forall|k: int| 0 <= k < i ==> (#[trigger] out@[k])@ == nums_view(items_view(tokens@))[k],
        decreases tokens.len() - i,
    {
        let item = match &tokens[i] {
            TORE::Token(t) => {
                if t.token_type == TokenType::Number {
                    TORE::Expr(Number::new(t.slice.to_owned()).into_expr())
                } else {
                    TORE::Token(Token::new(t.token_type, t.slice))
                }
            },
            TORE::Expr(e) => TORE::Expr(e.clone()),
        };
        out.push(item);
        i += 1;
    }
    assert(items_view(out@) =~= nums_view(items_view(tokens@)));
    out
}

/// Turns what the sweeps left into lines: a node is a line, a `;` is
/// dropped, a bare word is resolved in `frame`, and any other token ends the
/// parse.
pub fn resolve_lines<'a>(items: Vec<TORE<'a>>, frame: &mut FrameStack, counter: &mut SlotCounter) -> (r: Result<
    Vec<Expression>,
    ParseError,
>)
    ensures
        match lines_from(items_view(items@), 0, Seq::empty(), old(frame)@.at(old(counter)@)) {
            Ok((lines, f)) => r is Ok && lines_view(r->Ok_0@) == lines && final(frame)@.at(final(counter)@) == f,
            Err(e) => r is Err && r->Err_0 == e,
        },
        final(counter)@ >= old(counter)@,
        r is Ok && old(frame)@.at(old(counter)@).wf() ==> final(frame)@.at(final(counter)@).wf(),
{
    let ghost model = items_view(items@);
    let mut lines: Vec<Expression> = Vec::new();
    let mut i: usize = 0;
    proof {
        lemma_lines_view(lines@);
        assert(lines_view(lines@) =~= Seq::<ExprModel>::empty());
    }
    while i < items.len()
        invariant
            i <= items.len(),
            counter@ >= old(counter)@,
            old(frame)@.at(old(counter)@).wf() ==> frame@.at(counter@).wf(),
            model == items_view(items@),
            lines_from(model, 0, Seq::empty(), old(frame)@.at(old(counter)@)) == lines_from(
                model,
                i as int,
                lines_view(lines@),
                frame@.at(counter@),
            ),
        decreases items.len() - i,
    {
        assert(model[i as int] == items@[i as int]@);
        match &items[i] {
            TORE::Expr(e) => {
                let line = e.clone();
                proof {
                    lemma_lines_view_push(lines@, line);
                }
                lines.push(line);
            },
            TORE::Token(t) => {
                if same_text(t.slice, ";") {
                } else if t.token_type == TokenType::Word {
                    if !frame.can_bind(t.slice, counter) {
                        return Err(ParseError::SlotsExhausted);
                    }
                    let addr = frame.get_addr(t.slice, counter);
                    let line = Var::new(t.slice.to_owned(), addr).into_expr();
                    proof {
                        lemma_lines_view_push(lines@, line);
                    }
                    lines.push(line);
                } else {
                    return Err(ParseError::UnexpectedToken);
                }
            },
        }
        i += 1;
    }
    Ok(lines)
}

/// Groups the brackets of one kind, from left to right. The interior of a
/// curly block is parsed in a frame of its own, pushed from `frame`; the
/// interior of a round block is parsed in `frame` itself.
pub fn parse_group<'a>(
    tokens: Vec<TORE<'a>>,
    kind: BlockType,
    builders: &Vec<ExprBuilder>,
    frame: &mut FrameStack,
    counter: &mut SlotCounter,
) -> (r: Result<Vec<TORE<'a>>, ParseError>)
    ensures
        match group(items_view(tokens@), kind, rules_view(builders@), old(frame)@.at(old(counter)@), 0) {
            Ok((items, f)) => r is Ok && items_view(r->Ok_0@) == items && final(frame)@.at(final(counter)@) == f,
            Err(e) => r is Err && r->Err_0 == e,
        },
        final(counter)@ >= old(counter)@,
        r is Ok && old(frame)@.at(old(counter)@).wf() ==> final(frame)@.at(final(counter)@).wf(),
        r is Ok ==> r->Ok_0@.len() <= tokens@.len(),
    decreases tokens@.len(), 0int,
{
    let ghost rules = rules_view(builders@);
    let ghost start_items = items_view(tokens@);
    let pair = bracket_pair(kind);
    let mut work = tokens;
    let mut i: usize = 0;
    while i < work.len()
        invariant
            counter@ >= old(counter)@,
            old(frame)@.at(old(counter)@).wf() ==> frame@.at(counter@).wf(),
            rules == rules_view(builders@),
            start_items == items_view(tokens@),
            pair.0@ == open_text(kind),
            pair.1@ == close_text(kind),
            work@.len() <= tokens@.len(),
            group(start_items, kind, rules, old(frame)@.at(old(counter)@), 0) == group(
                items_view(work@),
                kind,
                rules,
                frame@.at(counter@),
                i as int,
            ),
        decreases work@.len() - i,
    {
        let ghost before = work@;
        let ghost items = items_view(work@);
        assert(items[i as int] == work@[i as int]@);
        if has_text(&work[i], pair.0) {
            let end = match find_matching_bracket(&work, pair, i) {
                Some(end) => end,
                None => {
                    return Err(ParseError::UnmatchedBracket);
                },
            };
            work.remove(i);
            let mut interior: Vec<TORE<'a>> = Vec::new();
            let mut k: usize = i + 1;
            assert(work@ =~= before.take(i as int) + before.skip(i + 1));
            assert(interior@ =~= before.subrange(i + 1, i + 1));
            while k < end
                invariant
                    i < k <= end < before.len(),
                    work@ == before.take(i as int) + before.skip(k as int),
                    interior@ == before.subrange(i + 1, k as int),
                decreases end - k,
            {
                let item = work.remove(i);
                interior.push(item);
                assert(work@ =~= before.take(i as int) + before.skip(k + 1));
                assert(interior@ =~= before.subrange(i + 1, k + 1));
                k += 1;
            }
            work.remove(i);
            assert(work@ =~= before.take(i as int) + before.skip(end + 1));
            assert(items_view(interior@) =~= items.subrange(i + 1, end as int));
            let block = match kind {
                BlockType::Curl => {
                    let ghost entered = counter@;
                    let mut inner = frame.push();
                    let lines = match parse_tokens(interior, builders, &mut inner, counter) {
                        Ok(lines) => lines,
                        Err(e) => {
                            return Err(e);
                        },
                    };
                    proof {
                        if frame@.at(entered).wf() {
                            lemma_counted_wf(frame@.at(entered), counter@);
                        }
                    }
                    CodeBlock::new(lines, kind, Some(inner))
                },
                BlockType::Brack => {
                    let lines = match parse_tokens(interior, builders, frame, counter) {
                        Ok(lines) => lines,
                        Err(e) => {
                            return Err(e);
                        },
                    };
                    CodeBlock::new(lines, kind, None)
                },
            };
            let node = block.into_expr();
            let ghost model = node@;
            work.insert(i, TORE::Expr(node));
            assert(items_view(work@) =~= splice(
                items,
                i as int,
                end + 1 - i,
                ToreModel::Expr(model),
            ));
        }
        i += 1;
    }
    Ok(work)
}

/// Groups the curly brackets.
pub fn parse_braces<'a>(
    tokens_or_expr: Vec<TORE<'a>>,
    builders: &Vec<ExprBuilder>,
    frame: &mut FrameStack,
    counter: &mut SlotCounter,
) -> (r: Result<Vec<TORE<'a>>, ParseError>)
    ensures
        match group(
            items_view(tokens_or_expr@),
            BlockType::Curl,
            rules_view(builders@),
            old(frame)@.at(old(counter)@),
            0,
        ) {
            Ok((items, f)) => r is Ok && items_view(r->Ok_0@) == items && final(frame)@.at(final(counter)@) == f,
            Err(e) => r is Err && r->Err_0 == e,
        },
        final(counter)@ >= old(counter)@,
        r is Ok && old(frame)@.at(old(counter)@).wf() ==> final(frame)@.at(final(counter)@).wf(),
        r is Ok ==> r->Ok_0@.len() <= tokens_or_expr@.len(),
    decreases tokens_or_expr@.len(), 1int,
{
    parse_group(tokens_or_expr, BlockType::Curl, builders, frame, counter)
}

/// Groups the round brackets.
pub fn parse_brackets<'a>(
    tokens_or_expr: Vec<TORE<'a>>,
    builders: &Vec<ExprBuilder>,
    frame: &mut FrameStack,
    counter: &mut SlotCounter,
) -> (r: Result<Vec<TORE<'a>>, ParseError>)
    ensures
        match group(
            items_view(tokens_or_expr@),
            BlockType::Brack,
            rules_view(builders@),
            old(frame)@.at(old(counter)@),
            0,
        ) {
            Ok((items, f)) => r is Ok && items_view(r->Ok_0@) == items && final(frame)@.at(final(counter)@) == f,
            Err(e) => r is Err && r->Err_0 == e,
        },
        final(counter)@ >= old(counter)@,
        r is Ok && old(frame)@.at(old(counter)@).wf() ==> final(frame)@.at(final(counter)@).wf(),
        r is Ok ==> r->Ok_0@.len() <= tokens_or_expr@.len(),
    decreases tokens_or_expr@.len(), 1int,
{
    parse_group(tokens_or_expr, BlockType::Brack, builders, frame, counter)
}

/// Sweeps each rule once over `tokens`, in the order of registration.
pub fn apply_builders<'a>(
    tokens: Vec<TORE<'a>>,
    builders: &Vec<ExprBuilder>,
    frame: &mut FrameStack,
    counter: &mut SlotCounter,
) -> (r: Result<Vec<TORE<'a>>, ParseError>)
    ensures
        match run_rules(rules_view(builders@), items_view(tokens@), old(frame)@.at(old(counter)@)) {
            Ok((items, f)) => r is Ok && items_view(r->Ok_0@) == items && final(frame)@.at(final(counter)@) == f,
            Err(e) => r is Err && r->Err_0 == e,
        },
        final(counter)@ >= old(counter)@,
        r is Ok && old(frame)@.at(old(counter)@).wf() ==> final(frame)@.at(final(counter)@).wf(),
{
    let ghost rules = rules_view(builders@);
    let mut work = tokens;
    let mut k: usize = 0;
    assert(rules.skip(0) =~= rules);
    while k < builders.len()
        invariant
            k <= builders.len(),
            counter@ >= old(counter)@,
            old(frame)@.at(old(counter)@).wf() ==> frame@.at(counter@).wf(),
            rules == rules_view(builders@),
            run_rules(rules, items_view(tokens@), old(frame)@.at(old(counter)@)) == run_rules(
                rules.skip(k as int),
                items_view(work@),
                frame@.at(counter@),
            ),
        decreases builders.len() - k,
    {
        assert(rules.skip(k as int)[0] == builders@[k as int]@);
        assert(rules.skip(k as int).skip(1) =~= rules.skip(k + 1));
        work = match builders[k].parse_occurences(work, frame, counter) {
            Ok(swept) => swept,
            Err(e) => {
                return Err(e);
            },
        };
        k += 1;
    }
    Ok(work)
}

/// Parses a sequence of items into the lines of a block.
pub fn parse_tokens<'a>(
    tokens: Vec<TORE<'a>>,
    builders: &Vec<ExprBuilder>,
    frame: &mut FrameStack,
    counter: &mut SlotCounter,
) -> (r: Result<Vec<Expression>, ParseError>)
    ensures
        match parse_items(items_view(tokens@), rules_view(builders@), old(frame)@.at(old(counter)@)) {
            Ok((lines, f)) => r is Ok && lines_view(r->Ok_0@) == lines && final(frame)@.at(final(counter)@) == f,
            Err(e) => r is Err && r->Err_0 == e,
        },
        final(counter)@ >= old(counter)@,
        r is Ok && old(frame)@.at(old(counter)@).wf() ==> final(frame)@.at(final(counter)@).wf(),
    decreases tokens@.len(), 2int,
{
    let braced = match parse_braces(tokens, builders, frame, counter) {
        Ok(braced) => braced,
        Err(e) => {
            return Err(e);
        },
    };
    let grouped = match parse_brackets(braced, builders, frame, counter) {
        Ok(grouped) => grouped,
        Err(e) => {
            return Err(e);
        },
    };
    let reduced = match apply_builders(grouped, builders, frame, counter) {
        Ok(reduced) => reduced,
        Err(e) => {
            return Err(e);
        },
    };
    resolve_lines(reduced, frame, counter)
}

/// The items that a sequence of tokens begins a parse as.
pub open spec fn token_items(tokens: Seq<TokenView>) -> Seq<ToreModel> {
    tokens.map_values(|t: TokenView| ToreModel::Token(t))
}

/// The parse of a source text under `rules`: the root block, which holds the
/// lines of the program and the layers of the root frame, and the state of
/// the root scope at the end; or the condition that ended the parse.
pub open spec fn parse_text(code: Seq<char>, rules: Seq<RuleModel>) -> Result<
    (ExprModel, FrameView),
    ParseError,
> {
    match parse_items(nums_view(token_items(tokens_of(code))), rules, FrameView::empty()) {
        Ok((lines, f)) => Ok(
            (ExprModel::Block { kind: BlockType::Curl, lines, scope: Some(f.stack()) }, f),
        ),
        Err(e) => Err(e),
    }
}

/// Parses a source text with the rules `builders`, tried in the order of
/// the list. The result holds the root block, the root frame, and the slot
/// counter that every frame of the program drew from.
pub fn parse(code: String, builders: &Vec<ExprBuilder>) -> (r: Result<
    (Expression, FrameStack, SlotCounter),
    ParseError,
>)
    ensures
        match parse_text(code@, rules_view(builders@)) {
            Ok((root, f)) => r is Ok && r->Ok_0.0@ == root && r->Ok_0.1@.at(r->Ok_0.2@) == f,
            Err(e) => r is Err && r->Err_0 == e,
        },
        r is Ok ==> r->Ok_0.1@.at(r->Ok_0.2@).wf(),
{
    let tokens = lex(code.as_str());
    let mut items: Vec<TORE> = Vec::new();
    let mut i: usize = 0;
    while i < tokens.len()
        invariant
            i <= tokens.len(),
            items@.len() == i,
            forall|k: int| 0 <= k < i ==> (#[trigger] items@[k])@ == ToreModel::Token(tokens@[k]@),
        decreases tokens.len() - i,
    {
        items.push(TORE::Token(Token::new(tokens[i].token_type, tokens[i].slice)));
        i += 1;
    }
    assert(items_view(items@) =~= token_items(tokens_view(tokens@)));
    let items = parse_nums(items);
    let mut frame = FrameStack::new();
    let mut counter = SlotCounter::new();
    match parse_tokens(items, builders, &mut frame, &mut counter) {
        Ok(lines) => {
            let scope = frame.clone();
            let root = CodeBlock::new(lines, BlockType::Curl, Some(scope));
            Ok((root.into_expr(), frame, counter))
        },
        Err(e) => Err(e),
    }
}

} // verus!
