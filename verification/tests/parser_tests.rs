use mips_compiler::error::ParseError;
use mips_compiler::expression::{
    BlockType, CodeBlock, Expression, FuncDecl, FunctionCall, IfBlock, Number, TwoSideOp, VarDecl,
    WhileBlock,
};
use mips_compiler::frame::{FrameStack, SlotCounter};
use mips_compiler::function::PrintFn;
use mips_compiler::lexer::lex;
use mips_compiler::mips::{load_arg, load_var, pop, push_value, save_t0, save_var, syscall};
use mips_compiler::parser::{
    apply_builders, find_matching_bracket, parse, parse_braces, parse_brackets, parse_nums,
    parse_tokens, resolve_lines,
};
use mips_compiler::pattern::{
    BlockPatt, ExprBuilder, ExprConstr, ExprPattern, Pattern, SimplePattern, TextPatt,
    TextPattVar, TORE,
};
use mips_compiler::token::{Token, TokenType};

fn builders() -> Vec<ExprBuilder> {
    vec![
        TwoSideOp::get_builder("*", "mult $t0, $t1\nmflo $t0"),
        TwoSideOp::get_builder("+", "add $t0, $t0, $t1"),
        TwoSideOp::get_builder("<", "slt $t0, $t1, $t0"),
        VarDecl::get_builder(),
        IfBlock::get_builder(),
        WhileBlock::get_builder(),
        FunctionCall::get_builder(&PrintFn),
        FuncDecl::get_builder(),
        FunctionCall::get_builder_var(),
    ]
}

fn items(text: &str) -> Vec<TORE<'_>> {
    parse_nums(lex(text).into_iter().map(TORE::Token).collect())
}

fn names(lines: &Vec<Expression>) -> Vec<String> {
    lines.iter().map(|line| line.get_name()).collect()
}

fn root_lines(text: &str, rules: &Vec<ExprBuilder>) -> Vec<String> {
    let (root, _, _) = parse(text.to_string(), rules).unwrap();
    names(root.as_block().unwrap().lines())
}

fn is_raw(item: &TORE<'_>, text: &str) -> bool {
    matches!(item, TORE::Token(t) if t.slice == text)
}

#[test]
fn loop_program_has_two_lines() {
    let text = "i sei 0;while(i<10){i sei i+1;print(i)}".to_string();
    let (root, _, _) = parse(text, &builders()).unwrap();
    let block = root.as_block().unwrap();
    assert_eq!(block.block_type(), BlockType::Curl);
    assert_eq!(block.lines().len(), 2);
    assert!(matches!(block.lines()[0], Expression::VarDecl(_)));
    assert!(matches!(block.lines()[1], Expression::While(_)));
    assert_eq!(names(block.lines()), vec!["var decl", "while"]);
}

#[test]
fn unmatched_curly_bracket_ends_the_parse() {
    let result = parse("x sei 1;if(x){x sei 2".to_string(), &builders());
    assert_eq!(result.err(), Some(ParseError::UnmatchedBracket));
    let result = parse("{".to_string(), &builders());
    assert_eq!(result.err(), Some(ParseError::UnmatchedBracket));
    let result = parse("{{}".to_string(), &builders());
    assert_eq!(result.err(), Some(ParseError::UnmatchedBracket));
}

#[test]
fn unmatched_bracket_behind_other_blocks_ends_the_parse() {
    let result = parse("{a}{b;{c}}x{d".to_string(), &builders());
    assert_eq!(result.err(), Some(ParseError::UnmatchedBracket));
    let mut frame = FrameStack::new();
    let mut counter = SlotCounter::new();
    let result = parse_braces(items("(a){b}{"), &builders(), &mut frame, &mut counter);
    assert_eq!(result.err(), Some(ParseError::UnmatchedBracket));
    let mut frame = FrameStack::new();
    let mut counter = SlotCounter::new();
    let result = parse_braces(items("{+}{"), &builders(), &mut frame, &mut counter);
    assert_eq!(result.err(), Some(ParseError::UnexpectedToken));
}

#[test]
fn unmatched_round_bracket_ends_the_parse() {
    let result = parse("print(1".to_string(), &builders());
    assert_eq!(result.err(), Some(ParseError::UnmatchedBracket));
}

#[test]
fn leftover_symbol_ends_the_parse() {
    let result = parse("+".to_string(), &builders());
    assert_eq!(result.err(), Some(ParseError::UnexpectedToken));
    let result = parse("a}".to_string(), &builders());
    assert_eq!(result.err(), Some(ParseError::UnexpectedToken));
}

#[test]
fn constructor_that_does_not_fit_ends_the_parse() {
    let rule = ExprBuilder::new(vec![Pattern::Expr(ExprPattern)], ExprConstr::If);
    let result = parse("a".to_string(), &vec![rule]);
    assert_eq!(result.err(), Some(ParseError::RuleMismatch));
    let rule = ExprBuilder::new(vec![Pattern::Expr(ExprPattern)], ExprConstr::Call {
        name: "f".to_string(),
        call_mips: "jal f\n".to_string(),
    });
    let result = parse("a".to_string(), &vec![rule]);
    assert_eq!(result.err(), Some(ParseError::RuleMismatch));
}

#[test]
fn function_body_without_a_frame_ends_the_parse() {
    let rule = ExprBuilder::new(
        vec![
            Pattern::Text(TextPatt("def".to_string())),
            Pattern::Name(TextPattVar),
            Pattern::Block(BlockPatt(BlockType::Brack)),
            Pattern::Block(BlockPatt(BlockType::Brack)),
        ],
        ExprConstr::FuncDecl,
    );
    let result = parse("def f(a)(b)".to_string(), &vec![rule]);
    assert_eq!(result.err(), Some(ParseError::RuleMismatch));
}

#[test]
fn new_name_in_a_full_frame_ends_the_parse() {
    let mut frame = FrameStack::new();
    let mut counter = SlotCounter::new();
    counter.skip_to(usize::MAX);
    let result = resolve_lines(items("y"), &mut frame, &mut counter);
    assert_eq!(result.err(), Some(ParseError::SlotsExhausted));
    let mut frame = FrameStack::new();
    let mut counter = SlotCounter::new();
    counter.skip_to(usize::MAX);
    let result = parse_tokens(items("y sei 1"), &builders(), &mut frame, &mut counter);
    assert_eq!(result.err(), Some(ParseError::SlotsExhausted));
}

#[test]
fn error_messages() {
    assert_eq!(ParseError::UnmatchedBracket.message(), "unmatched opening bracket");
    assert_eq!(ParseError::UnexpectedToken.message(), "unexpected token");
    assert_eq!(ParseError::RuleMismatch.message(), "rule and constructor do not fit");
    assert_eq!(ParseError::SlotsExhausted.message(), "no storage slot left");
}

#[test]
fn empty_text_parses_to_an_empty_block() {
    let (root, frame, counter) = parse(String::new(), &builders()).unwrap();
    assert_eq!(root.as_block().unwrap().lines().len(), 0);
    assert_eq!(counter.count(), 0);
    assert_eq!(root.gen_mips(), "");
}

#[test]
fn separators_are_dropped() {
    assert_eq!(root_lines("1;;2;", &builders()), vec!["number", "number"]);
}

#[test]
fn numbers_become_nodes() {
    let converted = items("a 1 +");
    assert!(matches!(converted[0], TORE::Token(_)));
    assert!(matches!(converted[1], TORE::Expr(Expression::Number(_))));
    assert!(matches!(converted[2], TORE::Token(_)));
}

#[test]
fn matching_bracket_counts_the_depth() {
    let sequence = items("a(b(c)d)e)");
    assert_eq!(find_matching_bracket(&sequence, ("(", ")"), 1), Some(7));
    assert_eq!(find_matching_bracket(&sequence, ("(", ")"), 3), Some(5));
    let sequence = items("((a)");
    assert_eq!(find_matching_bracket(&sequence, ("(", ")"), 0), None);
    assert_eq!(find_matching_bracket(&sequence, ("(", ")"), 1), Some(3));
}

#[test]
fn grouping_twice_changes_nothing() {
    let rules = builders();
    let mut frame = FrameStack::new();
    let mut counter = SlotCounter::new();
    let once = parse_braces(items("a{b;{c}}(d){e}"), &rules, &mut frame, &mut counter).unwrap();
    assert!(once.iter().all(|item| !is_raw(item, "{")));
    assert_eq!(once.len(), 6);
    let slots = counter.count();
    let before = format!("{:?}", once);
    let twice = parse_braces(once, &rules, &mut frame, &mut counter).unwrap();
    assert_eq!(format!("{:?}", twice), before);
    assert_eq!(counter.count(), slots);
    let round = parse_brackets(twice, &rules, &mut frame, &mut counter).unwrap();
    assert!(round.iter().all(|item| !is_raw(item, "(")));
    let before = format!("{:?}", round);
    let again = parse_brackets(round, &rules, &mut frame, &mut counter).unwrap();
    assert_eq!(format!("{:?}", again), before);
}

#[test]
fn curly_blocks_are_grouped_before_round_ones() {
    let rules = builders();
    let (root, _, _) = parse("({1})".to_string(), &rules).unwrap();
    let lines = root.as_block().unwrap().lines();
    assert_eq!(names(lines), vec!["brack"]);
    assert_eq!(names(lines[0].as_block().unwrap().lines()), vec!["curl"]);
}

#[test]
fn curly_block_keeps_its_frame() {
    let rules = builders();
    let mut frame = FrameStack::new();
    let mut counter = SlotCounter::new();
    let grouped = parse_braces(items("{a;b}"), &rules, &mut frame, &mut counter).unwrap();
    assert_eq!(grouped.len(), 1);
    match &grouped[0] {
        TORE::Expr(node) => {
            let block = node.as_block().unwrap();
            let scope = block.frame().as_ref().unwrap();
            assert_eq!(scope.find("a"), Some(0));
            assert_eq!(scope.find("b"), Some(1));
        }
        TORE::Token(_) => panic!("the block was not grouped"),
    }
    assert_eq!(frame.find("a"), None);
    assert_eq!(counter.count(), 2);
}

#[test]
fn first_registered_rule_rewrites_first() {
    let times_first = vec![
        TwoSideOp::get_builder("*", "mult $t0, $t1\nmflo $t0"),
        TwoSideOp::get_builder("+", "add $t0, $t0, $t1"),
    ];
    assert_eq!(root_lines("a+b*c", &times_first), vec!["+"]);
    let plus_first = vec![
        TwoSideOp::get_builder("+", "add $t0, $t0, $t1"),
        TwoSideOp::get_builder("*", "mult $t0, $t1\nmflo $t0"),
    ];
    assert_eq!(root_lines("a+b*c", &plus_first), vec!["*"]);
}

#[test]
fn of_two_rules_for_one_window_the_first_wins() {
    let declaration_first = vec![VarDecl::get_builder(), TwoSideOp::get_builder("sei", "nop")];
    assert_eq!(root_lines("a sei b", &declaration_first), vec!["var decl"]);
    let operator_first = vec![TwoSideOp::get_builder("sei", "nop"), VarDecl::get_builder()];
    assert_eq!(root_lines("a sei b", &operator_first), vec!["sei"]);
}

#[test]
fn sweep_goes_on_behind_a_rewrite() {
    let rules = vec![TwoSideOp::get_builder("+", "add $t0, $t0, $t1")];
    let mut frame = FrameStack::new();
    let mut counter = SlotCounter::new();
    let swept = apply_builders(items("1+2;3+4"), &rules, &mut frame, &mut counter).unwrap();
    assert_eq!(swept.len(), 3);
    let swept = rules[0].parse_occurences(items("1+2+3"), &mut frame, &mut counter).unwrap();
    assert_eq!(swept.len(), 3);
    assert!(matches!(swept[0], TORE::Expr(Expression::TwoSideOp(_))));
    assert!(is_raw(&swept[1], "+"));
}

#[test]
fn rule_without_a_match_changes_nothing() {
    let rules = vec![TwoSideOp::get_builder("+", "add $t0, $t0, $t1")];
    let mut frame = FrameStack::new();
    let mut counter = SlotCounter::new();
    let swept = rules[0].parse_occurences(items("a*b"), &mut frame, &mut counter).unwrap();
    assert_eq!(format!("{:?}", swept), format!("{:?}", items("a*b")));
    let swept = rules[0].parse_occurences(items("a"), &mut frame, &mut counter).unwrap();
    assert_eq!(swept.len(), 1);
}

#[test]
fn window_captures_in_matcher_order() {
    let rule = VarDecl::get_builder();
    let sequence = items("x sei 5");
    let captures = rule.match_at(&sequence, 0).unwrap();
    assert_eq!(captures.len(), 2);
    assert_eq!(captures[0].get_name(), "x");
    assert_eq!(captures[1].get_name(), "number");
    assert!(rule.match_at(&items("x is 5"), 0).is_none());
}

#[test]
fn matchers() {
    let word = TORE::Token(Token::new(TokenType::Word, "if"));
    let symbol = TORE::Token(Token::new(TokenType::Single, "+"));
    let curly = TORE::Expr(CodeBlock::new(vec![], BlockType::Curl, None).into_expr());
    let number = TORE::Expr(Number::new("1".to_string()).into_expr());

    let text = TextPatt("if".to_string());
    assert!(matches!(text.match_tore(&word), Some(None)));
    assert!(text.match_tore(&symbol).is_none());
    assert!(text.match_tore(&curly).is_none());

    let name = TextPattVar;
    assert_eq!(name.match_tore(&symbol).unwrap().unwrap().get_name(), "+");
    assert!(name.match_tore(&number).is_none());

    let block = BlockPatt(BlockType::Curl);
    assert_eq!(block.match_tore(&curly).unwrap().unwrap().get_name(), "curl");
    assert!(BlockPatt(BlockType::Brack).match_tore(&curly).is_none());
    assert!(block.match_tore(&number).is_none());
    assert!(block.match_tore(&word).is_none());

    let any = ExprPattern;
    assert_eq!(any.match_tore(&word).unwrap().unwrap().get_name(), "if");
    assert_eq!(any.match_tore(&number).unwrap().unwrap().get_name(), "number");
    assert!(any.match_tore(&symbol).is_none());
    assert_eq!(Pattern::Expr(ExprPattern).match_tore(&curly).unwrap().unwrap().get_name(), "curl");
}

#[test]
fn captured_word_is_a_placeholder() {
    let word = TORE::Token(Token::new(TokenType::Word, "x"));
    let node = ExprPattern.match_tore(&word).unwrap().unwrap();
    assert_eq!(node.gen_mips(), load_var(0));
}

#[test]
fn constructors_by_hand() {
    let mut frame = FrameStack::new();
    let mut counter = SlotCounter::new();
    let cond = Number::new("1".to_string()).into_expr();
    let code = Number::new("2".to_string()).into_expr();
    let node = IfBlock::construct(vec![cond, code], &mut frame, &mut counter).unwrap();
    assert_eq!(node.get_name(), "if");
    assert!(node.gen_mips_with(vec![1]).starts_with(&push_value("1")));
    let cond = Number::new("1".to_string()).into_expr();
    let node = WhileBlock::construct(vec![cond], &mut frame, &mut counter);
    assert_eq!(node.err(), Some(ParseError::RuleMismatch));
}

#[test]
fn declared_names_get_slots_in_order() {
    let (root, frame, counter) = parse("x sei 5;y sei 6;x sei 7".to_string(), &builders()).unwrap();
    let expected = format!(
        "{}{}\n{}{}\n{}{}",
        push_value("5"),
        save_var(0),
        push_value("6"),
        save_var(1),
        push_value("7"),
        save_var(0)
    );
    assert_eq!(root.gen_mips(), expected);
    assert_eq!(counter.count(), 2);
    assert_eq!(frame.find("y"), Some(1));
}

#[test]
fn bare_name_becomes_a_variable() {
    let (root, frame, counter) = parse("x sei 1;y".to_string(), &builders()).unwrap();
    let lines = root.as_block().unwrap().lines();
    assert_eq!(names(lines), vec!["var decl", "y"]);
    assert_eq!(lines[1].gen_mips(), load_var(1));
    assert_eq!(frame.find("y"), Some(1));
}

#[test]
fn print_call_text() {
    let (root, _, _) = parse("print(7)".to_string(), &builders()).unwrap();
    assert_eq!(root.gen_mips(), format!("{}{}", push_value("7"), syscall(1)));
}

#[test]
fn unknown_callee_is_called_by_label() {
    let (root, _, _) = parse("later(1;2)".to_string(), &builders()).unwrap();
    assert_eq!(names(root.as_block().unwrap().lines()), vec!["func"]);
    assert_eq!(
        root.gen_mips(),
        format!("{}\n{}jal later\n", push_value("1"), push_value("2"))
    );
}

#[test]
fn function_declaration_binds_its_parameter() {
    let (root, frame, counter) = parse("def f(a){a}".to_string(), &builders()).unwrap();
    assert_eq!(names(root.as_block().unwrap().lines()), vec!["f"]);
    let expected = format!(
        "j f_end\nf:\nadd $t4, $t6, $zero\nadd $t5, $sp, $zero\nadd $t6, $sp, $zero\naddi $sp, $sp, 2\n{}{}{}{}add $sp, $t5, $zero\nadd $t6, $t4, $zero\n{}jr $ra\nf_end:",
        load_arg(1),
        save_var(0),
        load_var(0),
        pop(),
        save_t0()
    );
    assert_eq!(root.gen_mips(), expected);
    assert_eq!(frame.find("a"), Some(1));
}

#[test]
fn program_with_conditional_and_given_labels() {
    let (root, _, _) = parse("if(1){2};while(3){4}".to_string(), &builders()).unwrap();
    assert_eq!(names(root.as_block().unwrap().lines()), vec!["if", "while"]);
    let text = root.gen_mips_with(vec![8, 9]);
    assert!(text.contains("beqz $t0, if_false8\n"));
    assert!(text.contains("if_false8:\n\nwhile_start9:\n"));
    assert!(text.ends_with("j while_start9\nwhile_end9:\n"));
}
