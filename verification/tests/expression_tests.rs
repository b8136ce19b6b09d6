use mips_compiler::expression::{
    if_mips, params_mips, program_mips, while_mips, BlockType, CodeBlock, Expression,
    ExpressionClone, FuncDecl, FunctionCall, IfBlock, Number, TwoSideOp, Var, VarDecl, WhileBlock,
};
use mips_compiler::frame::{FrameStack, SlotCounter};
use mips_compiler::function::{Function, PrintFn, UnknownFn};
use mips_compiler::labels::Labels;
use mips_compiler::mips::{
    load_arg, load_var, pop, pop_two, push_value, save_t0, save_var, syscall,
};

fn number(text: &str) -> Expression {
    Number::new(text.to_string()).into_expr()
}

fn conditional(cond: &str, code: &str) -> Expression {
    IfBlock::new(Box::new(number(code)), Box::new(number(cond))).into_expr()
}

fn expected_if(cond: &str, code: &str, id: u32) -> String {
    format!(
        "{}{}#branch:\nbeqz $t0, if_false{}\n#branch code: \n{}if_false{}:\n",
        cond,
        pop(),
        id,
        code,
        id
    )
}

fn expected_while(cond: &str, code: &str, id: u32) -> String {
    format!(
        "while_start{}:\n#calc cond\n{}#eval cond: \n{}#branch:\nbeqz $t0, while_end{}\n{}j while_start{}\nwhile_end{}:\n",
        id,
        cond,
        pop(),
        id,
        code,
        id,
        id
    )
}

#[test]
fn block_type_names() {
    assert_eq!(BlockType::Curl.get_name(), "curl");
    assert_eq!(BlockType::Brack.get_name(), "brack");
}

#[test]
fn display_names() {
    assert_eq!(number("1").get_name(), "number");
    assert_eq!(Var::new("x".to_string(), 3).into_expr().get_name(), "x");
    let op = TwoSideOp::new(
        (Box::new(number("1")), Box::new(number("2"))),
        "+".to_string(),
        "add $t0, $t0, $t1".to_string(),
    );
    assert_eq!(op.into_expr().get_name(), "+");
    assert_eq!(conditional("1", "2").get_name(), "if");
    let lp = WhileBlock::new(Box::new(number("1")), Box::new(number("2")));
    assert_eq!(lp.into_expr().get_name(), "while");
    let decl = VarDecl::new("x".to_string(), 0, Box::new(number("1")));
    assert_eq!(decl.into_expr().get_name(), "var decl");
    let func = FuncDecl::new("f".to_string(), Box::new(number("1")), vec![], FrameStack::new(), 0);
    assert_eq!(func.into_expr().get_name(), "f");
    let call = FunctionCall::new("f".to_string(), "jal f\n".to_string(), vec![]);
    assert_eq!(call.into_expr().get_name(), "func");
    assert_eq!(CodeBlock::new(vec![], BlockType::Curl, None).into_expr().get_name(), "curl");
    assert_eq!(CodeBlock::new(vec![], BlockType::Brack, None).into_expr().get_name(), "brack");
}

#[test]
fn only_a_block_is_a_block() {
    assert!(number("1").as_block().is_none());
    let block = CodeBlock::new(vec![number("1"), number("2")], BlockType::Brack, None).into_expr();
    let view = block.as_block().unwrap();
    assert_eq!(view.block_type(), BlockType::Brack);
    assert_eq!(view.lines().len(), 2);
    assert!(view.frame().is_none());
    assert_eq!(block.into_lines().unwrap().len(), 2);
    assert!(number("1").into_lines().is_none());
}

#[test]
fn clone_keeps_the_text() {
    let node = CodeBlock::new(
        vec![conditional("1", "2"), Var::new("x".to_string(), 4).into_expr()],
        BlockType::Curl,
        Some(FrameStack::new()),
    )
    .into_expr();
    let copy = node.clone();
    assert_eq!(copy.gen_mips_with(vec![5]), node.gen_mips_with(vec![5]));
    assert_eq!(format!("{:?}", copy), format!("{:?}", node));
}

#[test]
fn number_pushes_its_text() {
    assert_eq!(number("35").gen_mips(), push_value("35"));
}

#[test]
fn variable_loads_its_slot() {
    assert_eq!(Var::new("x".to_string(), 6).into_expr().gen_mips(), load_var(6));
}

#[test]
fn operator_pops_both_operands() {
    let op = TwoSideOp::new(
        (Box::new(number("1")), Box::new(number("2"))),
        "+".to_string(),
        "add $t0, $t0, $t1".to_string(),
    )
    .into_expr();
    let expected = format!(
        "{}{}{}add $t0, $t0, $t1\n{}",
        push_value("1"),
        push_value("2"),
        pop_two(),
        save_t0()
    );
    assert_eq!(op.gen_mips(), expected);
}

#[test]
fn declaration_stores_into_its_slot() {
    let decl = VarDecl::new("x".to_string(), 2, Box::new(number("9"))).into_expr();
    assert_eq!(decl.gen_mips(), format!("{}{}", push_value("9"), save_var(2)));
}

#[test]
fn if_mips_text() {
    assert_eq!(if_mips("C", "B", 7), expected_if("C", "B", 7));
    assert_eq!(
        if_mips("", "", 0),
        "lb $t0, -1($sp)\naddi $sp, $sp, -1\n#branch:\nbeqz $t0, if_false0\n#branch code: \nif_false0:\n"
    );
}

#[test]
fn while_mips_text() {
    assert_eq!(while_mips("C", "B", 4294967295), expected_while("C", "B", 4294967295));
    assert_eq!(
        while_mips("", "", 12),
        "while_start12:\n#calc cond\n#eval cond: \nlb $t0, -1($sp)\naddi $sp, $sp, -1\n#branch:\nbeqz $t0, while_end12\nj while_start12\nwhile_end12:\n"
    );
}

#[test]
fn conditional_with_given_label() {
    let node = conditional("1", "2");
    assert_eq!(
        node.gen_mips_with(vec![42]),
        expected_if(&push_value("1"), &push_value("2"), 42)
    );
}

#[test]
fn labels_are_taken_in_order() {
    let inner = conditional("2", "3");
    let node = WhileBlock::new(Box::new(inner), Box::new(number("1"))).into_expr();
    let body = expected_if(&push_value("2"), &push_value("3"), 20);
    assert_eq!(
        node.gen_mips_with(vec![10, 20, 30]),
        expected_while(&push_value("1"), &body, 10)
    );
}

#[test]
fn sibling_conditionals_take_different_given_labels() {
    let block = CodeBlock::new(
        vec![conditional("1", "2"), conditional("3", "4")],
        BlockType::Curl,
        None,
    )
    .into_expr();
    let expected = format!(
        "{}\n{}",
        expected_if(&push_value("1"), &push_value("2"), 0),
        expected_if(&push_value("3"), &push_value("4"), 1)
    );
    assert_eq!(block.gen_mips_with(vec![0, 1]), expected);
}

#[test]
fn drawn_label_is_used_for_both_places() {
    let node = conditional("1", "2");
    let text = node.gen_mips_with(vec![]);
    let marker = "beqz $t0, if_false";
    let from = text.find(marker).unwrap() + marker.len();
    let to = from + text[from..].find('\n').unwrap();
    let id: u32 = text[from..to].parse().unwrap();
    assert_eq!(text, expected_if(&push_value("1"), &push_value("2"), id));
}

#[test]
fn labels_are_numbered_by_default() {
    let node = conditional("1", "2");
    assert_eq!(node.gen_mips(), expected_if(&push_value("1"), &push_value("2"), 0));
}

#[test]
fn missing_labels_are_drawn() {
    let inner = conditional("2", "3");
    let node = WhileBlock::new(Box::new(inner), Box::new(number("1"))).into_expr();
    let text = node.gen_mips_with(vec![10]);
    assert!(text.starts_with("while_start10:\n"));
    assert!(text.ends_with("j while_start10\nwhile_end10:\n"));
}

#[test]
fn label_source_hands_out_given_numbers_first() {
    let mut labels = Labels::new(vec![4, 5]);
    assert_eq!(labels.next(), 4);
    assert_eq!(labels.next(), 5);
    labels.next();
}

#[test]
fn block_joins_its_lines() {
    let block = CodeBlock::new(vec![number("1"), number("2"), number("3")], BlockType::Curl, None)
        .into_expr();
    assert_eq!(
        block.gen_mips(),
        format!("{}\n{}\n{}", push_value("1"), push_value("2"), push_value("3"))
    );
    assert_eq!(CodeBlock::new(vec![], BlockType::Curl, None).into_expr().gen_mips(), "");
}

#[test]
fn call_emits_arguments_then_the_call() {
    let call =
        FunctionCall::new("g".to_string(), "jal g\n".to_string(), vec![number("1"), number("2")])
            .into_expr();
    assert_eq!(call.gen_mips(), format!("{}\n{}jal g\n", push_value("1"), push_value("2")));
}

#[test]
fn params_are_bound_from_the_last() {
    assert_eq!(params_mips(&vec![]), "");
    assert_eq!(
        params_mips(&vec![4, 9]),
        format!("{}{}\n{}{}", load_arg(1), save_var(9), load_arg(2), save_var(4))
    );
}

#[test]
fn function_declaration_text() {
    let mut counter = SlotCounter::new();
    let mut frame = FrameStack::new();
    let a = frame.get_addr("a", &mut counter);
    let b = frame.get_addr("b", &mut counter);
    let func =
        FuncDecl::new("f".to_string(), Box::new(number("1")), vec![a, b], frame, counter.count())
            .into_expr();
    let expected = format!(
        "j f_end\nf:\nadd $t4, $t6, $zero\nadd $t5, $sp, $zero\nadd $t6, $sp, $zero\naddi $sp, $sp, 2\n{}{}\n{}{}{}{}add $sp, $t5, $zero\nadd $t6, $t4, $zero\n{}jr $ra\nf_end:",
        load_arg(1),
        save_var(1),
        load_arg(2),
        save_var(0),
        push_value("1"),
        pop(),
        save_t0()
    );
    assert_eq!(func.gen_mips(), expected);
}

#[test]
fn callees() {
    assert_eq!(PrintFn.get_name(), "print");
    assert_eq!(PrintFn.get_call_mips(), syscall(1));
    let unknown = UnknownFn("later".to_string());
    assert_eq!(unknown.get_name(), "later");
    assert_eq!(unknown.get_call_mips(), "jal later\n");
    let func = FuncDecl::new("f".to_string(), Box::new(number("1")), vec![], FrameStack::new(), 0);
    assert_eq!(Function::get_name(&func), "f");
    assert_eq!(func.get_call_mips(), "jal f\n");
}

#[test]
fn boxed_copy_keeps_the_text() {
    let node = conditional("1", "2");
    let copy = node.clone_box();
    assert_eq!(copy.gen_mips_with(vec![3]), node.gen_mips_with(vec![3]));
}

#[test]
fn program_text_has_setup_and_reservation() {
    let mut counter = SlotCounter::new();
    let mut frame = FrameStack::new();
    frame.get_addr("x", &mut counter);
    let root = CodeBlock::new(vec![number("1"), number("2")], BlockType::Curl, None).into_expr();
    let expected = format!(
        "addi $sp, $sp, -1000\nadd $t6, $sp, $zero\naddi $sp, $sp, 1\n\n{}\n{}\n",
        push_value("1"),
        push_value("2")
    );
    assert_eq!(program_mips(&root, &frame, &counter), expected);
}

#[test]
fn numbered_labels_count_from_zero() {
    let inner = conditional("2", "3");
    let node = WhileBlock::new(Box::new(inner), Box::new(number("1"))).into_expr();
    let block = CodeBlock::new(vec![node, conditional("4", "5")], BlockType::Curl, None).into_expr();
    assert_eq!(block.gen_mips(), block.gen_mips_with(vec![0, 1, 2]));
    let body = expected_if(&push_value("2"), &push_value("3"), 1);
    let expected = format!(
        "{}\n{}",
        expected_while(&push_value("1"), &body, 0),
        expected_if(&push_value("4"), &push_value("5"), 2)
    );
    assert_eq!(block.gen_mips(), expected);
}

#[test]
fn counting_source_counts() {
    let mut labels = Labels::numbered();
    assert_eq!(labels.next(), 0);
    assert_eq!(labels.next(), 1);
    assert_eq!(labels.next(), 2);
}

#[test]
fn program_labels_are_distinct() {
    let root = CodeBlock::new(
        vec![conditional("1", "2"), conditional("3", "4")],
        BlockType::Curl,
        None,
    )
    .into_expr();
    let text = program_mips(&root, &FrameStack::new(), &SlotCounter::new());
    let body = format!(
        "{}\n{}",
        expected_if(&push_value("1"), &push_value("2"), 0),
        expected_if(&push_value("3"), &push_value("4"), 1)
    );
    assert_eq!(
        text,
        format!("addi $sp, $sp, -1000\nadd $t6, $sp, $zero\naddi $sp, $sp, 0\n\n{}\n", body)
    );
}
