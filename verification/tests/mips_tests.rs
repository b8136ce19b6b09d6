use mips_compiler::mips::{
    call_label, load_arg, load_var, pop, pop_two, push_value, reserve, save_t0, save_var, syscall,
};

#[test]
fn save_t0_text() {
    assert_eq!(save_t0(), "sb $t0, 0($sp)\naddi $sp, $sp, 1\n");
}

#[test]
fn push_value_text() {
    assert_eq!(
        push_value("42"),
        "addi $t0, $zero, 42\nsb $t0, 0($sp)\naddi $sp, $sp, 1\n"
    );
}

#[test]
fn pop_text() {
    assert_eq!(pop(), "lb $t0, -1($sp)\naddi $sp, $sp, -1\n");
}

#[test]
fn pop_two_text() {
    assert_eq!(
        pop_two(),
        "lb $t0, -1($sp)\nlb $t1, -2($sp)\naddi $sp, $sp, -2\n"
    );
}

#[test]
fn syscall_text() {
    assert_eq!(
        syscall(1),
        "lb $t0, -1($sp)\naddi $sp, $sp, -1\naddi $v0, $zero, 1\nadd $a0, $t0, $zero\nsyscall\n"
    );
    assert_eq!(
        syscall(4294967295),
        "lb $t0, -1($sp)\naddi $sp, $sp, -1\naddi $v0, $zero, 4294967295\nadd $a0, $t0, $zero\nsyscall\n"
    );
}

#[test]
fn load_var_text() {
    assert_eq!(
        load_var(0),
        "#loading var\naddi $t0, $t6, 0\nlw $t0, 0($t0)\nsb $t0, 0($sp)\naddi $sp, $sp, 1\n"
    );
    assert_eq!(
        load_var(1203),
        "#loading var\naddi $t0, $t6, 1203\nlw $t0, 0($t0)\nsb $t0, 0($sp)\naddi $sp, $sp, 1\n"
    );
}

#[test]
fn load_arg_text() {
    assert_eq!(
        load_arg(2),
        "#loading var\naddi $t0, $t6, -2\nlw $t0, 0($t0)\nsb $t0, 0($sp)\naddi $sp, $sp, 1\n"
    );
}

#[test]
fn save_var_text() {
    assert_eq!(
        save_var(10),
        "lb $t0, -1($sp)\naddi $sp, $sp, -1\n#saving var\naddi $t1, $t6, 10\nsb $t0, 0($t1)\n"
    );
}

#[test]
fn reserve_text() {
    assert_eq!(reserve(7), "add $t6, $sp, $zero\naddi $sp, $sp, 7\n");
    assert_eq!(
        reserve(usize::MAX),
        format!("add $t6, $sp, $zero\naddi $sp, $sp, {}\n", usize::MAX)
    );
}

#[test]
fn call_label_text() {
    assert_eq!(call_label("twice"), "jal twice\n");
}
