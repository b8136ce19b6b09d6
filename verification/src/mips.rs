//! Assembly fragments shared by every node: the operand-stack push and pop
//! primitives, variable loads and stores, and decimal rendering of numbers.

use vstd::prelude::*;

verus! {

/// The character that stands for a single decimal digit.
pub open spec fn digit_char(d: nat) -> char {
    if d == 0 {
        '0'
    } else if d == 1 {
        '1'
    } else if d == 2 {
        '2'
    } else if d == 3 {
        '3'
    } else if d == 4 {
        '4'
    } else if d == 5 {
        '5'
    } else if d == 6 {
        '6'
    } else if d == 7 {
        '7'
    } else if d == 8 {
        '8'
    } else {
        '9'
    }
}

/// The decimal rendering of a natural number, most significant digit first,
/// without leading zeros.
pub open spec fn decimal(n: nat) -> Seq<char>
    decreases n,
{
    if n < 10 {
        seq![digit_char(n)]
    } else {
        decimal(n / 10).push(digit_char(n % 10))
    }
}

/// Two numbers with the same decimal rendering are the same number, so
/// labels that are told apart by a number never collide.
pub proof fn law_decimal_is_injective(a: nat, b: nat)
    requires
        decimal(a) == decimal(b),
    ensures
        a == b,
    decreases a,
{
    lemma_decimal_len(a);
    lemma_decimal_len(b);
    if a < 10 && b < 10 {
        assert(decimal(a)[0] == digit_char(a));
        assert(decimal(b)[0] == digit_char(b));
    } else if a >= 10 && b >= 10 {
        assert(decimal(a).last() == digit_char(a % 10));
        assert(decimal(b).last() == digit_char(b % 10));
        assert(decimal(a).drop_last() =~= decimal(a / 10));
        assert(decimal(b).drop_last() =~= decimal(b / 10));
        law_decimal_is_injective(a / 10, b / 10);
    } else if a >= 10 {
        lemma_decimal_len(a / 10);
    } else {
        lemma_decimal_len(b / 10);
    }
}

/// A decimal rendering has at least one digit; that of a number below ten
/// has one.
pub proof fn lemma_decimal_len(n: nat)
    ensures
        decimal(n).len() >= 1,
        n < 10 ==> decimal(n).len() == 1,
        n >= 10 ==> decimal(n).len() >= 2,
    decreases n,
{
    if n >= 10 {
        lemma_decimal_len(n / 10);
    }
}

/// The text that pushes `$t0` onto the operand stack.
pub open spec fn save_t0_text() -> Seq<char> {
    "sb $t0, 0($sp)\naddi $sp, $sp, 1\n"@
}

/// The text that pops one operand into `$t0`.
pub open spec fn pop_text() -> Seq<char> {
    "lb $t0, -1($sp)\naddi $sp, $sp, -1\n"@
}

/// The text that pops two operands into `$t0` and `$t1`.
pub open spec fn pop_two_text() -> Seq<char> {
    "lb $t0, -1($sp)\nlb $t1, -2($sp)\naddi $sp, $sp, -2\n"@
}

/// The text that pushes an immediate value.
pub open spec fn push_value_text(value: Seq<char>) -> Seq<char> {
    "addi $t0, $zero, "@ + value + "\n"@ + save_t0_text()
}

/// The text of a system call that pops its one argument.
pub open spec fn syscall_text(code: u32) -> Seq<char> {
    pop_text() + "addi $v0, $zero, "@ + decimal(code as nat)
        + "\nadd $a0, $t0, $zero\nsyscall\n"@
}

/// The text that loads the slot `addr` above the frame pointer and pushes it.
pub open spec fn load_var_text(addr: usize) -> Seq<char> {
    "#loading var\naddi $t0, $t6, "@ + decimal(addr as nat) + "\nlw $t0, 0($t0)\n"@
        + save_t0_text()
}

/// The text that loads the incoming argument `position` places below the
/// frame pointer and pushes it.
pub open spec fn load_arg_text(position: usize) -> Seq<char> {
    "#loading var\naddi $t0, $t6, -"@ + decimal(position as nat) + "\nlw $t0, 0($t0)\n"@
        + save_t0_text()
}

/// The text that pops a value and stores it into the slot `addr`.
pub open spec fn save_var_text(addr: usize) -> Seq<char> {
    pop_text() + "#saving var\naddi $t1, $t6, "@ + decimal(addr as nat) + "\nsb $t0, 0($t1)\n"@
}

/// The text that sets the frame pointer and reserves `n` slots.
pub open spec fn reserve_text(n: usize) -> Seq<char> {
    "add $t6, $sp, $zero\naddi $sp, $sp, "@ + decimal(n as nat) + "\n"@
}

/// The text that calls the function `name` by its label.
pub open spec fn call_by_label(name: Seq<char>) -> Seq<char> {
    "jal "@ + name + "\n"@
}

fn digit_str(d: u64) -> (r: &'static str)
    requires
        d < 10,
    ensures
        r@ == seq![digit_char(d as nat)],
{
    proof {
        reveal_strlit("0");
        reveal_strlit("1");
        reveal_strlit("2");
        reveal_strlit("3");
        reveal_strlit("4");
        reveal_strlit("5");
        reveal_strlit("6");
        reveal_strlit("7");
        reveal_strlit("8");
        reveal_strlit("9");
    }
    let r = if d == 0 {
        "0"
    } else if d == 1 {
        "1"
    } else if d == 2 {
        "2"
    } else if d == 3 {
        "3"
    } else if d == 4 {
        "4"
    } else if d == 5 {
        "5"
    } else if d == 6 {
        "6"
    } else if d == 7 {
        "7"
    } else if d == 8 {
        "8"
    } else {
        "9"
    };
    assert(r@ =~= seq![digit_char(d as nat)]);
    r
}

/// Appends the decimal rendering of `n` to `out`.
pub fn append_decimal(out: &mut String, n: u64)
    ensures
        final(out)@ == old(out)@ + decimal(n as nat),
    decreases n,
{
    if n >= 10 {
        append_decimal(out, n / 10);
    }
    out.append(digit_str(n % 10));
    assert(final(out)@ =~= old(out)@ + decimal(n as nat));
}

/// Pushes the value in `$t0` onto the operand stack.
pub fn save_t0() -> (r: String)
    ensures
        r@ == save_t0_text(),
{
    String::from_str("sb $t0, 0($sp)\naddi $sp, $sp, 1\n")
}

/// Pushes an immediate value, given as its source text.
pub fn push_value(value: &str) -> (r: String)
    ensures
        r@ == push_value_text(value@),
{
    let mut r = String::from_str("addi $t0, $zero, ");
    r.append(value);
    r.append("\n");
    r.append(save_t0().as_str());
    r
}

/// Pops one operand into `$t0`.
pub fn pop() -> (r: String)
    ensures
        r@ == pop_text(),
{
    String::from_str("lb $t0, -1($sp)\naddi $sp, $sp, -1\n")
}

/// Pops two operands: the later one into `$t0`, the earlier into `$t1`.
pub fn pop_two() -> (r: String)
    ensures
        r@ == pop_two_text(),
{
    String::from_str("lb $t0, -1($sp)\nlb $t1, -2($sp)\naddi $sp, $sp, -2\n")
}

/// Pops one operand and hands it to the system call numbered `code`.
pub fn syscall(code: u32) -> (r: String)
    ensures
        r@ == syscall_text(code),
{
    let mut r = pop();
    r.append("addi $v0, $zero, ");
    append_decimal(&mut r, code as u64);
    r.append("\nadd $a0, $t0, $zero\nsyscall\n");
    r
}

/// Loads the variable in slot `addr`, counted from the frame pointer in
/// `$t6`, and pushes it.
pub fn load_var(addr: usize) -> (r: String)
    ensures
        r@ == load_var_text(addr),
{
    let mut r = String::from_str("#loading var\naddi $t0, $t6, ");
    append_decimal(&mut r, addr as u64);
    r.append("\nlw $t0, 0($t0)\n");
    r.append(save_t0().as_str());
    r
}

/// Loads the incoming argument that lies `position` places below the frame
/// pointer, and pushes it.
pub fn load_arg(position: usize) -> (r: String)
    ensures
        r@ == load_arg_text(position),
{
    let mut r = String::from_str("#loading var\naddi $t0, $t6, -");
    append_decimal(&mut r, position as u64);
    r.append("\nlw $t0, 0($t0)\n");
    r.append(save_t0().as_str());
    r
}

/// Pops one operand and stores it into slot `addr`.
pub fn save_var(addr: usize) -> (r: String)
    ensures
        r@ == save_var_text(addr),
{
    let mut r = pop();
    r.append("#saving var\naddi $t1, $t6, ");
    append_decimal(&mut r, addr as u64);
    r.append("\nsb $t0, 0($t1)\n");
    r
}

/// Sets the frame pointer to the stack pointer and reserves `n` slots.
pub fn reserve(n: usize) -> (r: String)
    ensures
        r@ == reserve_text(n),
{
    let mut r = String::from_str("add $t6, $sp, $zero\naddi $sp, $sp, ");
    append_decimal(&mut r, n as u64);
    r.append("\n");
    r
}

/// Calls the function `name` by its label.
pub fn call_label(name: &str) -> (r: String)
    ensures
        r@ == call_by_label(name@),
{
    let mut r = String::from_str("jal ");
    r.append(name);
    r.append("\n");
    r
}

} // verus!
