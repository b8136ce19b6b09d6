//! Callees: what a call needs to know of the function that it calls.

use vstd::prelude::*;
use crate::mips::{call_by_label, call_label, syscall, syscall_text};

verus! {

/// A function that can be called: it has a name, under which calls are
/// written, and a fragment that transfers control to it.
pub trait Function {
    /// The fragment that transfers control to the function.
    spec fn call_text(&self) -> Seq<char>;

    /// The name under which the function is called.
    spec fn name_text(&self) -> Seq<char>;

    /// The fragment that transfers control to the function.
    fn get_call_mips(&self) -> (r: String)
        ensures
            r@ == self.call_text(),
    ;

    /// The name under which the function is called.
    fn get_name(&self) -> (r: String)
        ensures
            r@ == self.name_text(),
    ;
}

/// The built-in function `print`: it pops one value and writes it out by
/// the system call 1.
#[derive(Debug)]
pub struct PrintFn;

impl Function for PrintFn {
    open spec fn call_text(&self) -> Seq<char> {
        syscall_text(1)
    }

    open spec fn name_text(&self) -> Seq<char> {
        "print"@
    }

    fn get_call_mips(&self) -> (r: String) {
        syscall(1)
    }

    fn get_name(&self) -> (r: String) {
        String::from_str("print")
    }
}

/// A function of which only the name is known: it is called by its label.
#[derive(Debug)]
pub struct UnknownFn(pub String);

impl Function for UnknownFn {
    open spec fn call_text(&self) -> Seq<char> {
        call_by_label(self.0@)
    }

    open spec fn name_text(&self) -> Seq<char> {
        self.0@
    }

    fn get_call_mips(&self) -> (r: String) {
        call_label(self.0.as_str())
    }

    fn get_name(&self) -> (r: String) {
        self.0.clone()
    }
}

} // verus!
