//! The words in which the machine describes its last clear-screen or return
//! instruction.

use vstd::prelude::*;
use vstd::string::StringExecFns;

verus! {

/// The character for the decimal digit `d`.
pub open spec fn digit_char(d: int) -> char {
    if d == 0 {
        '0'
    } else if d == 1 {
        '1'
    } else if d == 2 {
        '2'
    } else if d == 3 {
        '3'
    } else if d == 4 {
        '4'
    } else if d == 5 {
        '5'
    } else if d == 6 {
        '6'
    } else if d == 7 {
        '7'
    } else if d == 8 {
        '8'
    } else {
        '9'
    }
}

/// `n` in decimal, without leading zeros.
pub open spec fn decimal(n: nat) -> Seq<char>
    decreases n,
{
    if n < 10 {
        seq![digit_char(n as int)]
    } else {
        decimal(n / 10).push(digit_char((n % 10) as int))
    }
}

/// The description of a clear-screen instruction.
pub open spec fn clear_text() -> Seq<char> {
    "[0x0] opcode\nClear display. Fills screen with 0's."@
}

/// The description of a return that takes the stack from `from` entries to `to`.
pub open spec fn return_text(from: nat, to: nat) -> Seq<char> {
    "[0x0] opcode\nFlow return. Returns from subroutine. Decrement stack size from "@ + decimal(
        from,
    ) + " to "@ + decimal(to) + ". Set program counter to previous stack value"@
}

/// The decimal digit `d` as a string.
fn digit_str(d: u16) -> (s: &'static str)
    requires
        d < 10,
    ensures
        s@ == seq![digit_char(d as int)],
{
    proof {
        reveal_strlit("0");
        reveal_strlit("1");
        reveal_strlit("2");
        reveal_strlit("3");
        reveal_strlit("4");
        reveal_strlit("5");
        reveal_strlit("6");
        reveal_strlit("7");
        reveal_strlit("8");
        reveal_strlit("9");
    }
    let s = match d {
        0 => "0",
        1 => "1",
        2 => "2",
        3 => "3",
        4 => "4",
        5 => "5",
        6 => "6",
        7 => "7",
        8 => "8",
        _ => "9",
    };
    assert(s@ =~= seq![digit_char(d as int)]);
    s
}

/// Appends `n` in decimal to `text`.
pub fn push_decimal(text: &mut String, n: u16)
    ensures
        final(text)@ == old(text)@ + decimal(n as nat),
    decreases n,
{
    if n >= 10 {
        push_decimal(text, n / 10);
    }
    text.append(digit_str(n % 10));
    assert(text@ =~= old(text)@ + decimal(n as nat));
}

/// Describes a clear-screen instruction.
pub fn describe_clear() -> (text: String)
    ensures
        text@ == clear_text(),
{
    String::from_str("[0x0] opcode\nClear display. Fills screen with 0's.")
}

/// Describes a return that takes the stack from `from` entries to `to`.
pub fn describe_return(from: u16, to: u16) -> (text: String)
    ensures
        text@ == return_text(from as nat, to as nat),
{
    let mut text = String::from_str(
        "[0x0] opcode\nFlow return. Returns from subroutine. Decrement stack size from ",
    );
    push_decimal(&mut text, from);
    text.append(" to ");
    push_decimal(&mut text, to);
    text.append(". Set program counter to previous stack value");
    text
}

} // verus!
