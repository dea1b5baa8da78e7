//! Decimal rendering and the fixed reply texts of the connect exchange.

use vstd::prelude::*;
use vstd::string::StringExecFns;

verus! {

/// The character for one decimal digit; digits outside 0..=9 never arise.
pub open spec fn digit_char(d: int) -> char {
    if d == 0 {
        '0'
    } else if d == 1 {
        '1'
    } else if d == 2 {
        '2'
    } else if d == 3 {
        '3'
    } else if d == 4 {
        '4'
    } else if d == 5 {
        '5'
    } else if d == 6 {
        '6'
    } else if d == 7 {
        '7'
    } else if d == 8 {
        '8'
    } else {
        '9'
    }
}

/// The decimal spelling of a non-negative number, most significant digit
/// first.
pub open spec fn decimal_chars(n: int) -> Seq<char>
    decreases n,
{
    if n < 10 {
        seq![digit_char(n)]
    } else {
        decimal_chars(n / 10).push(digit_char(n % 10))
    }
}

/// The instruction text sent to a connecting player whose record is `New`.
pub open spec fn connect_code_message(code: int) -> Seq<char> {
    "Please type the following code into the #verification channel:\n"@ + decimal_chars(code)
}

/// The text sent to a connecting player whose record awaits approval.
pub open spec fn pending_message() -> Seq<char> {
    "Your account is currently pending admin approval. Please try again later."@
}

fn digit_str(d: u32) -> (r: &'static str)
    requires
        d < 10,
    ensures
        r@ == seq![digit_char(d as int)],
{
    proof {
        reveal_strlit("0");
        reveal_strlit("1");
        reveal_strlit("2");
        reveal_strlit("3");
        reveal_strlit("4");
        reveal_strlit("5");
        reveal_strlit("6");
        reveal_strlit("7");
        reveal_strlit("8");
        reveal_strlit("9");
    }
    match d {
        0 => "0",
        1 => "1",
        2 => "2",
        3 => "3",
        4 => "4",
        5 => "5",
        6 => "6",
        7 => "7",
        8 => "8",
        _ => "9",
    }
}

/// Renders a number in decimal, matching `decimal_chars`.
pub fn decimal_string(n: u32) -> (r: String)
    ensures
        r@ == decimal_chars(n as int),
    decreases n,
{
    if n < 10 {
        String::from_str(digit_str(n))
    } else {
        let mut s = decimal_string(n / 10);
        s.append(digit_str(n % 10));
        proof {
            assert(s@ =~= decimal_chars(n as int));
        }
        s
    }
}

/// Builds the code-instructions reply for a freshly created record.
pub fn code_message(code: i32) -> (r: String)
    requires
        0 <= code,
    ensures
        r@ == connect_code_message(code as int),
{
    let mut s = String::from_str(
        "Please type the following code into the #verification channel:\n",
    );
    s.append(decimal_string(code as u32).as_str());
    s
}

/// Builds the pending-approval reply.
pub fn pending_reply() -> (r: String)
    ensures
        r@ == pending_message(),
{
    String::from_str(
        "Your account is currently pending admin approval. Please try again later.",
    )
}

} // verus!
