//! The messages that name why a model was refused.

use vstd::prelude::*;
use crate::model::StlError;

verus! {

/// Appends a character; calls `String::push`, which the documentation
/// states appends the given `char` to the end of the string.
#[verifier::external_body]
fn push_char(s: &mut String, c: char)
    ensures
        final(s)@ == old(s)@.push(c),
{
    s.push(c);
}

/// The character of the decimal digit `d`.
pub open spec fn digit_char(d: int) -> char {
    (48 + d) as char
}

/// The decimal numeral of `n`, without leading zeros.
pub open spec fn decimal_text(n: nat) -> Seq<char>
    decreases n,
{
    if n < 10 {
        seq![digit_char(n as int)]
    } else {
        decimal_text(n / 10).push(digit_char((n % 10) as int))
    }
}

/// Appends the decimal numeral of `n`.
pub fn push_decimal(s: &mut String, n: usize)
    ensures
        final(s)@ == old(s)@ + decimal_text(n as nat),
    decreases n,
{
    if n >= 10 {
        push_decimal(s, n / 10);
    }
    let d = (n % 10) as u8;
    push_char(s, (48 + d) as char);
    proof {
        assert(old(s)@ + decimal_text(n as nat) =~= (if n >= 10 {
            old(s)@ + decimal_text((n / 10) as nat)
        } else {
            old(s)@
        }).push(digit_char(d as int)));
    }
}

/// The message of an error.
pub open spec fn error_text(e: StlError) -> Seq<char> {
    match e {
        StlError::MalformedVertex { line } => "line "@ + decimal_text(line as nat)
            + ": malformed vertex"@,
        StlError::VertexCount { count } => "vertex count "@ + decimal_text(count as nat)
            + " is not a multiple of 3"@,
        StlError::NoTriangles => "no triangles found"@,
    }
}

impl StlError {
    /// The message that names the error, such as `line 3: malformed vertex`.
    pub fn message(&self) -> (m: String)
        ensures
            m@ == error_text(*self),
    {
        let mut m = String::new();
        match self {
            StlError::MalformedVertex { line } => {
                m.append("line ");
                push_decimal(&mut m, *line);
                m.append(": malformed vertex");
            },
            StlError::VertexCount { count } => {
                m.append("vertex count ");
                push_decimal(&mut m, *count);
                m.append(" is not a multiple of 3");
            },
            StlError::NoTriangles => {
                m.append("no triangles found");
            },
        }
        assert(m@ =~= error_text(*self));
        m
    }
}

} // verus!
