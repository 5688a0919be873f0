//! Formulas in `x` and `y`, parsed by meval.

use vstd::prelude::*;
use vstd::string::StringSliceAdditionalSpecFns;

verus! {

#[verifier::external_type_specification]
#[verifier::external_body]
pub struct ExExpr(meval::Expr);

/// Verus needs this declaration because an expression dereferences to a
/// slice of its tokens.
#[verifier::external_type_specification]
#[verifier::external_body]
pub struct ExToken(meval::tokenizer::Token);

#[verifier::external_type_specification]
#[verifier::external_body]
pub struct ExError(meval::Error);

/// A byte of the whitespace that meval's tokenizer skips between tokens.
pub open spec fn is_space_byte(b: u8) -> bool {
    b == 0x20 || b == 0x09 || b == 0x0d || b == 0x0a
}

/// Non-empty text made of whitespace alone.
pub open spec fn is_blank(bytes: Seq<u8>) -> bool {
    &&& bytes.len() > 0
    &&& forall|i: int| 0 <= i < bytes.len() ==> is_space_byte(#[trigger] bytes[i])
}

/// Whether meval's tokenizer and shunting-yard pass accept the text.
pub uninterp spec fn meval_accepts(text: Seq<char>) -> bool;

/// Relies on meval's `FromStr for Expr` (`tokenize` then `to_rpn`): it
/// succeeds or fails according to the text alone, and fails on empty text
/// (a missing argument). Blank text is left out: the tokenizer panics on it.
#[verifier::external_body]
fn parse_with_meval(text: &str) -> (r: Result<meval::Expr, meval::Error>)
    requires
        !is_blank(text.spec_bytes()),
    ensures
        r is Ok <==> meval_accepts(text@),
        text@.len() == 0 ==> r is Err,
{
    text.parse::<meval::Expr>()
}

/// Whether meval's `Expr::bind2("x", "y")` succeeds on the expression
/// parsed from the text.
pub uninterp spec fn meval_binds_xy(text: Seq<char>) -> bool;

/// Relies on meval's `Expr::bind2`, applied to the expression that
/// `FromStr for Expr` makes of the text: it fails when the expression names
/// a variable other than `x` and `y`, or a function unknown to meval's
/// built-ins (or one called with the wrong number of arguments); the outcome
/// depends on the text alone. Blank text is left out, as for parsing.
#[verifier::external_body]
fn bind_xy(text: &str) -> (r: Result<(), meval::Error>)
    requires
        !is_blank(text.spec_bytes()),
    ensures
        r is Ok <==> meval_binds_xy(text@),
{
    match text.parse::<meval::Expr>() {
        Ok(expr) => match expr.bind2("x", "y") {
            Ok(_) => Ok(()),
            Err(e) => Err(e),
        },
        Err(e) => Err(e),
    }
}

/// A parsed formula, ready to be evaluated at points `(x, y)`.
pub struct Formula {
    pub expr: meval::Expr,
}

/// Why a text is not a formula; `cause` carries meval's description
/// (unexpected token, unbalanced parentheses, missing argument, unknown
/// variable or function), and is `None` for blank text.
pub struct ParseError {
    pub cause: Option<meval::Error>,
}

/// Whether the text is non-empty and made of whitespace alone.
pub fn text_is_blank(text: &str) -> (r: bool)
    ensures
        r == is_blank(text.spec_bytes()),
{
    let bytes: &[u8] = text.as_bytes();
    if bytes.len() == 0 {
        return false;
    }
    let mut i: usize = 0;
    while i < bytes.len()
        invariant
            bytes@ == text.spec_bytes(),
            0 <= i <= bytes.len(),
            forall|k: int| 0 <= k < i ==> is_space_byte(#[trigger] bytes@[k]),
        decreases bytes.len() - i,
    {
        let b: u8 = bytes[i];
        if !(b == 0x20 || b == 0x09 || b == 0x0d || b == 0x0a) {
            return false;
        }
        i += 1;
    }
    true
}

/// Parses a formula in `x` and `y`. It succeeds exactly when the text is
/// not blank, meval parses it, and it names no variable but `x` and `y` and
/// no function that meval does not know; empty text in particular fails.
pub fn parse(text: &str) -> (r: Result<Formula, ParseError>)
    ensures
        r is Ok <==> (!is_blank(text.spec_bytes()) && meval_accepts(text@) && meval_binds_xy(
            text@,
        )),
        text@.len() == 0 ==> r is Err,
{
    if text_is_blank(text) {
        return Err(ParseError { cause: None });
    }
    match parse_with_meval(text) {
        Ok(expr) => match bind_xy(text) {
            Ok(()) => Ok(Formula { expr }),
            Err(cause) => Err(ParseError { cause: Some(cause) }),
        },
        Err(cause) => Err(ParseError { cause: Some(cause) }),
    }
}

} // verus!
