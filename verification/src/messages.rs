use vstd::prelude::*;
use vstd::string::StringExecFns;

verus! {

/// The character for one decimal digit.
pub open spec fn digit_char(d: int) -> char
    recommends
        0 <= d <= 9,
{
    ((d + 48) as u8) as char
}

/// The decimal digits of a 64-bit value, most significant first.
pub open spec fn spec_decimal(n: u64) -> Seq<char>
    decreases n,
{
    if n < 10 {
        seq![digit_char(n as int)]
    } else {
        spec_decimal((n / 10) as u64) + seq![digit_char((n % 10) as int)]
    }
}

/// Relies on u64's `Display` through `ToString`: a value formats as its
/// decimal digits, most significant first, with no sign and no padding.
#[verifier::external_body]
fn u64_to_string(n: u64) -> (r: String)
    ensures
        r@ == spec_decimal(n),
{
    n.to_string()
}

/// Builds a message that quotes an identifier between two fixed texts.
pub fn id_message(prefix: &str, id: u64, suffix: &str) -> (r: String)
    ensures
        r@ == prefix@ + spec_decimal(id) + suffix@,
{
    let mut s = prefix.to_owned();
    let digits = u64_to_string(id);
    s.append(digits.as_str());
    s.append(suffix);
    s
}

/// The message of the error returned when a debt lookup finds nothing.
pub open spec fn debt_not_found_msg(id: u64) -> Seq<char> {
    "a debt with id="@ + spec_decimal(id) + " not found"@
}

/// The message of the error returned when an update targets a missing debt.
pub open spec fn debt_update_not_found_msg(id: u64) -> Seq<char> {
    "couldn't update a debt with id="@ + spec_decimal(id) + ". debt not found"@
}

/// The message of the error returned when a delete targets a missing debt.
pub open spec fn debt_delete_not_found_msg(id: u64) -> Seq<char> {
    "couldn't delete a debt with id="@ + spec_decimal(id) + ". debt not found."@
}

/// The message of the error returned when an escrow lookup finds nothing.
pub open spec fn escrow_not_found_msg(debt_id: u64) -> Seq<char> {
    "escrow for debt_id="@ + spec_decimal(debt_id) + " not found"@
}

/// The message of the error returned when an escrow is created against a
/// missing debt.
pub open spec fn escrow_create_not_found_msg(debt_id: u64) -> Seq<char> {
    "couldn't create escrow for debt_id="@ + spec_decimal(debt_id) + ". debt not found"@
}

/// The message of the error returned on malformed debt fields.
pub open spec fn invalid_debt_input_msg() -> Seq<char> {
    "Invalid input data"@
}

/// The message of the error returned on a non-positive escrow amount.
pub open spec fn invalid_escrow_amount_msg() -> Seq<char> {
    "Invalid escrow amount"@
}

} // verus!
