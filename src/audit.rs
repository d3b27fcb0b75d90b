use vstd::prelude::*;

verus! {

/// The character of a 6-bit value in the standard base64 alphabet.
pub open spec fn base64_digit(v: int) -> char {
    seq!['A', 'B', 'C', 'D', 'E', 'F', 'G', 'H', 'I', 'J', 'K', 'L', 'M', 'N', 'O', 'P', 'Q', 'R', 'S', 'T', 'U', 'V', 'W', 'X', 'Y', 'Z', 'a', 'b', 'c', 'd', 'e', 'f', 'g', 'h', 'i', 'j', 'k', 'l', 'm', 'n', 'o', 'p', 'q', 'r', 's', 't', 'u', 'v', 'w', 'x', 'y', 'z', '0', '1', '2', '3', '4', '5', '6', '7', '8', '9', '+', '/'][v]
}

/// The standard base64 text (RFC 4648 alphabet, with `=` padding) of a byte
/// sequence: each group of three bytes gives four characters, and a final
/// group of one or two bytes is padded to four.
pub open spec fn base64_of(data: Seq<u8>) -> Seq<char>
    decreases data.len(),
{
    if data.len() == 0 {
        Seq::empty()
    } else if data.len() == 1 {
        let a = data[0] as int;
        seq![base64_digit(a / 4), base64_digit((a % 4) * 16), '=', '=']
    } else if data.len() == 2 {
        let a = data[0] as int;
        let b = data[1] as int;
        seq![base64_digit(a / 4), base64_digit((a % 4) * 16 + b / 16), base64_digit((b % 16) * 4), '=']
    } else {
        let a = data[0] as int;
        let b = data[1] as int;
        let c = data[2] as int;
        seq![
            base64_digit(a / 4),
            base64_digit((a % 4) * 16 + b / 16),
            base64_digit((b % 16) * 4 + c / 64),
            base64_digit(c % 64),
        ] + base64_of(data.subrange(3, data.len() as int))
    }
}

/// The decimal digit of a value below 10.
pub open spec fn decimal_digit(v: nat) -> char {
    seq!['0', '1', '2', '3', '4', '5', '6', '7', '8', '9'][v as int]
}

/// Decimal text of a natural number, without leading zeros.
pub open spec fn decimal_of(n: nat) -> Seq<char>
    decreases n,
{
    if n < 10 {
        seq![decimal_digit(n)]
    } else {
        decimal_of(n / 10) + seq![decimal_digit(n % 10)]
    }
}

/// One line of the audit trail: `<seconds> - ID <resource id> - <base64 key>`.
pub open spec fn audit_line_of(timestamp: u64, resource_id: Seq<char>, key: Seq<u8>) -> Seq<char> {
    decimal_of(timestamp as nat) + " - ID "@ + resource_id + " - "@ + base64_of(key)
}

/// Relies on `<u64 as ToString>::to_string`: the decimal form of the number.
#[verifier::external_body]
pub(crate) fn decimal_text(n: u64) -> (r: String)
    ensures
        r@ == decimal_of(n as nat),
{
    n.to_string()
}

/// Relies on base64's `general_purpose::STANDARD` engine (`Engine::encode`):
/// padded base64 text in the standard alphabet. The engine panics when the
/// encoded length overflows `usize`, which the bound on `data` excludes.
#[verifier::external_body]
fn base64_text(data: &[u8]) -> (r: String)
    requires
        data@.len() < usize::MAX / 4,
    ensures
        r@ == base64_of(data@),
{
    base64::Engine::encode(&base64::engine::general_purpose::STANDARD, data)
}

/// The audit line recording that `key` was derived from `resource_id` at
/// `timestamp` (seconds since the epoch).
pub fn audit_line(timestamp: u64, resource_id: &str, key: &[u8]) -> (r: String)
    requires
        key@.len() < usize::MAX / 4,
    ensures
        r@ == audit_line_of(timestamp, resource_id@, key@),
{
    let mut line = decimal_text(timestamp);
    line.append(" - ID ");
    line.append(resource_id);
    line.append(" - ");
    let encoded = base64_text(key);
    line.append(encoded.as_str());
    line
}

} // verus!
