use vstd::prelude::*;
use vstd::string::*;

verus! {

/// Whether `c` is one of the characters that the provisioning API refuses
/// in names: `\ / : * ? " < > | .`
pub open spec fn is_forbidden_char(c: char) -> bool {
    c == '\\' || c == '/' || c == ':' || c == '*' || c == '?' || c == '"' || c == '<' || c == '>'
        || c == '|' || c == '.'
}

/// Whether `c` is an ASCII control character (`U+0000..=U+001F` or `U+007F`).
pub open spec fn is_ascii_control_char(c: char) -> bool {
    (c as u32) < 0x20 || (c as u32) == 0x7f
}

/// Whether `c` survives sanitising: ASCII, not a control character, not forbidden.
pub open spec fn is_name_char(c: char) -> bool {
    (c as u32) < 0x80 && !is_ascii_control_char(c) && !is_forbidden_char(c)
}

/// The characters of `s` that survive sanitising, in their order.
pub open spec fn sanitized(s: Seq<char>) -> Seq<char> {
    s.filter(|c: char| is_name_char(c))
}

fn name_char(c: char) -> (r: bool)
    ensures
        r == is_name_char(c),
{
    let v = c as u32;
    v < 0x80 && !(v < 0x20 || v == 0x7f) && !(c == '\\' || c == '/' || c == ':' || c == '*'
        || c == '?' || c == '"' || c == '<' || c == '>' || c == '|' || c == '.')
}

/// Relies on `String::push`: appends one character at the end.
#[verifier::external_body]
fn push_char(s: &mut String, c: char)
    ensures
        final(s)@ == old(s)@.push(c),
{
    s.push(c)
}

/// Removes from `str` every character that is not ASCII, every control
/// character and every one of `\ / : * ? " < > | .`, keeping the order of the rest.
pub fn strip_invalid_chars(str: &str) -> (r: String)
    ensures
        r@ == sanitized(str@),
{
    let n = str.unicode_len();
    let mut out = String::new();
    let mut i: usize = 0;
    while i < n
        invariant
            n == str@.len(),
            i <= n,
            out@ == sanitized(str@.subrange(0, i as int)),
        decreases n - i,
    {
        let c = str.get_char(i);
        proof {
            reveal(Seq::filter);
            let pre = str@.subrange(0, i as int);
            assert(str@.subrange(0, i + 1) =~= pre.push(c));
            assert(pre.push(c).drop_last() =~= pre);
        }
        if name_char(c) {
            push_char(&mut out, c);
        }
        i = i + 1;
    }
    proof {
        assert(str@.subrange(0, n as int) =~= str@);
    }
    out
}

} // verus!
