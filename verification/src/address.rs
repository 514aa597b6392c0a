//! Best-effort masking of peer addresses before they reach the log.

use vstd::prelude::*;
use vstd::string::StrSliceExecFns;

verus! {

/// What one character of an address scrubs to: the separators stay so the
/// shape of the address remains readable, everything else is masked.
pub open spec fn spec_scrub_char(c: char) -> char {
    if c == '.' || c == ':' {
        c
    } else {
        'x'
    }
}

/// The scrubbed form of an address: untouched when scrubbing is off,
/// otherwise masked character for character.
pub open spec fn spec_scrub(s: Seq<char>, scrub_ips: bool) -> Seq<char> {
    if scrub_ips {
        s.map_values(|c: char| spec_scrub_char(c))
    } else {
        s
    }
}

/// Relies on `String::push`: appends exactly the given character at the
/// end and changes nothing else.
#[verifier::external_body]
fn push_char(s: &mut String, c: char)
    ensures
        final(s)@ == old(s)@.push(c),
{
    s.push(c);
}

/// Mask an address for logging. With scrubbing configured, every character
/// except the `.` and `:` separators becomes `x`; without it, the address
/// is returned as it came.
pub fn scrub_address(ip: &str, scrub_ips: bool) -> (r: String)
    ensures
        r@ == spec_scrub(ip@, scrub_ips),
{
    if !scrub_ips {
        return ip.to_owned();
    }
    let n = ip.unicode_len();
    let mut r = String::new();
    for i in 0..n
        invariant
            n as nat == ip@.len(),
            r@ == ip@.take(i as int).map_values(|c: char| spec_scrub_char(c)),
    {
        let c = ip.get_char(i);
        let out = if c == '.' || c == ':' {
            c
        } else {
            'x'
        };
        push_char(&mut r, out);
        proof {
            assert(r@ =~= ip@.take(i as int + 1).map_values(|c: char| spec_scrub_char(c)));
        }
    }
    proof {
        assert(ip@.take(n as int) =~= ip@);
    }
    r
}

} // verus!
