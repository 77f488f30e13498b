use vstd::prelude::*;
use vstd::utf8::encode_utf8;

verus! {

/// The base64 alphabet: `A`-`Z`, `a`-`z`, `0`-`9`, `+`, `/`.
pub open spec fn b64_alphabet() -> Seq<char> {
    seq![
        'A', 'B', 'C', 'D', 'E', 'F', 'G', 'H', 'I', 'J', 'K', 'L', 'M', 'N', 'O', 'P', 'Q', 'R', 'S',
        'T', 'U', 'V', 'W', 'X', 'Y', 'Z', 'a', 'b', 'c', 'd', 'e', 'f', 'g', 'h', 'i', 'j', 'k', 'l',
        'm', 'n', 'o', 'p', 'q', 'r', 's', 't', 'u', 'v', 'w', 'x', 'y', 'z', '0', '1', '2', '3', '4',
        '5', '6', '7', '8', '9', '+', '/',
    ]
}

/// The four characters that encode three bytes.
pub open spec fn b64_quad(a: u8, b: u8, c: u8) -> Seq<char> {
    let t = b64_alphabet();
    let (a, b, c) = (a as int, b as int, c as int);
    seq![t[a / 4], t[(a % 4) * 16 + b / 16], t[(b % 16) * 4 + c / 64], t[c % 64]]
}

/// The encoding of a whole number of three-byte groups.
pub open spec fn b64_groups(s: Seq<u8>) -> Seq<char>
    decreases s.len(),
{
    if s.len() < 3 {
        Seq::empty()
    } else {
        let n = s.len() as int;
        b64_groups(s.subrange(0, n - 3)) + b64_quad(s[n - 3], s[n - 2], s[n - 1])
    }
}

/// The encoding of the last one or two bytes, padded with `=`.
pub open spec fn b64_tail(s: Seq<u8>) -> Seq<char> {
    let t = b64_alphabet();
    if s.len() == 1 {
        let x = s[0] as int;
        seq![t[x / 4], t[(x % 4) * 16], '=', '=']
    } else if s.len() == 2 {
        let (x, y) = (s[0] as int, s[1] as int);
        seq![t[x / 4], t[(x % 4) * 16 + y / 16], t[(y % 16) * 4], '=']
    } else {
        Seq::empty()
    }
}

/// Standard base64 (with padding) of a byte sequence.
pub open spec fn base64(s: Seq<u8>) -> Seq<char> {
    let full = s.len() - s.len() % 3;
    b64_groups(s.subrange(0, full)) + b64_tail(s.subrange(full, s.len() as int))
}

fn b64_char(v: u8) -> (r: char)
    requires
        v < 64,
    ensures
        r == b64_alphabet()[v as int],
{
    let t: [char; 64] = [
        'A', 'B', 'C', 'D', 'E', 'F', 'G', 'H', 'I', 'J', 'K', 'L', 'M', 'N', 'O', 'P', 'Q', 'R', 'S',
        'T', 'U', 'V', 'W', 'X', 'Y', 'Z', 'a', 'b', 'c', 'd', 'e', 'f', 'g', 'h', 'i', 'j', 'k', 'l',
        'm', 'n', 'o', 'p', 'q', 'r', 's', 't', 'u', 'v', 'w', 'x', 'y', 'z', '0', '1', '2', '3', '4',
        '5', '6', '7', '8', '9', '+', '/',
    ];
    assert(t@ =~= b64_alphabet());
    t[v as usize]
}

/// Relies on String::push: appends one character.
#[verifier::external_body]
pub(crate) fn push_char(s: &mut String, c: char)
    ensures
        final(s)@ == old(s)@.push(c),
{
    s.push(c)
}

/// Appends the standard base64 (with padding) of a byte sequence.
pub fn base64_encode(out: &mut String, b: &[u8])
    ensures
        final(out)@ == old(out)@ + base64(b@),
{
    let n = b.len();
    let full = n - n % 3;
    let ghost start = out@;
    let mut i: usize = 0;
    while i < full
        invariant
            n == b@.len(),
            full == n - n % 3,
            i <= full,
            i % 3 == 0,
            out@ == start + b64_groups(b@.subrange(0, i as int)),
        decreases full - i,
    {
        let x = b[i];
        let y = b[i + 1];
        let z = b[i + 2];
        push_char(out, b64_char(x / 4));
        push_char(out, b64_char((x % 4) * 16 + y / 16));
        push_char(out, b64_char((y % 16) * 4 + z / 64));
        push_char(out, b64_char(z % 64));
        proof {
            let s = b@.subrange(0, i + 3);
            assert(s.subrange(0, i as int) =~= b@.subrange(0, i as int));
            assert(s[i as int] == x && s[i + 1] == y && s[i + 2] == z);
            assert(out@ =~= start + b64_groups(s));
        }
        i = i + 3;
    }
    let ghost head = out@;
    if n - full == 1 {
        let x = b[full];
        push_char(out, b64_char(x / 4));
        push_char(out, b64_char((x % 4) * 16));
        push_char(out, '=');
        push_char(out, '=');
    } else if n - full == 2 {
        let x = b[full];
        let y = b[full + 1];
        push_char(out, b64_char(x / 4));
        push_char(out, b64_char((x % 4) * 16 + y / 16));
        push_char(out, b64_char((y % 16) * 4));
        push_char(out, '=');
    }
    proof {
        let tail = b@.subrange(full as int, n as int);
        if n - full == 1 {
            assert(tail[0] == b@[full as int]);
        } else if n - full == 2 {
            assert(tail[0] == b@[full as int]);
            assert(tail[1] == b@[full + 1]);
        }
        assert(out@ =~= head + b64_tail(tail));
    }
}

/// The value of a `Basic` `Authorization` header for a client id and secret.
pub open spec fn spec_basic_authorization(id: Seq<char>, secret: Seq<char>) -> Seq<char> {
    "Basic "@ + base64(encode_utf8(id + ":"@ + secret))
}

/// Builds the `Basic` `Authorization` value that authenticates a client
/// (id and secret) to the token endpoint.
pub fn basic_authorization(id: &str, secret: &str) -> (r: String)
    ensures
        r@ == spec_basic_authorization(id@, secret@),
{
    let mut creds = String::from_str(id);
    creds.append(":");
    creds.append(secret);
    let mut out = String::from_str("Basic ");
    base64_encode(&mut out, creds.as_str().as_bytes());
    out
}

} // verus!
