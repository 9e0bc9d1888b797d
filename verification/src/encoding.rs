//! Byte-level encodings the relay depends on: RFC 3986 percent-encoding of
//! parameter keys and values (verified against a functional specification),
//! decimal rendering of integers, and base64 of media bytes (an outside
//! call, named).
use vstd::prelude::*;
use vstd::string::StringSliceAdditionalSpecFns;

verus! {

/// A byte is unreserved per RFC 3986 section 2.3: ASCII letters, digits,
/// `-`, `.`, `_` and `~`. Every other byte is percent-encoded.
pub open spec fn is_unreserved(b: u8) -> bool {
    ||| (65 <= b <= 90)
    ||| (97 <= b <= 122)
    ||| (48 <= b <= 57)
    ||| b == 45
    ||| b == 46
    ||| b == 95
    ||| b == 126
}

/// The upper-case hex digit for a nibble.
pub open spec fn hex_of(n: u8) -> u8 {
    if n < 10 {
        (48 + n) as u8
    } else {
        (55 + n) as u8
    }
}

/// The percent-encoding of one byte: itself if unreserved, else `%` and two
/// upper-case hex digits.
pub open spec fn pe_byte(b: u8) -> Seq<u8> {
    if is_unreserved(b) {
        seq![b]
    } else {
        seq![37u8, hex_of(b / 16), hex_of(b % 16)]
    }
}

/// The percent-encoding of a byte string.
pub open spec fn pe_of(s: Seq<u8>) -> Seq<u8>
    decreases s.len(),
{
    if s.len() == 0 {
        Seq::empty()
    } else {
        pe_byte(s[0]) + pe_of(s.drop_first())
    }
}

/// Percent-encoding distributes over concatenation.
pub proof fn lemma_pe_of_concat(a: Seq<u8>, b: Seq<u8>)
    ensures
        pe_of(a + b) == pe_of(a) + pe_of(b),
    decreases a.len(),
{
    if a.len() == 0 {
        assert(a + b =~= b);
        assert(pe_of(a) =~= Seq::empty());
        assert(pe_of(a) + pe_of(b) =~= pe_of(b));
    } else {
        assert((a + b).drop_first() =~= a.drop_first() + b);
        lemma_pe_of_concat(a.drop_first(), b);
        assert(pe_of(a + b) =~= pe_byte(a[0]) + (pe_of(a.drop_first()) + pe_of(b)));
        assert(pe_byte(a[0]) + (pe_of(a.drop_first()) + pe_of(b)) =~= (pe_byte(a[0]) + pe_of(
            a.drop_first(),
        )) + pe_of(b));
    }
}

/// Appending one byte extends the encoding by that byte's encoding.
pub proof fn lemma_pe_of_push(s: Seq<u8>, b: u8)
    ensures
        pe_of(s.push(b)) == pe_of(s) + pe_byte(b),
{
    assert(s.push(b) =~= s + seq![b]);
    lemma_pe_of_concat(s, seq![b]);
    assert(seq![b].drop_first() =~= Seq::<u8>::empty());
    assert(pe_of(seq![b]) =~= pe_byte(b) + pe_of(Seq::<u8>::empty()));
    assert(pe_byte(b) + pe_of(Seq::<u8>::empty()) =~= pe_byte(b));
}

/// The upper-case hex digit for a nibble.
fn hex_digit(n: u8) -> (r: u8)
    requires
        n < 16,
    ensures
        r == hex_of(n),
{
    if n < 10 {
        48 + n
    } else {
        55 + n
    }
}

/// Percent-encode a byte string per RFC 3986.
pub fn percent_encode(s: &[u8]) -> (r: Vec<u8>)
    ensures
        r@ == pe_of(s@),
{
    let mut out: Vec<u8> = Vec::new();
    let mut i: usize = 0;
    while i < s.len()
        invariant
            i <= s@.len(),
            out@ == pe_of(s@.take(i as int)),
        decreases s@.len() - i,
    {
        let b = *vstd::slice::slice_index_get(s, i);
        let unreserved = (65 <= b && b <= 90) || (97 <= b && b <= 122) || (48 <= b && b <= 57) || b
            == 45 || b == 46 || b == 95 || b == 126;
        if unreserved {
            out.push(b);
        } else {
            out.push(37);
            out.push(hex_digit(b / 16));
            out.push(hex_digit(b % 16));
        }
        proof {
            lemma_pe_of_push(s@.take(i as int), s@[i as int]);
            assert(s@.take(i as int).push(s@[i as int]) =~= s@.take(i + 1));
        }
        i += 1;
    }
    proof {
        assert(s@.take(s@.len() as int) =~= s@);
    }
    out
}

/// The decimal digits of a natural number, most significant first.
pub open spec fn dec_of(n: nat) -> Seq<u8>
    decreases n,
{
    if n < 10 {
        seq![(48 + n) as u8]
    } else {
        dec_of(n / 10) + seq![(48 + n % 10) as u8]
    }
}

/// Render an integer in decimal, as bytes.
pub fn u64_to_dec(n: u64) -> (r: Vec<u8>)
    ensures
        r@ == dec_of(n as nat),
    decreases n,
{
    if n < 10 {
        let mut v: Vec<u8> = Vec::new();
        v.push(48 + n as u8);
        proof {
            assert(v@ =~= dec_of(n as nat));
        }
        v
    } else {
        let mut v = u64_to_dec(n / 10);
        v.push(48 + (n % 10) as u8);
        proof {
            assert(v@ =~= dec_of(n as nat));
        }
        v
    }
}

/// The UTF-8 bytes of a string, copied into an owned vector.
pub fn str_bytes(s: &str) -> (r: Vec<u8>)
    ensures
        r@ == s.spec_bytes(),
{
    vstd::slice::slice_to_vec(s.as_bytes())
}

/// What the base64 crate's standard encoding returns for a byte string: the
/// standard alphabet with `=` padding, a pure function of the input bytes.
pub uninterp spec fn b64_of(s: Seq<u8>) -> Seq<u8>;

/// Relies on base64::encode, which renders the input in the standard base64
/// alphabet with padding; the result depends on the input bytes alone, and
/// an empty input gives an empty string.
#[verifier::external_body]
pub fn base64_encode(s: &[u8]) -> (r: Vec<u8>)
    ensures
        r@ == b64_of(s@),
        s@.len() == 0 ==> r@.len() == 0,
{
    base64::encode(s).into_bytes()
}

} // verus!
