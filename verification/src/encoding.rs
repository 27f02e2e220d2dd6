//! Percent-encoding of URI paths and query values, byte-exact per RFC
//! 3986: the unreserved bytes `A-Z a-z 0-9 - . _ ~` pass through, every
//! other byte becomes `%XX` with uppercase hex digits, and a slash is
//! kept or encoded depending on whether the input is a path.

use vstd::prelude::*;

verus! {

/// The uppercase hex digit for a value below 16.
pub open spec fn hex_upper_digit(n: u8) -> u8
    recommends
        n < 16,
{
    if n < 10 {
        (0x30 + n) as u8
    } else {
        (0x41 + (n - 10)) as u8
    }
}

/// The lowercase hex digit for a value below 16.
pub open spec fn hex_lower_digit(n: u8) -> u8
    recommends
        n < 16,
{
    if n < 10 {
        (0x30 + n) as u8
    } else {
        (0x61 + (n - 10)) as u8
    }
}

/// The bytes that RFC 3986 leaves unencoded.
pub open spec fn is_unreserved(b: u8) -> bool {
    (0x41 <= b <= 0x5a)  // A-Z
     || (0x61 <= b <= 0x7a)  // a-z
     || (0x30 <= b <= 0x39)  // 0-9
     || b == 0x2d  // -
     || b == 0x2e  // .
     || b == 0x5f  // _
     || b == 0x7e  // ~

}

/// The encoding of one byte: itself if unreserved (or a kept slash),
/// otherwise a three-byte `%XX` escape.
pub open spec fn encode_byte(b: u8, encode_slash: bool) -> Seq<u8> {
    if is_unreserved(b) || (b == 0x2f && !encode_slash) {
        seq![b]
    } else {
        seq![0x25u8, hex_upper_digit(b / 16), hex_upper_digit(b % 16)]
    }
}

/// The percent-encoding of a whole byte string.
pub open spec fn spec_uri_encode(s: Seq<u8>, encode_slash: bool) -> Seq<u8>
    decreases s.len(),
{
    if s.len() == 0 {
        Seq::empty()
    } else {
        encode_byte(s[0], encode_slash) + spec_uri_encode(s.skip(1), encode_slash)
    }
}

/// Encoding one more byte extends the encoding of the prefix.
pub proof fn lemma_uri_encode_snoc(s: Seq<u8>, b: u8, encode_slash: bool)
    ensures
        spec_uri_encode(s.push(b), encode_slash) == spec_uri_encode(s, encode_slash) + encode_byte(
            b,
            encode_slash,
        ),
    decreases s.len(),
{
    if s.len() == 0 {
        assert(s.push(b).skip(1) =~= s);
        assert(spec_uri_encode(s.push(b), encode_slash) =~= spec_uri_encode(s, encode_slash)
            + encode_byte(b, encode_slash));
    } else {
        assert(s.push(b).skip(1) =~= s.skip(1).push(b));
        lemma_uri_encode_snoc(s.skip(1), b, encode_slash);
        assert(spec_uri_encode(s.push(b), encode_slash) =~= spec_uri_encode(s, encode_slash)
            + encode_byte(b, encode_slash));
    }
}

/// Percent-encodes a byte string for use in a signed URI.
///
/// With `encode_slash` false the slash is kept, as a canonical URI path
/// requires; with it true every reserved byte is escaped, as a query
/// key or value requires.
pub fn aws_uri_encode(input: &[u8], encode_slash: bool) -> (r: Vec<u8>)
    ensures
        r@ == spec_uri_encode(input@, encode_slash),
{
    let mut out: Vec<u8> = Vec::new();
    let n = input.len();
    let mut i: usize = 0;
    proof {
        assert(input@.subrange(0, 0) =~= Seq::<u8>::empty());
    }
    while i < n
        invariant
            i <= n,
            n == input@.len(),
            out@ == spec_uri_encode(input@.subrange(0, i as int), encode_slash),
        decreases n - i,
    {
        let b = input[i];
        if (0x41 <= b && b <= 0x5a) || (0x61 <= b && b <= 0x7a) || (0x30 <= b && b <= 0x39) || b
            == 0x2d || b == 0x2e || b == 0x5f || b == 0x7e || (b == 0x2f && !encode_slash) {
            out.push(b);
        } else {
            out.push(0x25);
            let hi = b / 16;
            let lo = b % 16;
            out.push(if hi < 10 { 0x30 + hi } else { 0x41 + (hi - 10) });
            out.push(if lo < 10 { 0x30 + lo } else { 0x41 + (lo - 10) });
        }
        proof {
            lemma_uri_encode_snoc(input@.subrange(0, i as int), input@[i as int], encode_slash);
            assert(input@.subrange(0, i + 1) =~= input@.subrange(0, i as int).push(
                input@[i as int],
            ));
            assert(out@ =~= spec_uri_encode(input@.subrange(0, i + 1), encode_slash));
        }
        i = i + 1;
    }
    proof {
        assert(input@.subrange(0, n as int) =~= input@);
    }
    out
}

/// Percent-encodes a URI path, keeping the slashes that separate its
/// segments.
pub fn uri_encode_path(path: &[u8]) -> (r: Vec<u8>)
    ensures
        r@ == spec_uri_encode(path@, false),
{
    aws_uri_encode(path, false)
}

/// The lowercase hex rendering of a byte string, two digits per byte.
pub open spec fn spec_hex_lower(s: Seq<u8>) -> Seq<u8>
    decreases s.len(),
{
    if s.len() == 0 {
        Seq::empty()
    } else {
        seq![hex_lower_digit(s[0] / 16), hex_lower_digit(s[0] % 16)] + spec_hex_lower(s.skip(1))
    }
}

/// The hex rendering is twice as long as its input.
pub proof fn lemma_hex_lower_len(s: Seq<u8>)
    ensures
        spec_hex_lower(s).len() == 2 * s.len(),
    decreases s.len(),
{
    if s.len() > 0 {
        lemma_hex_lower_len(s.skip(1));
    }
}

} // verus!
