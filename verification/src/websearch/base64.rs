//! Standard Base64 with padding.
use vstd::prelude::*;

verus! {

/// The character of the sextet `n`, in the order `A-Z`, `a-z`, `0-9`, `+`, `/`.
pub open spec fn sextet_char(n: int) -> char {
    if n < 26 {
        ('A' as int + n) as char
    } else if n < 52 {
        ('a' as int + (n - 26)) as char
    } else if n < 62 {
        ('0' as int + (n - 52)) as char
    } else if n == 62 {
        '+'
    } else {
        '/'
    }
}

/// The sextet that a character stands for; a padding character counts as zero.
pub open spec fn sextet(c: char) -> int {
    if 'A' <= c <= 'Z' {
        c as int - 'A' as int
    } else if 'a' <= c <= 'z' {
        c as int - 'a' as int + 26
    } else if '0' <= c <= '9' {
        c as int - '0' as int + 52
    } else if c == '+' {
        62
    } else if c == '/' {
        63
    } else {
        0
    }
}

/// The 24 bits of three bytes, the first byte the most significant.
pub open spec fn group(b0: u8, b1: u8, b2: u8) -> int {
    b0 * 65536 + b1 * 256 + b2
}

/// The four characters of a group of 24 bits.
pub open spec fn quad(n: int) -> Seq<char> {
    seq![
        sextet_char(n / 262144),
        sextet_char(n / 4096 % 64),
        sextet_char(n / 64 % 64),
        sextet_char(n % 64),
    ]
}

/// The encoding of a byte sequence: every three bytes become four characters; one or two bytes at
/// the end are filled up with zero bits, and what they do not reach is `=`.
pub open spec fn base64(bytes: Seq<u8>) -> Seq<char>
    decreases bytes.len(),
{
    if bytes.len() == 0 {
        seq![]
    } else if bytes.len() == 1 {
        quad(group(bytes[0], 0, 0)).take(2) + seq!['=', '=']
    } else if bytes.len() == 2 {
        quad(group(bytes[0], bytes[1], 0)).take(3) + seq!['=']
    } else {
        quad(group(bytes[0], bytes[1], bytes[2])) + base64(bytes.skip(3))
    }
}

/// The bytes that an encoding stands for.
pub open spec fn base64_bytes(text: Seq<char>) -> Seq<u8>
    decreases text.len(),
{
    if text.len() < 4 {
        seq![]
    } else {
        let n = sextet(text[0]) * 262144 + sextet(text[1]) * 4096 + sextet(text[2]) * 64 + sextet(
            text[3],
        );
        let b = seq![(n / 65536) as u8, (n / 256 % 256) as u8, (n % 256) as u8];
        let known: int = if text[2] == '=' {
            1
        } else if text[3] == '=' {
            2
        } else {
            3
        };
        b.take(known) + base64_bytes(text.skip(4))
    }
}

/// The character of the sextet `n`.
fn char_of_sextet(n: u32) -> (r: char)
    requires
        n < 64,
    ensures
        r == sextet_char(n as int),
{
    let d: u8 = n as u8;
    if d < 26 {
        (65u8 + d) as char
    } else if d < 52 {
        (97u8 + (d - 26)) as char
    } else if d < 62 {
        (48u8 + (d - 52)) as char
    } else if d == 62 {
        '+'
    } else {
        '/'
    }
}

/// Encodes the bytes.
pub fn base64_encode(input: &[u8]) -> (r: String)
    ensures
        r@ == base64(input@),
{
    let mut out = String::new();
    let mut i: usize = 0;
    let n: usize = input.len();
    assert(input@.skip(0) == input@);
    while i < n
        invariant
            n == input@.len(),
            i <= n,
            base64(input@) == out@ + base64(input@.skip(i as int)),
        decreases n - i,
    {
        let ghost before = out@;
        let ghost rest = input@.skip(i as int);
        let left: usize = n - i;
        let b0: u32 = input[i] as u32;
        let b1: u32 = if left > 1 {
            input[i + 1] as u32
        } else {
            0
        };
        let b2: u32 = if left > 2 {
            input[i + 2] as u32
        } else {
            0
        };
        let g: u32 = b0 * 65536 + b1 * 256 + b2;
        out.push(char_of_sextet(g / 262144));
        out.push(char_of_sextet(g / 4096 % 64));
        if left > 1 {
            out.push(char_of_sextet(g / 64 % 64));
        } else {
            out.push('=');
        }
        if left > 2 {
            out.push(char_of_sextet(g % 64));
        } else {
            out.push('=');
        }
        proof {
            let piece = out@.skip(before.len() as int);
            assert(out@ == before + piece);
            if left > 2 {
                assert(g == group(rest[0], rest[1], rest[2]));
                assert(piece == quad(g as int));
                assert(rest.skip(3) == input@.skip(i + 3));
                assert(base64(rest) == piece + base64(input@.skip(i + 3)));
            } else {
                if left == 2 {
                    assert(g == group(rest[0], rest[1], 0));
                    assert(piece == quad(g as int).take(3) + seq!['=']);
                } else {
                    assert(g == group(rest[0], 0, 0));
                    assert(piece == quad(g as int).take(2) + seq!['=', '=']);
                }
                assert(base64(rest) == piece);
                assert(base64(input@.skip(n as int)) == Seq::<char>::empty());
            }
        }
        i = if left > 2 {
            i + 3
        } else {
            n
        };
    }
    out
}

/// A sextet survives being written as a character.
proof fn lemma_sextet(n: int)
    requires
        0 <= n < 64,
    ensures
        sextet(sextet_char(n)) == n,
        sextet_char(n) != '=',
{
}

/// 24 bits are put together from their sextets.
proof fn lemma_sextets(n: int)
    requires
        0 <= n < 16777216,
    ensures
        n == (n / 262144) * 262144 + (n / 4096 % 64) * 4096 + (n / 64 % 64) * 64 + n % 64,
        0 <= n / 262144 < 64,
{
    let q1 = n / 64;
    let q2 = q1 / 64;
    assert(n / 4096 == q2);
    assert(n / 262144 == q2 / 64);
}

/// 24 bits fall apart into the bytes that they were made of.
proof fn lemma_group(b0: u8, b1: u8, b2: u8)
    ensures
        0 <= group(b0, b1, b2) < 16777216,
        group(b0, b1, b2) / 65536 == b0,
        group(b0, b1, b2) / 256 % 256 == b1,
        group(b0, b1, b2) % 256 == b2,
        b2 == 0 ==> group(b0, b1, b2) % 64 == 0,
        b1 == 0 && b2 == 0 ==> group(b0, b1, b2) / 64 % 64 == 0,
{
    let n = group(b0, b1, b2);
    assert(n / 256 == b0 * 256 + b1);
}

/// An encoding can be read back: it stands for the bytes that were encoded.
pub proof fn law_base64_can_be_read_back(bytes: Seq<u8>)
    ensures
        base64_bytes(base64(bytes)) == bytes,
    decreases bytes.len(),
{
    let text = base64(bytes);
    if bytes.len() > 0 {
        let b1 = if bytes.len() > 1 {
            bytes[1]
        } else {
            0
        };
        let b2 = if bytes.len() > 2 {
            bytes[2]
        } else {
            0
        };
        let n = group(bytes[0], b1, b2);
        lemma_group(bytes[0], b1, b2);
        lemma_sextets(n);
        lemma_sextet(n / 262144);
        lemma_sextet(n / 4096 % 64);
        lemma_sextet(n / 64 % 64);
        lemma_sextet(n % 64);
        if bytes.len() >= 3 {
            law_base64_can_be_read_back(bytes.skip(3));
            assert(text.skip(4) == base64(bytes.skip(3)));
            assert(base64_bytes(text) == bytes.take(3) + bytes.skip(3));
        } else {
            assert(base64_bytes(text.skip(4)) == Seq::<u8>::empty());
            assert(base64_bytes(text) == bytes);
        }
    }
}

/// The encodings of two byte sequences are the same only where the sequences are.
pub proof fn law_base64_is_injective(a: Seq<u8>, b: Seq<u8>)
    requires
        base64(a) == base64(b),
    ensures
        a == b,
{
    law_base64_can_be_read_back(a);
    law_base64_can_be_read_back(b);
}

/// An encoding has four characters for every three bytes begun.
pub proof fn law_base64_length(bytes: Seq<u8>)
    ensures
        base64(bytes).len() == (bytes.len() + 2) / 3 * 4,
    decreases bytes.len(),
{
    if bytes.len() >= 3 {
        law_base64_length(bytes.skip(3));
    }
}

/// Padding stands only at the end: at most two characters, and as many as there are bytes missing
/// to a full group.
pub proof fn law_base64_padding_is_at_the_end(bytes: Seq<u8>, i: int)
    requires
        0 <= i < base64(bytes).len(),
    ensures
        base64(bytes)[i] == '=' <==> i >= base64(bytes).len() - (3 - bytes.len() % 3) % 3,
    decreases bytes.len(),
{
    law_base64_length(bytes);
    let b1 = if bytes.len() > 1 {
        bytes[1]
    } else {
        0
    };
    let b2 = if bytes.len() > 2 {
        bytes[2]
    } else {
        0
    };
    let n = group(bytes[0], b1, b2);
    lemma_group(bytes[0], b1, b2);
    lemma_sextets(n);
    lemma_sextet(n / 262144);
    lemma_sextet(n / 4096 % 64);
    lemma_sextet(n / 64 % 64);
    lemma_sextet(n % 64);
    if bytes.len() >= 3 && i >= 4 {
        law_base64_length(bytes.skip(3));
        assert(base64(bytes)[i] == base64(bytes.skip(3))[i - 4]);
        law_base64_padding_is_at_the_end(bytes.skip(3), i - 4);
    }
}

/// The six bits that a character of the alphabet `A-Z`, `a-z`, `0-9`, `+`, `/` stands for.
pub open spec fn stands_for(c: char, bits: int) -> bool {
    ||| 0 <= bits < 26 && c as int == 'A' as int + bits
    ||| 26 <= bits < 52 && c as int == 'a' as int + bits - 26
    ||| 52 <= bits < 62 && c as int == '0' as int + bits - 52
    ||| bits == 62 && c == '+'
    ||| bits == 63 && c == '/'
}

/// Groups are taken from the front: every three bytes become four characters, at the place that
/// the bytes have, which stand for the bits of the bytes in their order.
pub proof fn law_base64_groups_are_in_order(bytes: Seq<u8>, i: int)
    requires
        0 <= i,
        3 * i + 3 <= bytes.len(),
    ensures
        ({
            let text = base64(bytes);
            let (x, y, z) = (bytes[3 * i] as int, bytes[3 * i + 1] as int, bytes[3 * i + 2] as int);
            &&& 4 * i + 4 <= text.len()
            &&& stands_for(text[4 * i], x / 4)
            &&& stands_for(text[4 * i + 1], x % 4 * 16 + y / 16)
            &&& stands_for(text[4 * i + 2], y % 16 * 4 + z / 64)
            &&& stands_for(text[4 * i + 3], z % 64)
        }),
{
    lemma_quad_at(bytes, i);
    let piece = base64(bytes).subrange(4 * i, 4 * i + 4);
    lemma_bits(bytes[3 * i], bytes[3 * i + 1], bytes[3 * i + 2]);
    assert(piece[0] == base64(bytes)[4 * i]);
    assert(piece[1] == base64(bytes)[4 * i + 1]);
    assert(piece[2] == base64(bytes)[4 * i + 2]);
    assert(piece[3] == base64(bytes)[4 * i + 3]);
}

/// The characters of the group `i` are those of its bytes.
proof fn lemma_quad_at(bytes: Seq<u8>, i: int)
    requires
        0 <= i,
        3 * i + 3 <= bytes.len(),
    ensures
        4 * i + 4 <= base64(bytes).len(),
        base64(bytes).subrange(4 * i, 4 * i + 4) == quad(
            group(bytes[3 * i], bytes[3 * i + 1], bytes[3 * i + 2]),
        ),
    decreases i,
{
    let text = base64(bytes);
    let head = quad(group(bytes[0], bytes[1], bytes[2]));
    let rest = bytes.skip(3);
    assert(text == head + base64(rest));
    if i > 0 {
        lemma_quad_at(rest, i - 1);
        assert(text.subrange(4 * i, 4 * i + 4) =~= base64(rest).subrange(
            4 * (i - 1),
            4 * (i - 1) + 4,
        ));
    } else {
        assert(text.subrange(0, 4) =~= head);
    }
}

/// The last four characters are those of the bytes that are left.
proof fn lemma_last_quad(bytes: Seq<u8>, full: int)
    requires
        0 <= full,
        3 * full < bytes.len() < 3 * full + 3,
    ensures
        base64(bytes).len() == 4 * full + 4,
        base64(bytes).skip(4 * full) == base64(bytes.skip(3 * full)),
    decreases full,
{
    if full > 0 {
        let rest = bytes.skip(3);
        lemma_last_quad(rest, full - 1);
        let head = quad(group(bytes[0], bytes[1], bytes[2]));
        assert(base64(bytes) == head + base64(rest));
        assert(base64(bytes).skip(4 * full) =~= base64(rest).skip(4 * (full - 1)));
        assert(rest.skip(3 * (full - 1)) =~= bytes.skip(3 * full));
    } else {
        assert(bytes.skip(0) =~= bytes);
        assert(base64(bytes).skip(0) =~= base64(bytes));
    }
}

/// One or two bytes that are left at the end become the last four characters: those that stand for
/// their bits, filled up with zeros, and then padding.
pub proof fn law_base64_rest_is_at_the_end(bytes: Seq<u8>)
    requires
        bytes.len() % 3 != 0,
    ensures
        ({
            let text = base64(bytes);
            let n = text.len() as int;
            let m = bytes.len() as int;
            &&& n >= 4
            &&& m % 3 == 1 ==> {
                let x = bytes[m - 1] as int;
                &&& stands_for(text[n - 4], x / 4)
                &&& stands_for(text[n - 3], x % 4 * 16)
                &&& text[n - 2] == '='
                &&& text[n - 1] == '='
            }
            &&& m % 3 == 2 ==> {
                let (x, y) = (bytes[m - 2] as int, bytes[m - 1] as int);
                &&& stands_for(text[n - 4], x / 4)
                &&& stands_for(text[n - 3], x % 4 * 16 + y / 16)
                &&& stands_for(text[n - 2], y % 16 * 4)
                &&& text[n - 1] == '='
            }
        }),
{
    let text = base64(bytes);
    let m = bytes.len() as int;
    let full = m / 3;
    lemma_last_quad(bytes, full);
    let left = bytes.skip(3 * full);
    let tail = base64(left);
    let n = text.len() as int;
    assert(text[n - 4] == tail[0]);
    assert(text[n - 3] == tail[1]);
    assert(text[n - 2] == tail[2]);
    assert(text[n - 1] == tail[3]);
    if left.len() == 1 {
        lemma_bits(left[0], 0, 0);
    } else {
        lemma_bits(left[0], left[1], 0);
    }
}

/// The characters of a group stand for the bits of its bytes.
proof fn lemma_bits(b0: u8, b1: u8, b2: u8)
    ensures
        ({
            let text = quad(group(b0, b1, b2));
            let (x, y, z) = (b0 as int, b1 as int, b2 as int);
            &&& stands_for(text[0], x / 4)
            &&& stands_for(text[1], x % 4 * 16 + y / 16)
            &&& stands_for(text[2], y % 16 * 4 + z / 64)
            &&& stands_for(text[3], z % 64)
        }),
{
    let n = group(b0, b1, b2);
    let (x, y, z) = (b0 as int, b1 as int, b2 as int);
    lemma_group(b0, b1, b2);
    lemma_sextets(n);
    assert(n / 64 == x * 1024 + y * 4 + z / 64);
    assert(n / 4096 == x * 16 + y / 16);
    assert(n / 262144 == x / 4);
    assert(n / 4096 % 64 == x % 4 * 16 + y / 16);
    assert(n / 64 % 64 == y % 16 * 4 + z / 64);
    assert(n % 64 == z % 64);
}

} // verus!
