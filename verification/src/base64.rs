//! The base64 alphabet for URLs, without padding, in which the parts of a JSON Web
//! Token are written.
use vstd::prelude::*;

verus! {

/// The character that stands for six bits.
pub open spec fn b64_char(sextet: int) -> char {
    if sextet < 26 {
        (sextet + 65) as char
    } else if sextet < 52 {
        (sextet + 71) as char
    } else if sextet < 62 {
        (sextet - 4) as char
    } else if sextet == 62 {
        '-'
    } else {
        '_'
    }
}

/// Bytes in the alphabet: four characters for each three bytes, and two or three
/// characters for one or two bytes at the end.
pub open spec fn b64url(bytes: Seq<u8>) -> Seq<char>
    decreases bytes.len(),
{
    if bytes.len() == 0 {
        Seq::empty()
    } else if bytes.len() == 1 {
        seq![b64_char(bytes[0] as int / 4), b64_char(bytes[0] as int % 4 * 16)]
    } else if bytes.len() == 2 {
        seq![
            b64_char(bytes[0] as int / 4),
            b64_char(bytes[0] as int % 4 * 16 + bytes[1] as int / 16),
            b64_char(bytes[1] as int % 16 * 4),
        ]
    } else {
        seq![
            b64_char(bytes[0] as int / 4),
            b64_char(bytes[0] as int % 4 * 16 + bytes[1] as int / 16),
            b64_char(bytes[1] as int % 16 * 4 + bytes[2] as int / 64),
            b64_char(bytes[2] as int % 64),
        ] + b64url(bytes.skip(3))
    }
}

/// The six bits that a character of the alphabet stands for.
fn sextet_of(c: char) -> (sextet: u8)
    ensures
        sextet < 64,
        forall|k: int| 0 <= k < 64 && c == #[trigger] b64_char(k) ==> sextet == k,
{
    let n: u32 = c as u32;
    if 65 <= n && n <= 90 {
        (n - 65) as u8
    } else if 97 <= n && n <= 122 {
        (n - 71) as u8
    } else if 48 <= n && n <= 57 {
        (n + 4) as u8
    } else if n == 45 {
        62
    } else {
        63
    }
}

/// The alphabet, in its order.
pub proof fn law_alphabet(sextet: int)
    requires
        0 <= sextet < 64,
    ensures
        b64_char(sextet)
            == "ABCDEFGHIJKLMNOPQRSTUVWXYZabcdefghijklmnopqrstuvwxyz0123456789-_"@[sextet],
{
    reveal_strlit("ABCDEFGHIJKLMNOPQRSTUVWXYZabcdefghijklmnopqrstuvwxyz0123456789-_");
}

/// What follows the first three bytes follows the first four characters.
proof fn lemma_b64url_rest(bytes: Seq<u8>)
    requires
        bytes.len() >= 3,
    ensures
        b64url(bytes).len() == 4 + b64url(bytes.skip(3)).len(),
        forall|j: int|
            4 <= j < b64url(bytes).len() ==> #[trigger] b64url(bytes)[j] == b64url(
                bytes.skip(3),
            )[j - 4],
{
}

/// How many characters there are.
proof fn lemma_b64url_size(bytes: Seq<u8>)
    ensures
        b64url(bytes).len() == (bytes.len() * 4 + 2) / 3,
    decreases bytes.len(),
{
    if bytes.len() >= 3 {
        lemma_b64url_rest(bytes);
        lemma_b64url_size(bytes.skip(3));
    }
}

/// Which characters each byte stands in, and how many characters there are.
pub proof fn law_b64url_positions(bytes: Seq<u8>, i: int)
    requires
        0 <= i < bytes.len(),
    ensures
        b64url(bytes).len() == (bytes.len() * 4 + 2) / 3,
        ({
            let text = b64url(bytes);
            let next = if i + 1 < bytes.len() {
                bytes[i + 1] as int
            } else {
                0
            };
            let q = i / 3;
            &&& i % 3 == 0 ==> text[4 * q] == b64_char(bytes[i] as int / 4)
            &&& i % 3 == 0 ==> text[4 * q + 1] == b64_char(bytes[i] as int % 4 * 16 + next / 16)
            &&& i % 3 == 1 ==> text[4 * q + 2] == b64_char(bytes[i] as int % 16 * 4 + next / 64)
            &&& i % 3 == 2 ==> text[4 * q + 3] == b64_char(bytes[i] as int % 64)
        }),
    decreases bytes.len(),
{
    lemma_b64url_size(bytes);
    if i >= 3 {
        let rest = bytes.skip(3);
        let q = i / 3;
        law_b64url_positions(rest, i - 3);
        lemma_b64url_rest(bytes);
        lemma_b64url_size(rest);
        assert((i - 3) / 3 == q - 1 && (i - 3) % 3 == i % 3);
        assert(rest[i - 3] == bytes[i]);
        if i + 1 < bytes.len() {
            assert(rest[i - 2] == bytes[i + 1]);
        }
        let text = b64url(bytes);
        let tail = b64url(rest);
        if i % 3 == 0 {
            assert(text[4 * q] == tail[4 * q - 4]);
            assert(text[4 * q + 1] == tail[4 * q - 3]);
        } else if i % 3 == 1 {
            assert(text[4 * q + 2] == tail[4 * q - 2]);
        } else {
            assert(text[4 * q + 3] == tail[4 * q - 1]);
        }
    }
}

/// Texts in the alphabet hold no dot.
pub proof fn lemma_b64url_has_no_dot(bytes: Seq<u8>)
    ensures
        !b64url(bytes).contains('.'),
    decreases bytes.len(),
{
    let text = b64url(bytes);
    assert forall|i: int| 0 <= i < text.len() implies text[i] != '.' by {
        assert(forall|k: int| 0 <= k < 64 ==> #[trigger] b64_char(k) != '.');
        if bytes.len() >= 3 {
            lemma_b64url_has_no_dot(bytes.skip(3));
            if i >= 4 {
                assert(text[i] == b64url(bytes.skip(3))[i - 4]);
                assert(b64url(bytes.skip(3)).contains(text[i]));
            }
        }
    }
}

/// Three bytes or more have four characters or more, two have three, one has two.
proof fn lemma_b64url_len(bytes: Seq<u8>)
    ensures
        bytes.len() >= 3 <==> b64url(bytes).len() >= 4,
        bytes.len() == 2 <==> b64url(bytes).len() == 3,
        bytes.len() == 1 <==> b64url(bytes).len() == 2,
        bytes.len() == 0 <==> b64url(bytes).len() == 0,
{
}

/// Three bytes, cut into six bits each and joined again.
proof fn lemma_sextets(b0: u8, b1: u8, b2: u8, v0: int, v1: int, v2: int, v3: int)
    requires
        v0 == b0 as int / 4,
        v1 == b0 as int % 4 * 16 + b1 as int / 16,
        v2 == b1 as int % 16 * 4 + b2 as int / 64,
        v3 == b2 as int % 64,
    ensures
        v0 * 4 + v1 / 16 == b0,
        v1 % 16 * 16 + v2 / 4 == b1,
        v2 % 4 * 64 + v3 == b2,
{
}

/// The first four characters fix the first three bytes.
proof fn lemma_first_group(a: Seq<u8>, b: Seq<u8>)
    requires
        a.len() >= 3,
        b.len() >= 3,
        b64url(a) == b64url(b),
    ensures
        a.take(3) == b.take(3),
{
    let x = b64url(a);
    let y = b64url(b);
    assert(x[0] == y[0] && x[1] == y[1] && x[2] == y[2] && x[3] == y[3]);
    lemma_b64_char(a[0] as int / 4, b[0] as int / 4);
    lemma_b64_char(
        a[0] as int % 4 * 16 + a[1] as int / 16,
        b[0] as int % 4 * 16 + b[1] as int / 16,
    );
    lemma_b64_char(
        a[1] as int % 16 * 4 + a[2] as int / 64,
        b[1] as int % 16 * 4 + b[2] as int / 64,
    );
    lemma_b64_char(a[2] as int % 64, b[2] as int % 64);
    assert(a[0] == b[0] && a[1] == b[1] && a[2] == b[2]);
    assert(a.take(3) =~= b.take(3));
}

/// Fewer than three bytes are fixed by their characters.
proof fn lemma_end_group(a: Seq<u8>, b: Seq<u8>)
    requires
        a.len() < 3,
        a.len() == b.len(),
        b64url(a) == b64url(b),
    ensures
        a == b,
{
    let x = b64url(a);
    let y = b64url(b);
    if a.len() == 1 {
        assert(x[0] == y[0] && x[1] == y[1]);
        lemma_b64_char(a[0] as int / 4, b[0] as int / 4);
        lemma_b64_char(a[0] as int % 4 * 16, b[0] as int % 4 * 16);
    }
    if a.len() == 2 {
        assert(x[0] == y[0] && x[1] == y[1] && x[2] == y[2]);
        lemma_b64_char(a[0] as int / 4, b[0] as int / 4);
        lemma_b64_char(
            a[0] as int % 4 * 16 + a[1] as int / 16,
            b[0] as int % 4 * 16 + b[1] as int / 16,
        );
        lemma_b64_char(a[1] as int % 16 * 4, b[1] as int % 16 * 4);
    }
    assert(a =~= b);
}

/// Different six bits have different characters.
proof fn lemma_b64_char(a: int, b: int)
    requires
        0 <= a < 64,
        0 <= b < 64,
        b64_char(a) == b64_char(b),
    ensures
        a == b,
{
}

/// Different bytes have different texts.
pub proof fn law_b64url_injective(a: Seq<u8>, b: Seq<u8>)
    requires
        b64url(a) == b64url(b),
    ensures
        a == b,
    decreases a.len(),
{
    lemma_b64url_len(a);
    lemma_b64url_len(b);
    if a.len() >= 3 {
        lemma_b64url_rest(a);
        lemma_b64url_rest(b);
        let x = b64url(a);
        assert(b64url(a.skip(3)) =~= x.skip(4)) by {
            assert forall|k: int| 0 <= k < x.len() - 4 implies b64url(a.skip(3))[k] == x.skip(
                4,
            )[k] by {
                assert(x[k + 4] == b64url(a.skip(3))[k]);
            }
        }
        assert(b64url(b.skip(3)) =~= x.skip(4)) by {
            assert forall|k: int| 0 <= k < x.len() - 4 implies b64url(b.skip(3))[k] == x.skip(
                4,
            )[k] by {
                assert(b64url(b)[k + 4] == b64url(b.skip(3))[k]);
            }
        }
        law_b64url_injective(a.skip(3), b.skip(3));
        lemma_first_group(a, b);
        assert(a =~= a.take(3) + a.skip(3));
        assert(b =~= b.take(3) + b.skip(3));
    } else {
        lemma_end_group(a, b);
    }
}

/// The three bytes that four characters stand for.
fn decode_group(c0: char, c1: char, c2: char, c3: char) -> (group: (u8, u8, u8))
    ensures
        forall|bytes: Seq<u8>|
            bytes.len() >= 3 && seq![c0, c1, c2, c3] == #[trigger] b64url(bytes).take(4) ==> group
                == (bytes[0], bytes[1], bytes[2]),
{
    let v0: u8 = sextet_of(c0);
    let v1: u8 = sextet_of(c1);
    let v2: u8 = sextet_of(c2);
    let v3: u8 = sextet_of(c3);
    assert(v0 * 4 + v1 / 16 < 256 && v1 % 16 * 16 + v2 / 4 < 256 && v2 % 4 * 64 + v3 < 256);
    let group = (v0 * 4 + v1 / 16, v1 % 16 * 16 + v2 / 4, v2 % 4 * 64 + v3);
    assert forall|bytes: Seq<u8>|
        bytes.len() >= 3 && seq![c0, c1, c2, c3] == #[trigger] b64url(bytes).take(
            4,
        ) implies group == (bytes[0], bytes[1], bytes[2]) by {
        let text = b64url(bytes);
        let four = seq![c0, c1, c2, c3];
        assert(four[0] == text[0] && four[1] == text[1] && four[2] == text[2] && four[3]
            == text[3]);
        lemma_sextets(
            bytes[0],
            bytes[1],
            bytes[2],
            v0 as int,
            v1 as int,
            v2 as int,
            v3 as int,
        );
    }
    group
}

/// The bytes that fewer than four characters at the end stand for.
fn decode_end(text: &[char]) -> (bytes: Vec<u8>)
    requires
        text@.len() < 4,
        exists|b: Seq<u8>| #[trigger] b64url(b) == text@,
    ensures
        b64url(bytes@) == text@,
{
    let ghost b = choose|b: Seq<u8>| #[trigger] b64url(b) == text@;
    proof {
        lemma_b64url_len(b);
    }
    let mut bytes: Vec<u8> = Vec::new();
    if text.len() >= 2 {
        let v0: u8 = sextet_of(text[0]);
        let v1: u8 = sextet_of(text[1]);
        bytes.push(v0 * 4 + v1 / 16);
        if text.len() >= 3 {
            let v2: u8 = sextet_of(text[2]);
            bytes.push(v1 % 16 * 16 + v2 / 4);
        }
    }
    assert(bytes@ =~= b);
    bytes
}

/// The bytes that a text in the alphabet stands for.
pub fn b64url_decode(text: &[char]) -> (bytes: Vec<u8>)
    requires
        exists|b: Seq<u8>| #[trigger] b64url(b) == text@,
    ensures
        b64url(bytes@) == text@,
{
    let ghost b = choose|b: Seq<u8>| #[trigger] b64url(b) == text@;
    let mut bytes: Vec<u8> = Vec::new();
    let mut i: usize = 0;
    assert(text@.skip(0) =~= text@);
    assert(b.skip(0) =~= b);
    while text.len() - i >= 4
        invariant
            i <= text@.len(),
            bytes@.len() <= b.len(),
            bytes@ == b.take(bytes@.len() as int),
            b64url(b.skip(bytes@.len() as int)) == text@.skip(i as int),
        decreases text@.len() - i,
    {
        let ghost n = bytes@.len() as int;
        let ghost rest = b.skip(n);
        let ghost encoded = text@.skip(i as int);
        proof {
            lemma_b64url_len(rest);
            assert(seq![text@[i as int], text@[i + 1], text@[i + 2], text@[i + 3]] =~= b64url(
                rest,
            ).take(4));
        }
        let (b0, b1, b2) = decode_group(text[i], text[i + 1], text[i + 2], text[i + 3]);
        bytes.push(b0);
        bytes.push(b1);
        bytes.push(b2);
        proof {
            assert(b64url(rest.skip(3)) =~= encoded.skip(4));
            assert(encoded.skip(4) =~= text@.skip(i + 4));
            assert(rest.skip(3) =~= b.skip(n + 3));
            assert(bytes@ =~= b.take(n + 3));
        }
        i = i + 4;
    }
    let ghost n = bytes@.len() as int;
    let ghost rest = b.skip(n);
    let end = vstd::slice::slice_subrange(text, i, text.len());
    assert(end@ =~= text@.skip(i as int));
    let mut last = decode_end(end);
    proof {
        law_b64url_injective(last@, rest);
        assert(b =~= b.take(n) + rest);
    }
    bytes.append(&mut last);
    bytes
}

} // verus!
