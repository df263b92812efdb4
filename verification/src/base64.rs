use vstd::prelude::*;

verus! {

/// The code of the padding character `=`.
pub const PAD: u8 = 61;

/// The ASCII code of the Base64 symbol that stands for a six-bit value:
/// `A`-`Z`, `a`-`z`, `0`-`9`, `+`, `/`.
pub open spec fn symbol_code(value: u8) -> u8 {
    if value < 26 {
        (65 + value) as u8
    } else if value < 52 {
        (97 + (value - 26)) as u8
    } else if value < 62 {
        (48 + (value - 52)) as u8
    } else if value == 62 {
        43
    } else {
        47
    }
}

/// The six-bit value that an ASCII code stands for, if it is the code of a
/// Base64 symbol.
pub open spec fn symbol_value(code: u8) -> Option<u8> {
    if 65 <= code <= 90 {
        Some((code - 65) as u8)
    } else if 97 <= code <= 122 {
        Some((code - 97 + 26) as u8)
    } else if 48 <= code <= 57 {
        Some((code - 48 + 52) as u8)
    } else if code == 43 {
        Some(62u8)
    } else if code == 47 {
        Some(63u8)
    } else {
        None
    }
}

/// The four six-bit values that three bytes spell.
pub open spec fn sextet(b0: u8, b1: u8, b2: u8, position: int) -> u8 {
    if position == 0 {
        b0 >> 2
    } else if position == 1 {
        ((b0 & 3) << 4) | (b1 >> 4)
    } else if position == 2 {
        ((b1 & 15) << 2) | (b2 >> 6)
    } else {
        b2 & 63
    }
}

/// The three bytes that four six-bit values spell.
pub open spec fn octet(s0: u8, s1: u8, s2: u8, s3: u8, position: int) -> u8 {
    if position == 0 {
        (s0 << 2) | (s1 >> 4)
    } else if position == 1 {
        ((s1 & 15) << 4) | (s2 >> 2)
    } else {
        ((s2 & 3) << 6) | s3
    }
}

/// The byte at index `i`, or zero past the end.
pub open spec fn byte_or_zero(data: Seq<u8>, i: int) -> u8 {
    if 0 <= i < data.len() {
        data[i]
    } else {
        0
    }
}

/// The number of characters that encode `n` bytes.
pub open spec fn encoded_len(n: nat) -> nat {
    (4 * ((n + 2) / 3)) as nat
}

/// The ASCII code at index `j` of the encoding of `data`.
pub open spec fn encoded_code(data: Seq<u8>, j: int) -> u8 {
    let group = j / 4;
    let position = j % 4;
    if 3 * group + position > data.len() {
        PAD
    } else {
        symbol_code(
            sextet(
                byte_or_zero(data, 3 * group),
                byte_or_zero(data, 3 * group + 1),
                byte_or_zero(data, 3 * group + 2),
                position,
            ),
        )
    }
}

/// The Base64 encoding of `data`, as ASCII codes: four symbols for every
/// three bytes, the last group padded with `=`.
pub open spec fn encoded(data: Seq<u8>) -> Seq<u8> {
    Seq::new(encoded_len(data.len()), |j: int| encoded_code(data, j))
}

/// How many of the last characters are padding: at most two.
pub open spec fn padding(codes: Seq<u8>) -> nat {
    if codes.len() >= 1 && codes[codes.len() - 1] == PAD {
        if codes.len() >= 2 && codes[codes.len() - 2] == PAD {
            2
        } else {
            1
        }
    } else {
        0
    }
}

/// The six-bit value at index `j`, or zero where no symbol stands there.
pub open spec fn value_at(codes: Seq<u8>, j: int) -> u8 {
    if 0 <= j < codes.len() {
        match symbol_value(codes[j]) {
            Some(value) => value,
            None => 0,
        }
    } else {
        0
    }
}

/// Whether the codes are a canonical Base64 text: whole groups of four,
/// symbols up to the padding, and no stray bits in front of the padding.
pub open spec fn canonical(codes: Seq<u8>) -> bool {
    &&& codes.len() % 4 == 0
    &&& forall|j: int|
        0 <= j < codes.len() - padding(codes) ==> symbol_value(#[trigger] codes[j]) is Some
    &&& padding(codes) == 1 ==> value_at(codes, codes.len() - 2) & 3 == 0
    &&& padding(codes) == 2 ==> value_at(codes, codes.len() - 3) & 15 == 0
}

/// The number of bytes that a canonical text stands for.
pub open spec fn decoded_len(codes: Seq<u8>) -> nat {
    (codes.len() / 4 * 3 - padding(codes)) as nat
}

/// The byte at index `k` of what the text stands for.
pub open spec fn decoded_byte(codes: Seq<u8>, k: int) -> u8 {
    let group = k / 3;
    octet(
        value_at(codes, 4 * group),
        value_at(codes, 4 * group + 1),
        value_at(codes, 4 * group + 2),
        value_at(codes, 4 * group + 3),
        k % 3,
    )
}

/// The bytes that a Base64 text stands for, or `None` where the text is
/// not canonical.
pub open spec fn decoded(codes: Seq<u8>) -> Option<Seq<u8>> {
    if canonical(codes) {
        Some(Seq::new(decoded_len(codes), |k: int| decoded_byte(codes, k)))
    } else {
        None
    }
}

/// Each of the four values that three bytes spell has six bits.
pub proof fn sextets_are_small(b0: u8, b1: u8, b2: u8)
    ensures
        sextet(b0, b1, b2, 0) < 64,
        sextet(b0, b1, b2, 1) < 64,
        sextet(b0, b1, b2, 2) < 64,
        sextet(b0, b1, b2, 3) < 64,
{
    assert(b0 >> 2 < 64) by (bit_vector);
    assert(((b0 & 3) << 4) | (b1 >> 4) < 64) by (bit_vector);
    assert(((b1 & 15) << 2) | (b2 >> 6) < 64) by (bit_vector);
    assert(b2 & 63 < 64) by (bit_vector);
}

/// The values that three bytes spell, spelt back, are the three bytes; and
/// where bytes are missing, the bits that stand for them are zero.
proof fn octets_of_sextets(b0: u8, b1: u8, b2: u8)
    ensures
        octet(
            sextet(b0, b1, b2, 0),
            sextet(b0, b1, b2, 1),
            sextet(b0, b1, b2, 2),
            sextet(b0, b1, b2, 3),
            0,
        ) == b0,
        octet(
            sextet(b0, b1, b2, 0),
            sextet(b0, b1, b2, 1),
            sextet(b0, b1, b2, 2),
            sextet(b0, b1, b2, 3),
            1,
        ) == b1,
        octet(
            sextet(b0, b1, b2, 0),
            sextet(b0, b1, b2, 1),
            sextet(b0, b1, b2, 2),
            sextet(b0, b1, b2, 3),
            2,
        ) == b2,
        sextet(b0, 0, 0, 1) & 15 == 0,
        sextet(b0, b1, 0, 2) & 3 == 0,
{
    assert(((b0 >> 2) << 2) | ((((b0 & 3) << 4) | (b1 >> 4)) >> 4) == b0) by (bit_vector);
    assert((((((b0 & 3) << 4) | (b1 >> 4)) & 15) << 4) | ((((b1 & 15) << 2) | (b2 >> 6)) >> 2)
        == b1) by (bit_vector);
    assert((((((b1 & 15) << 2) | (b2 >> 6)) & 3) << 6) | (b2 & 63) == b2) by (bit_vector);
    assert((((b0 & 3) << 4) | (0u8 >> 4)) & 15 == 0) by (bit_vector);
    assert((((b1 & 15) << 2) | (0u8 >> 6)) & 3 == 0) by (bit_vector);
}

/// The bytes that four six-bit values spell, spelt back, are the four
/// values; the same holds in front of padding where the stray bits are zero.
proof fn sextets_of_octets(s0: u8, s1: u8, s2: u8, s3: u8)
    requires
        s0 < 64,
        s1 < 64,
        s2 < 64,
        s3 < 64,
    ensures
        sextet(octet(s0, s1, s2, s3, 0), octet(s0, s1, s2, s3, 1), octet(s0, s1, s2, s3, 2), 0)
            == s0,
        sextet(octet(s0, s1, s2, s3, 0), octet(s0, s1, s2, s3, 1), octet(s0, s1, s2, s3, 2), 1)
            == s1,
        sextet(octet(s0, s1, s2, s3, 0), octet(s0, s1, s2, s3, 1), octet(s0, s1, s2, s3, 2), 2)
            == s2,
        sextet(octet(s0, s1, s2, s3, 0), octet(s0, s1, s2, s3, 1), octet(s0, s1, s2, s3, 2), 3)
            == s3,
        s1 & 15 == 0 ==> sextet(octet(s0, s1, s2, s3, 0), 0, 0, 1) == s1,
        s2 & 3 == 0 ==> sextet(octet(s0, s1, s2, s3, 0), octet(s0, s1, s2, s3, 1), 0, 2) == s2,
{
    assert(s0 < 64 && s1 < 64 ==> ((s0 << 2) | (s1 >> 4)) >> 2 == s0) by (bit_vector);
    assert(s0 < 64 && s1 < 64 && s2 < 64 ==> ((((s0 << 2) | (s1 >> 4)) & 3) << 4) | ((((s1 & 15)
        << 4) | (s2 >> 2)) >> 4) == s1) by (bit_vector);
    assert(s1 < 64 && s2 < 64 && s3 < 64 ==> ((((((s1 & 15) << 4) | (s2 >> 2)) & 15) << 2) | ((((s2
        & 3) << 6) | s3) >> 6)) == s2) by (bit_vector);
    assert(s2 < 64 && s3 < 64 ==> (((s2 & 3) << 6) | s3) & 63 == s3) by (bit_vector);
    assert(s0 < 64 && s1 < 64 && s1 & 15 == 0 ==> ((((s0 << 2) | (s1 >> 4)) & 3) << 4) | (0u8 >> 4)
        == s1) by (bit_vector);
    assert(s1 < 64 && s2 < 64 && s2 & 3 == 0 ==> ((((((s1 & 15) << 4) | (s2 >> 2)) & 15) << 2) | (
    0u8 >> 6)) == s2) by (bit_vector);
}

/// The symbol of a six-bit value is read back as that value, and no symbol
/// is the padding character.
pub proof fn symbol_round_trip(value: u8)
    requires
        value < 64,
    ensures
        symbol_value(symbol_code(value)) == Some(value),
        symbol_code(value) != PAD,
        symbol_code(value) < 128,
{
}

/// A code that is read as a value is the symbol of that value.
pub proof fn value_round_trip(code: u8)
    requires
        symbol_value(code) is Some,
    ensures
        symbol_value(code).unwrap() < 64,
        symbol_code(symbol_value(code).unwrap()) == code,
        code != PAD,
{
}

/// The ASCII code of the symbol for a six-bit value.
pub fn symbol(value: u8) -> (code: u8)
    requires
        value < 64,
    ensures
        code == symbol_code(value),
{
    if value < 26 {
        65 + value
    } else if value < 52 {
        97 + (value - 26)
    } else if value < 62 {
        48 + (value - 52)
    } else if value == 62 {
        43
    } else {
        47
    }
}

/// The six-bit value that an ASCII code stands for, if it is a symbol.
pub fn value_of(code: u8) -> (value: Option<u8>)
    ensures
        value == symbol_value(code),
{
    if 65 <= code && code <= 90 {
        Some(code - 65)
    } else if 97 <= code && code <= 122 {
        Some(code - 97 + 26)
    } else if 48 <= code && code <= 57 {
        Some(code - 48 + 52)
    } else if code == 43 {
        Some(62)
    } else if code == 47 {
        Some(63)
    } else {
        None
    }
}

/// Encodes bytes as Base64, giving the ASCII codes of the text.
pub fn encode_codes(data: &[u8]) -> (codes: Vec<u8>)
    ensures
        codes@ == encoded(data@),
{
    let n = data.len();
    let mut codes: Vec<u8> = Vec::new();
    let mut i: usize = 0;
    while i < n
        invariant
            n == data@.len(),
            i <= n,
            i % 3 == 0 || i == n,
            i == n ==> codes@.len() == encoded_len(n as nat),
            i < n ==> codes@.len() == 4 * (i / 3),
            forall|j: int| 0 <= j < codes@.len() ==> codes@[j] == encoded_code(data@, j),
        decreases n - i,
    {
        let b0 = data[i];
        let b1 = if n - i > 1 { data[i + 1] } else { 0 };
        let b2 = if n - i > 2 { data[i + 2] } else { 0 };
        let ghost before = codes@;
        let ghost group = (i / 3) as int;
        proof {
            sextets_are_small(b0, b1, b2);
            assert(b0 == byte_or_zero(data@, 3 * group));
            assert(b1 == byte_or_zero(data@, 3 * group + 1));
            assert(b2 == byte_or_zero(data@, 3 * group + 2));
        }
        codes.push(symbol(b0 >> 2));
        codes.push(symbol(((b0 & 3) << 4) | (b1 >> 4)));
        if n - i > 1 {
            codes.push(symbol(((b1 & 15) << 2) | (b2 >> 6)));
        } else {
            codes.push(PAD);
        }
        if n - i > 2 {
            codes.push(symbol(b2 & 63));
        } else {
            codes.push(PAD);
        }
        proof {
            assert(codes@.len() == before.len() + 4);
            assert forall|j: int| 0 <= j < codes@.len() implies codes@[j] == encoded_code(
                data@,
                j,
            ) by {
                if j < before.len() {
                    assert(codes@[j] == before[j]);
                } else {
                    assert(j / 4 == group);
                }
            }
        }
        if n - i > 2 {
            i += 3;
        } else {
            i = n;
        }
    }
    assert(codes@ =~= encoded(data@));
    codes
}

/// Decodes the ASCII codes of a Base64 text. Only canonical text is
/// accepted: whole groups of four, padded with `=`, with no stray bits.
pub fn decode_codes(codes: &[u8]) -> (data: Option<Vec<u8>>)
    ensures
        match data {
            Some(bytes) => decoded(codes@) == Some(bytes@),
            None => decoded(codes@) is None,
        },
{
    let n = codes.len();
    if n % 4 != 0 {
        return None;
    }
    let mut data: Vec<u8> = Vec::new();
    if n == 0 {
        assert(data@ =~= Seq::new(decoded_len(codes@), |k: int| decoded_byte(codes@, k)));
        return Some(data);
    }
    let pad: usize = if codes[n - 1] == PAD {
        if codes[n - 2] == PAD {
            2
        } else {
            1
        }
    } else {
        0
    };
    let mut i: usize = 0;
    while i < n
        invariant
            n == codes@.len(),
            n % 4 == 0,
            n >= 4,
            i % 4 == 0,
            i <= n,
            pad == padding(codes@),
            forall|j: int| 0 <= j < i && j < n - pad ==> symbol_value(#[trigger] codes@[j]) is Some,
            i < n ==> data@.len() == i / 4 * 3,
            i == n ==> data@.len() == decoded_len(codes@),
            i == n && pad == 1 ==> value_at(codes@, n - 2) & 3 == 0,
            i == n && pad == 2 ==> value_at(codes@, n - 3) & 15 == 0,
            forall|k: int| 0 <= k < data@.len() ==> data@[k] == decoded_byte(codes@, k),
        decreases n - i,
    {
        let last = n - i == 4;
        let ghost before = data@;
        let ghost group = (i / 4) as int;
        let v0 = match value_of(codes[i]) {
            Some(v) => v,
            None => {
                return None;
            },
        };
        let v1 = match value_of(codes[i + 1]) {
            Some(v) => v,
            None => {
                return None;
            },
        };
        proof {
            value_round_trip(codes@[i as int]);
            value_round_trip(codes@[i + 1]);
            assert(v0 == value_at(codes@, 4 * group));
            assert(v1 == value_at(codes@, 4 * group + 1));
        }
        if last && pad == 2 {
            if v1 & 15 != 0 {
                return None;
            }
            assert(value_at(codes@, 4 * group + 2) == 0);
            assert(value_at(codes@, 4 * group + 3) == 0);
            data.push((v0 << 2) | (v1 >> 4));
        } else {
            let v2 = match value_of(codes[i + 2]) {
                Some(v) => v,
                None => {
                    return None;
                },
            };
            proof {
                value_round_trip(codes@[i + 2]);
                assert(v2 == value_at(codes@, 4 * group + 2));
            }
            if last && pad == 1 {
                if v2 & 3 != 0 {
                    return None;
                }
                assert(value_at(codes@, 4 * group + 3) == 0);
                data.push((v0 << 2) | (v1 >> 4));
                data.push(((v1 & 15) << 4) | (v2 >> 2));
            } else {
                let v3 = match value_of(codes[i + 3]) {
                    Some(v) => v,
                    None => {
                        return None;
                    },
                };
                proof {
                    value_round_trip(codes@[i + 3]);
                    assert(v3 == value_at(codes@, 4 * group + 3));
                }
                data.push((v0 << 2) | (v1 >> 4));
                data.push(((v1 & 15) << 4) | (v2 >> 2));
                data.push(((v2 & 3) << 6) | v3);
            }
        }
        proof {
            assert forall|k: int| 0 <= k < data@.len() implies data@[k] == decoded_byte(
                codes@,
                k,
            ) by {
                if k < before.len() {
                    assert(data@[k] == before[k]);
                } else {
                    assert(k / 3 == group);
                }
            }
        }
        i += 4;
    }
    assert(data@ =~= Seq::new(decoded_len(codes@), |k: int| decoded_byte(codes@, k)));
    Some(data)
}

/// The padding of an encoding: none for whole groups of three bytes, two
/// characters for one byte left over, one character for two.
proof fn padding_of_encoding(data: Seq<u8>)
    ensures
        padding(encoded(data)) == (3 - data.len() % 3) % 3,
        forall|j: int|
            0 <= j < encoded(data).len() - padding(encoded(data)) ==> symbol_value(
                #[trigger] encoded(data)[j],
            ) is Some,
        forall|j: int|
            0 <= j < encoded(data).len() - padding(encoded(data)) ==> value_at(encoded(data), j)
                == sextet(
                byte_or_zero(data, 3 * (j / 4)),
                byte_or_zero(data, 3 * (j / 4) + 1),
                byte_or_zero(data, 3 * (j / 4) + 2),
                j % 4,
            ),
        forall|j: int|
            encoded(data).len() - padding(encoded(data)) <= j < encoded(data).len() ==> value_at(
                encoded(data),
                j,
            ) == 0,
{
    let codes = encoded(data);
    let n = data.len() as int;
    let len = codes.len() as int;
    assert forall|j: int| 0 <= j < len implies (#[trigger] codes[j] == PAD <==> 3 * (j / 4) + j % 4
        > n) && (codes[j] != PAD ==> symbol_value(codes[j]) == Some(
        sextet(
            byte_or_zero(data, 3 * (j / 4)),
            byte_or_zero(data, 3 * (j / 4) + 1),
            byte_or_zero(data, 3 * (j / 4) + 2),
            j % 4,
        ),
    )) by {
        let group = j / 4;
        sextets_are_small(
            byte_or_zero(data, 3 * group),
            byte_or_zero(data, 3 * group + 1),
            byte_or_zero(data, 3 * group + 2),
        );
        symbol_round_trip(
            sextet(
                byte_or_zero(data, 3 * group),
                byte_or_zero(data, 3 * group + 1),
                byte_or_zero(data, 3 * group + 2),
                j % 4,
            ),
        );
    }
    if len > 0 {
        assert(codes[len - 1] == PAD <==> n % 3 != 0);
        assert(codes[len - 2] == PAD <==> n % 3 == 1);
    }
    assert forall|j: int| len - padding(codes) <= j < len implies value_at(codes, j) == 0 by {
        assert(codes[j] == PAD);
    }
}

/// Encoding, then decoding, gives the bytes back.
pub proof fn decoding_inverts_encoding(data: Seq<u8>)
    ensures
        decoded(encoded(data)) == Some(data),
{
    let codes = encoded(data);
    let n = data.len() as int;
    let len = codes.len() as int;
    padding_of_encoding(data);
    if padding(codes) == 1 {
        let j = len - 2;
        octets_of_sextets(byte_or_zero(data, 3 * (j / 4)), byte_or_zero(data, 3 * (j / 4) + 1), 0);
        assert(value_at(codes, j) & 3 == 0);
    }
    if padding(codes) == 2 {
        let j = len - 3;
        octets_of_sextets(byte_or_zero(data, 3 * (j / 4)), 0, 0);
        assert(value_at(codes, j) & 15 == 0);
    }
    assert(canonical(codes));
    assert(decoded_len(codes) == n);
    let bytes = decoded(codes).unwrap();
    assert forall|k: int| 0 <= k < n implies bytes[k] == data[k] by {
        let group = k / 3;
        let b0 = byte_or_zero(data, 3 * group);
        let b1 = byte_or_zero(data, 3 * group + 1);
        let b2 = byte_or_zero(data, 3 * group + 2);
        octets_of_sextets(b0, b1, b2);
        octets_of_sextets(b0, b1, 0);
        octets_of_sextets(b0, 0, 0);
        assert((4 * group) / 4 == group && (4 * group) % 4 == 0);
        assert((4 * group + 1) / 4 == group && (4 * group + 1) % 4 == 1);
        assert((4 * group + 2) / 4 == group && (4 * group + 2) % 4 == 2);
        assert((4 * group + 3) / 4 == group && (4 * group + 3) % 4 == 3);
        assert(value_at(codes, 4 * group) == sextet(b0, b1, b2, 0));
        assert(value_at(codes, 4 * group + 1) == sextet(b0, b1, b2, 1));
        if 4 * group + 2 < len - padding(codes) {
            assert(value_at(codes, 4 * group + 2) == sextet(b0, b1, b2, 2));
        } else {
            assert(value_at(codes, 4 * group + 2) == 0);
        }
        if 4 * group + 3 < len - padding(codes) {
            assert(value_at(codes, 4 * group + 3) == sextet(b0, b1, b2, 3));
        } else {
            assert(value_at(codes, 4 * group + 3) == 0);
        }
        octet_ignores_later_sextets(
            sextet(b0, b1, b2, 0),
            sextet(b0, b1, b2, 1),
            sextet(b0, b1, b2, 2),
            sextet(b0, b1, b2, 3),
        );
    }
    assert(bytes =~= data);
}

/// A byte depends only on the two values it is spelt from.
proof fn octet_ignores_later_sextets(s0: u8, s1: u8, s2: u8, s3: u8)
    ensures
        octet(s0, s1, 0, 0, 0) == octet(s0, s1, s2, s3, 0),
        octet(s0, s1, s2, 0, 0) == octet(s0, s1, s2, s3, 0),
        octet(s0, s1, s2, 0, 1) == octet(s0, s1, s2, s3, 1),
{
}

/// A text that decodes is the encoding of what it decodes to.
pub proof fn encoding_inverts_decoding(codes: Seq<u8>, data: Seq<u8>)
    requires
        decoded(codes) == Some(data),
    ensures
        encoded(data) == codes,
{
    let n = data.len() as int;
    let len = codes.len() as int;
    let pad = padding(codes) as int;
    assert(len == encoded_len(data.len()));
    let again = encoded(data);
    assert forall|j: int| 0 <= j < len implies again[j] == codes[j] by {
        let group = j / 4;
        let s0 = value_at(codes, 4 * group);
        let s1 = value_at(codes, 4 * group + 1);
        let s2 = value_at(codes, 4 * group + 2);
        let s3 = value_at(codes, 4 * group + 3);
        assert(4 * group + 3 < len);
        assert(4 * group + 1 < len - pad);
        value_round_trip(codes[4 * group]);
        value_round_trip(codes[4 * group + 1]);
        if 4 * group + 2 < len - pad {
            value_round_trip(codes[4 * group + 2]);
        }
        if 4 * group + 3 < len - pad {
            value_round_trip(codes[4 * group + 3]);
        }
        sextets_of_octets(s0, s1, s2, s3);
        assert((3 * group) / 3 == group && (3 * group) % 3 == 0);
        assert((3 * group + 1) / 3 == group && (3 * group + 1) % 3 == 1);
        assert((3 * group + 2) / 3 == group && (3 * group + 2) % 3 == 2);
        assert(3 * group < n);
        assert(data[3 * group] == octet(s0, s1, s2, s3, 0));
        if 3 * group + 1 < n {
            assert(data[3 * group + 1] == octet(s0, s1, s2, s3, 1));
        }
        if 3 * group + 2 < n {
            assert(data[3 * group + 2] == octet(s0, s1, s2, s3, 2));
        }
        if j < len - pad {
            value_round_trip(codes[j]);
        }
    }
    assert(again =~= codes);
}

/// Two attachments with the same encoding are the same attachment.
pub proof fn encoding_is_injective(first: Seq<u8>, second: Seq<u8>)
    requires
        encoded(first) == encoded(second),
    ensures
        first == second,
{
    decoding_inverts_encoding(first);
    decoding_inverts_encoding(second);
}

} // verus!
