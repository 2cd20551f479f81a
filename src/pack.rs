use vstd::prelude::*;
use vstd::string::*;

verus! {

/// Why a bit string could not be packed into bytes.
#[derive(Debug, Clone, Copy, PartialEq, Eq, Structural)]
pub enum PackError {
    /// The number of bits is not a multiple of eight.
    MalformedBitLength,
    /// A character other than '0' or '1' was found.
    InvalidDigit,
}

/// Powers of two.
pub open spec fn pow2(n: nat) -> nat
    decreases n,
{
    if n == 0 {
        1
    } else {
        2 * pow2((n - 1) as nat)
    }
}

proof fn lemma_pow2_byte(t: nat)
    requires
        t <= 8,
    ensures
        pow2(t) <= 256,
        pow2(8) == 256,
{
    reveal_with_fuel(pow2, 9);
    assert(t == 0 || t == 1 || t == 2 || t == 3 || t == 4 || t == 5 || t == 6 || t == 7 || t == 8);
}

/// A binary digit character.
pub open spec fn is_bit_char(c: char) -> bool {
    c == '0' || c == '1'
}

/// Value of a string of binary digits, most significant first.
pub open spec fn binary_value(s: Seq<char>) -> nat
    decreases s.len(),
{
    if s.len() == 0 {
        0
    } else {
        2 * binary_value(s.drop_last()) + if s.last() == '1' { 1nat } else { 0nat }
    }
}

/// The bytes packed from a string of binary digits whose length is a multiple of eight.
pub open spec fn packed_bytes(s: Seq<char>) -> Seq<u8> {
    Seq::new(s.len() / 8, |b: int| binary_value(s.subrange(8 * b, 8 * b + 8)) as u8)
}

/// Uppercase hexadecimal digit of a value below sixteen.
pub open spec fn hex_digit(n: int) -> char {
    if n < 10 {
        (n + 48) as char
    } else {
        (n + 55) as char
    }
}

/// Two uppercase hexadecimal digits for each byte, in order.
pub open spec fn hex_of(b: Seq<u8>) -> Seq<char>
    decreases b.len(),
{
    if b.len() == 0 {
        Seq::empty()
    } else {
        hex_of(b.drop_last()) + seq![hex_digit(b.last() as int / 16), hex_digit(b.last() as int % 16)]
    }
}

/// Relies on `String::push`: appends one character.
#[verifier::external_body]
fn push_char(s: &mut String, c: char)
    ensures
        final(s)@ == old(s)@.push(c),
{
    s.push(c)
}

/// Packs a string of binary digits into bytes, eight bits per byte, most
/// significant bit first.
pub fn binary_to_bytes(bits: &str) -> (r: Result<Vec<u8>, PackError>)
    ensures
        bits@.len() % 8 != 0 ==> r == Err::<Vec<u8>, PackError>(PackError::MalformedBitLength),
        bits@.len() % 8 == 0 && !(forall|k: int| 0 <= k < bits@.len() ==> is_bit_char(#[trigger] bits@[k]))
            ==> r == Err::<Vec<u8>, PackError>(PackError::InvalidDigit),
        bits@.len() % 8 == 0 && (forall|k: int| 0 <= k < bits@.len() ==> is_bit_char(#[trigger] bits@[k]))
            ==> r is Ok && r->Ok_0@ == packed_bytes(bits@),
{
    let n: usize = bits.unicode_len();
    if n % 8 != 0 {
        return Err(PackError::MalformedBitLength);
    }
    let mut out: Vec<u8> = Vec::with_capacity(n / 8);
    let mut b: usize = 0;
    while b < n / 8
        invariant
            n == bits@.len(),
            n % 8 == 0,
            b <= n / 8,
            forall|k: int| 0 <= k < 8 * b ==> is_bit_char(#[trigger] bits@[k]),
            out@ =~= packed_bytes(bits@).subrange(0, b as int),
        decreases n / 8 - b,
    {
        let ghost base = 8 * b as int;
        let mut acc: u32 = 0;
        let mut t: usize = 0;
        while t < 8
            invariant
                n == bits@.len(),
                n % 8 == 0,
                b < n / 8,
                base == 8 * b,
                t <= 8,
                forall|k: int| 0 <= k < base + t ==> is_bit_char(#[trigger] bits@[k]),
                acc as nat == binary_value(bits@.subrange(base, base + t)),
                acc < pow2(t as nat),
            decreases 8 - t,
        {
            let c = bits.get_char(8 * b + t);
            if c != '0' && c != '1' {
                assert(!is_bit_char(bits@[base + t]));
                return Err(PackError::InvalidDigit);
            }
            assert(bits@.subrange(base, base + t + 1).drop_last() =~= bits@.subrange(base, base + t));
            proof { lemma_pow2_byte(t as nat + 1); }
            acc = 2 * acc + if c == '1' { 1 } else { 0 };
            t = t + 1;
        }
        proof { lemma_pow2_byte(8); }
        out.push(acc as u8);
        b = b + 1;
    }
    assert(packed_bytes(bits@).subrange(0, (n / 8) as int) =~= packed_bytes(bits@));
    Ok(out)
}

fn hex_digit_char(n: u8) -> (c: char)
    requires
        n < 16,
    ensures
        c == hex_digit(n as int),
{
    if n < 10 {
        (n + 48) as char
    } else {
        (n + 55) as char
    }
}

/// Renders a 24-bit ICAO address as six uppercase hexadecimal digits.
pub fn icao_bytes_to_hex(bytes: [u8; 3]) -> (r: String)
    ensures
        r@ == hex_of(bytes@),
{
    let mut s = String::new();
    let mut k: usize = 0;
    while k < 3
        invariant
            k <= 3,
            bytes@.len() == 3,
            s@ == hex_of(bytes@.subrange(0, k as int)),
        decreases 3 - k,
    {
        let v = bytes[k];
        assert(bytes@.subrange(0, k + 1).drop_last() =~= bytes@.subrange(0, k as int));
        push_char(&mut s, hex_digit_char(v / 16));
        push_char(&mut s, hex_digit_char(v % 16));
        k = k + 1;
    }
    assert(bytes@.subrange(0, 3) =~= bytes@);
    s
}

} // verus!
