//! Byte-level helpers for the C side of the API: truncating copies into
//! caller buffers, the "query the size, then copy" protocol, and the decimal
//! and hexadecimal renderings used in generated names.
use vstd::prelude::*;

verus! {

/// The UTF-8 encoding of a text.
pub open spec fn utf8_bytes(s: Seq<char>) -> Seq<u8> {
    vstd::utf8::encode_utf8(s)
}

/// The UTF-8 bytes of a string.
pub fn string_bytes(s: &String) -> (b: &[u8])
    ensures
        b@ == utf8_bytes(s@),
{
    s.as_str().as_bytes()
}

pub open spec fn min_nat(a: nat, b: nat) -> nat {
    if a <= b {
        a
    } else {
        b
    }
}

/// What a C caller finds in a buffer of `capacity` bytes after the string
/// `src` was copied into it: at most `capacity - 1` of its bytes, then a NUL.
pub open spec fn c_string_in_buffer(src: Seq<u8>, capacity: nat) -> Seq<u8> {
    src.take(min_nat(src.len(), (capacity - 1) as nat) as int).push(0u8)
}

/// The first `limit` bytes of `src`, or all of it when it is shorter.
pub open spec fn truncated(src: Seq<u8>, limit: nat) -> Seq<u8> {
    src.take(min_nat(src.len(), limit) as int)
}

/// Copies at most `limit` bytes of `src`.
pub fn copy_prefix(src: &[u8], limit: usize) -> (out: Vec<u8>)
    ensures
        out@ == truncated(src@, limit as nat),
{
    let n: usize = if src.len() < limit {
        src.len()
    } else {
        limit
    };
    let mut out: Vec<u8> = Vec::new();
    let mut i: usize = 0;
    while i < n
        invariant
            i <= n,
            n <= src@.len(),
            n == min_nat(src@.len(), limit as nat),
            out@ == src@.take(i as int),
        decreases n - i,
    {
        out.push(src[i]);
        i = i + 1;
        assert(out@ =~= src@.take(i as int));
    }
    out
}

/// The bytes written into a C buffer of `capacity` bytes: the truncated
/// string followed by its terminator.
pub fn copy_c_string(src: &[u8], capacity: usize) -> (out: Vec<u8>)
    requires
        capacity >= 1,
    ensures
        out@ == c_string_in_buffer(src@, capacity as nat),
        out@.len() <= capacity,
        out@.last() == 0u8,
{
    let mut out = copy_prefix(src, capacity - 1);
    out.push(0u8);
    out
}

/// Outcome of the "report the size, or copy when the buffer is large enough"
/// protocol used for property strings.
pub enum SizedCopy {
    /// No buffer was given: the caller learns the size it needs.
    SizeReported(u32),
    /// The string and its terminator were copied; the size is reported too.
    Copied(Vec<u8>, u32),
    /// The buffer was too small: nothing is written.
    TooSmall,
}

/// `has_buffer` tells whether the caller passed a buffer; `buffer_size` is the
/// size it declared. The size needed is the string's length plus one.
pub fn sized_c_copy(src: &[u8], has_buffer: bool, buffer_size: u32) -> (r: SizedCopy)
    requires
        src@.len() < u32::MAX,
    ensures
        !has_buffer ==> r == SizedCopy::SizeReported((src@.len() + 1) as u32),
        has_buffer && buffer_size >= src@.len() + 1 ==> (r matches SizedCopy::Copied(b, n) && b@
            == src@.push(0u8) && n == src@.len() + 1),
        has_buffer && buffer_size < src@.len() + 1 ==> r == SizedCopy::TooSmall,
{
    let required: u32 = (src.len() as u32) + 1;
    if !has_buffer {
        return SizedCopy::SizeReported(required);
    }
    if buffer_size >= required {
        let mut b = copy_prefix(src, src.len());
        assert(b@ =~= src@);
        b.push(0u8);
        SizedCopy::Copied(b, required)
    } else {
        SizedCopy::TooSmall
    }
}

/// Outcome of the "report the size, or copy when the buffer is large enough"
/// protocol for raw bytes (no terminator).
pub enum SizedBytes {
    SizeReported(u32),
    Copied(Vec<u8>, u32),
    TooSmall,
}

/// Like `sized_c_copy`, for raw bytes: the size needed is their length.
pub fn sized_copy(src: &[u8], has_buffer: bool, buffer_size: u32) -> (r: SizedBytes)
    ensures
        !has_buffer ==> r == SizedBytes::SizeReported(src@.len() as u32),
        has_buffer && buffer_size >= (src@.len() as u32) ==> (r matches SizedBytes::Copied(b, n) && b@
            == src@ && n == src@.len() as u32),
        has_buffer && buffer_size < (src@.len() as u32) ==> r == SizedBytes::TooSmall,
{
    let required = src.len() as u32;
    if !has_buffer {
        return SizedBytes::SizeReported(required);
    }
    if buffer_size >= required {
        let b = copy_prefix(src, src.len());
        assert(b@ =~= src@);
        SizedBytes::Copied(b, required)
    } else {
        SizedBytes::TooSmall
    }
}

pub open spec fn digit_byte(d: nat) -> u8 {
    (48 + d) as u8
}

/// ASCII decimal rendering of `n`, without leading zeros.
pub open spec fn decimal(n: nat) -> Seq<u8>
    decreases n,
{
    if n < 10 {
        seq![digit_byte(n)]
    } else {
        decimal(n / 10).push(digit_byte(n % 10))
    }
}

pub open spec fn hex_digit_byte(d: nat) -> u8 {
    if d < 10 {
        (48 + d) as u8
    } else {
        (87 + d) as u8
    }
}

/// ASCII lower-case hexadecimal rendering of `n`, without leading zeros.
pub open spec fn hex_lower(n: nat) -> Seq<u8>
    decreases n,
{
    if n < 16 {
        seq![hex_digit_byte(n)]
    } else {
        hex_lower(n / 16).push(hex_digit_byte(n % 16))
    }
}

/// Whether every byte is an ASCII decimal digit.
pub open spec fn all_decimal_digits(s: Seq<u8>) -> bool {
    forall|i: int| 0 <= i < s.len() ==> 48 <= #[trigger] s[i] <= 57
}

/// The number that ASCII decimal digits spell, read left to right.
pub open spec fn decimal_value(s: Seq<u8>) -> int
    decreases s.len(),
{
    if s.len() == 0 {
        0
    } else {
        decimal_value(s.drop_last()) * 10 + (s.last() - 48)
    }
}

/// The decimal rendering of `n` is a non-empty run of decimal digits, with no
/// leading zero unless `n` is 0, that reads back as `n`.
pub proof fn lemma_decimal_reads_back(n: nat)
    ensures
        decimal(n).len() >= 1,
        all_decimal_digits(decimal(n)),
        decimal_value(decimal(n)) == n,
        n > 0 ==> decimal(n)[0] != 48u8,
    decreases n,
{
    if n >= 10 {
        lemma_decimal_reads_back(n / 10);
        let d = decimal(n / 10);
        assert(decimal(n).drop_last() =~= d);
        assert(decimal(n)[0] == d[0]);
        assert((n / 10) * 10 + n % 10 == n) by (nonlinear_arith);
        assert(decimal(n).last() == digit_byte(n % 10));
        assert(digit_byte(n % 10) == 48 + n % 10);
    } else {
        assert(decimal(n).drop_last() =~= Seq::<u8>::empty());
        assert(decimal_value(Seq::<u8>::empty()) == 0);
    }
}

/// Whether every byte is an ASCII lower-case hexadecimal digit.
pub open spec fn all_hex_digits(s: Seq<u8>) -> bool {
    forall|i: int| 0 <= i < s.len() ==> (48 <= #[trigger] s[i] <= 57 || 97 <= s[i] <= 102)
}

/// The value of one lower-case hexadecimal digit.
pub open spec fn hex_digit_value(b: u8) -> int {
    if b <= 57 {
        b - 48
    } else {
        b - 87
    }
}

/// The number that lower-case hexadecimal digits spell, read left to right.
pub open spec fn hex_value(s: Seq<u8>) -> int
    decreases s.len(),
{
    if s.len() == 0 {
        0
    } else {
        hex_value(s.drop_last()) * 16 + hex_digit_value(s.last())
    }
}

/// The hexadecimal rendering of `n` is a non-empty run of lower-case hex
/// digits, with no leading zero unless `n` is 0, that reads back as `n`.
pub proof fn lemma_hex_reads_back(n: nat)
    ensures
        hex_lower(n).len() >= 1,
        all_hex_digits(hex_lower(n)),
        hex_value(hex_lower(n)) == n,
        n > 0 ==> hex_lower(n)[0] != 48u8,
    decreases n,
{
    if n >= 16 {
        lemma_hex_reads_back(n / 16);
        let d = hex_lower(n / 16);
        assert(hex_lower(n).drop_last() =~= d);
        assert(hex_lower(n)[0] == d[0]);
        assert((n / 16) * 16 + n % 16 == n) by (nonlinear_arith);
        assert(hex_lower(n).last() == hex_digit_byte(n % 16));
        assert(hex_digit_value(hex_digit_byte(n % 16)) == n % 16);
    } else {
        assert(hex_lower(n).drop_last() =~= Seq::<u8>::empty());
        assert(hex_value(Seq::<u8>::empty()) == 0);
        assert(hex_digit_value(hex_digit_byte(n)) == n);
    }
}

/// The decimal digits of `n`.
pub fn decimal_bytes(n: u64) -> (out: Vec<u8>)
    ensures
        out@ == decimal(n as nat),
    decreases n,
{
    if n < 10 {
        let mut v: Vec<u8> = Vec::new();
        v.push(48u8 + (n as u8));
        assert(v@ =~= seq![digit_byte(n as nat)]);
        v
    } else {
        let mut v = decimal_bytes(n / 10);
        v.push(48u8 + ((n % 10) as u8));
        v
    }
}

/// The lower-case hexadecimal digits of `n`.
pub fn hex_bytes(n: u64) -> (out: Vec<u8>)
    ensures
        out@ == hex_lower(n as nat),
    decreases n,
{
    if n < 16 {
        let d = n as u8;
        let mut v: Vec<u8> = Vec::new();
        if d < 10 {
            v.push(48u8 + d);
        } else {
            v.push(87u8 + d);
        }
        assert(v@ =~= seq![hex_digit_byte(n as nat)]);
        v
    } else {
        let mut v = hex_bytes(n / 16);
        let d = (n % 16) as u8;
        if d < 10 {
            v.push(48u8 + d);
        } else {
            v.push(87u8 + d);
        }
        v
    }
}

/// Appends all of `src` to `dst`.
pub fn append_bytes(dst: &mut Vec<u8>, src: &[u8])
    ensures
        final(dst)@ == old(dst)@ + src@,
{
    let mut i: usize = 0;
    while i < src.len()
        invariant
            i <= src@.len(),
            dst@ == old(dst)@ + src@.take(i as int),
        decreases src@.len() - i,
    {
        dst.push(src[i]);
        i = i + 1;
        assert(dst@ =~= old(dst)@ + src@.take(i as int));
    }
    assert(src@.take(src@.len() as int) =~= src@);
}

/// Whether two byte strings are equal.
pub fn bytes_equal(a: &[u8], b: &[u8]) -> (r: bool)
    ensures
        r == (a@ == b@),
{
    if a.len() != b.len() {
        return false;
    }
    let mut i: usize = 0;
    while i < a.len()
        invariant
            a@.len() == b@.len(),
            i <= a@.len(),
            forall|j: int| 0 <= j < i ==> a@[j] == b@[j],
        decreases a@.len() - i,
    {
        if a[i] != b[i] {
            return false;
        }
        i = i + 1;
    }
    assert(a@ =~= b@);
    true
}

/// A string written into a buffer of `capacity` bytes keeps as many of its
/// bytes as fit before the terminator, in order, and ends with that
/// terminator; a string shorter than the buffer is kept whole.
pub proof fn lemma_c_string_in_buffer(src: Seq<u8>, capacity: nat)
    requires
        capacity >= 1,
    ensures
        c_string_in_buffer(src, capacity).len() <= capacity,
        c_string_in_buffer(src, capacity).len() == (if src.len() < capacity {
            src.len() + 1int
        } else {
            capacity as int
        }),
        c_string_in_buffer(src, capacity).last() == 0u8,
        forall|i: int|
            0 <= i < c_string_in_buffer(src, capacity).len() - 1 ==> #[trigger] c_string_in_buffer(
                src,
                capacity,
            )[i] == src[i],
        src.len() < capacity ==> c_string_in_buffer(src, capacity) == src.push(0u8),
{
    if src.len() < capacity {
        assert(src.take(src.len() as int) =~= src);
    }
}

/// Truncating keeps the first bytes, as many as the limit allows.
pub proof fn lemma_truncated(src: Seq<u8>, limit: nat)
    ensures
        truncated(src, limit).len() == (if src.len() <= limit {
            src.len()
        } else {
            limit
        }),
        forall|i: int| 0 <= i < truncated(src, limit).len() ==> #[trigger] truncated(src, limit)[i] == src[i],
        src.len() <= limit ==> truncated(src, limit) == src,
{
    if src.len() <= limit {
        assert(src.take(src.len() as int) =~= src);
    }
}

} // verus!

