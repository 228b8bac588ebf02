//! Bytes and text: UTF-8 views, lowercase hex, length-prefixed fields,
//! big-endian integers and the byte order in which identifiers are sorted.
use vstd::prelude::*;
use vstd::utf8::*;

verus! {

/// The UTF-8 bytes of a character sequence.
pub open spec fn utf8(s: Seq<char>) -> Seq<u8> {
    encode_utf8(s)
}

/// Every byte is 7-bit ASCII.
pub open spec fn all_ascii(b: Seq<u8>) -> bool {
    forall|i: int| 0 <= i < b.len() ==> #[trigger] b[i] < 128
}

/// The characters that ASCII bytes stand for.
pub open spec fn ascii_chars(b: Seq<u8>) -> Seq<char> {
    b.map_values(|x: u8| x as char)
}

/// `String::from_utf8`: succeeds exactly on valid UTF-8 and decodes it.
#[verifier::external_body]
pub(crate) fn string_from_utf8(bytes: Vec<u8>) -> (res: Option<String>)
    ensures
        res is Some <==> valid_utf8(bytes@),
        res matches Some(s) ==> s@ == decode_utf8(bytes@),
{
    String::from_utf8(bytes).ok()
}

/// ASCII bytes are the UTF-8 encoding of the characters they stand for.
pub proof fn lemma_ascii_utf8(b: Seq<u8>)
    requires
        all_ascii(b),
    ensures
        is_ascii_chars(ascii_chars(b)),
        utf8(ascii_chars(b)) == b,
{
    let c = ascii_chars(b);
    assert forall|i: int| 0 <= i < c.len() implies '\0' <= #[trigger] c[i] <= '\u{7f}' by {
        assert(c[i] == b[i] as char);
    }
    is_ascii_chars_encode_utf8(c);
    assert forall|i: int| 0 <= i < c.len() implies encode_utf8(c)[i] == b[i] by {
        assert(c[i] as u8 == encode_utf8(c)[i]);
        assert(c[i] == b[i] as char);
    }
    assert(encode_utf8(c) =~= b);
}

/// Builds a `String` from ASCII bytes.
pub fn ascii_string(bytes: Vec<u8>) -> (res: String)
    requires
        all_ascii(bytes@),
    ensures
        res@ == ascii_chars(bytes@),
{
    let ghost b = bytes@;
    proof {
        lemma_ascii_utf8(b);
        encode_utf8_valid_utf8(ascii_chars(b));
        encode_utf8_decode_utf8(ascii_chars(b));
    }
    match string_from_utf8(bytes) {
        Some(s) => s,
        None => String::new(),
    }
}

/// Appends a byte slice.
pub fn push_bytes(out: &mut Vec<u8>, b: &[u8])
    ensures
        final(out)@ == old(out)@ + b@,
{
    let mut i: usize = 0;
    while i < b.len()
        invariant
            0 <= i <= b@.len(),
            out@ == old(out)@ + b@.take(i as int),
        decreases b@.len() - i,
    {
        out.push(b[i]);
        i = i + 1;
        assert(b@.take(i as int) =~= b@.take((i - 1) as int).push(b@[i - 1]));
    }
    assert(b@.take(b@.len() as int) =~= b@);
}

/// Appends the UTF-8 bytes of a string slice.
pub fn push_str(out: &mut Vec<u8>, s: &str)
    ensures
        final(out)@ == old(out)@ + utf8(s@),
{
    push_bytes(out, s.as_bytes());
}

/// Whether two byte slices are equal.
pub fn bytes_eq(a: &[u8], b: &[u8]) -> (res: bool)
    ensures
        res == (a@ == b@),
{
    if a.len() != b.len() {
        return false;
    }
    let mut i: usize = 0;
    while i < a.len()
        invariant
            a@.len() == b@.len(),
            0 <= i <= a@.len(),
            forall|j: int| 0 <= j < i ==> a@[j] == b@[j],
        decreases a@.len() - i,
    {
        if a[i] != b[i] {
            return false;
        }
        i = i + 1;
    }
    assert(a@ =~= b@);
    true
}

/// The lowercase hexadecimal digit of a nibble.
pub open spec fn hex_digit(n: int) -> u8 {
    if n < 10 {
        (48 + n) as u8
    } else {
        (87 + n) as u8
    }
}

/// Lowercase hexadecimal of bytes, two digits per byte, high nibble first.
pub open spec fn hex_bytes(s: Seq<u8>) -> Seq<u8>
    decreases s.len(),
{
    if s.len() == 0 {
        seq![]
    } else {
        hex_bytes(s.drop_last()) + seq![hex_digit((s.last() / 16) as int), hex_digit((s.last() % 16) as int)]
    }
}

/// Lowercase hexadecimal of bytes as characters.
pub open spec fn hex_chars(s: Seq<u8>) -> Seq<char> {
    ascii_chars(hex_bytes(s))
}

/// Hex text is two characters per byte, each a lowercase hex digit.
pub proof fn lemma_hex_bytes_shape(s: Seq<u8>)
    ensures
        hex_bytes(s).len() == 2 * s.len(),
        all_ascii(hex_bytes(s)),
        forall|i: int| 0 <= i < hex_bytes(s).len() ==> is_hex_digit(#[trigger] hex_bytes(s)[i]),
    decreases s.len(),
{
    if s.len() > 0 {
        lemma_hex_bytes_shape(s.drop_last());
    }
}

fn nibble_digit(n: u8) -> (d: u8)
    requires
        n < 16,
    ensures
        d == hex_digit(n as int),
{
    if n < 10 {
        48 + n
    } else {
        87 + n
    }
}

/// Appends the lowercase hexadecimal of `bytes`.
pub fn push_hex(out: &mut Vec<u8>, bytes: &[u8])
    ensures
        final(out)@ == old(out)@ + hex_bytes(bytes@),
{
    let mut i: usize = 0;
    while i < bytes.len()
        invariant
            0 <= i <= bytes@.len(),
            out@ == old(out)@ + hex_bytes(bytes@.take(i as int)),
        decreases bytes@.len() - i,
    {
        let b = bytes[i];
        let hi = b >> 4;
        let lo = b & 0x0f;
        assert(hi == b / 16 && lo == b % 16) by (bit_vector)
            requires
                hi == b >> 4,
                lo == b & 0x0f,
        ;
        out.push(nibble_digit(hi));
        out.push(nibble_digit(lo));
        i = i + 1;
        assert(bytes@.take(i as int).drop_last() =~= bytes@.take((i - 1) as int));
    }
    assert(bytes@.take(bytes@.len() as int) =~= bytes@);
}

/// Lowercase hexadecimal of `bytes`.
pub fn hex(bytes: &[u8]) -> (res: String)
    ensures
        res@ == hex_chars(bytes@),
{
    let mut out: Vec<u8> = Vec::new();
    push_hex(&mut out, bytes);
    proof {
        lemma_hex_bytes_shape(bytes@);
        assert(out@ =~= hex_bytes(bytes@));
    }
    ascii_string(out)
}

/// An ASCII hexadecimal digit, upper or lower case.
pub open spec fn is_hex_digit(b: u8) -> bool {
    (48 <= b <= 57) || (65 <= b <= 70) || (97 <= b <= 102)
}

/// A content identifier: exactly 64 hexadecimal digits.
pub open spec fn is_cid_bytes(b: Seq<u8>) -> bool {
    b.len() == 64 && forall|i: int| 0 <= i < b.len() ==> is_hex_digit(#[trigger] b[i])
}

/// Whether `value` is a content identifier.
pub fn is_cid(value: &str) -> (res: bool)
    ensures
        res == is_cid_bytes(utf8(value@)),
{
    let b = value.as_bytes();
    if b.len() != 64 {
        return false;
    }
    let mut i: usize = 0;
    while i < b.len()
        invariant
            b@ == utf8(value@),
            b@.len() == 64,
            0 <= i <= 64,
            forall|j: int| 0 <= j < i ==> is_hex_digit(#[trigger] b@[j]),
        decreases 64 - i,
    {
        let c = b[i];
        if !((48 <= c && c <= 57) || (65 <= c && c <= 70) || (97 <= c && c <= 102)) {
            return false;
        }
        i = i + 1;
    }
    true
}

/// Whether `p` is a prefix of `s`.
pub open spec fn has_prefix(s: Seq<u8>, p: Seq<u8>) -> bool {
    p.len() <= s.len() && s.take(p.len() as int) == p
}

/// The UTF-8 encoding of a concatenation is the concatenation of encodings.
pub proof fn lemma_utf8_concat(a: Seq<char>, b: Seq<char>)
    ensures
        utf8(a + b) == utf8(a) + utf8(b),
    decreases a.len(),
{
    if a.len() == 0 {
        assert(a + b =~= b);
    } else {
        lemma_utf8_concat(a.drop_first(), b);
        assert((a + b).drop_first() =~= a.drop_first() + b);
        assert((a + b)[0] == a[0]);
    }
}

/// Text that begins with `p` has the encoding of `p` as a byte prefix.
pub proof fn lemma_prefix_concat(p: Seq<char>, rest: Seq<char>)
    ensures
        has_prefix(utf8(p + rest), utf8(p)),
{
    lemma_utf8_concat(p, rest);
    assert((utf8(p) + utf8(rest)).take(utf8(p).len() as int) =~= utf8(p));
}

/// Lowercase hex of 32 bytes is a content identifier.
pub proof fn lemma_hex_is_cid(s: Seq<u8>)
    requires
        s.len() == 32,
    ensures
        is_cid_bytes(utf8(hex_chars(s))),
{
    lemma_hex_bytes_shape(s);
    lemma_ascii_utf8(hex_bytes(s));
}

/// ASCII text is encoded byte for byte.
pub proof fn lemma_ascii_text(s: Seq<char>)
    requires
        is_ascii_chars(s),
    ensures
        all_ascii(utf8(s)),
        ascii_chars(utf8(s)) == s,
{
    let b = utf8(s);
    is_ascii_chars_encode_utf8(s);
    is_ascii_chars_nat_bound(s);
    assert forall|i: int| 0 <= i < b.len() implies #[trigger] b[i] < 128 by {
        assert(s[i] as u8 == b[i]);
        assert((s[i] as nat) < 128);
    }
    lemma_ascii_utf8(b);
    encode_utf8_decode_utf8(s);
    encode_utf8_decode_utf8(ascii_chars(b));
}

/// Text whose encoding is a content identifier is 64 ASCII characters, the
/// characters its bytes stand for.
pub proof fn lemma_cid_ascii(s: Seq<char>)
    requires
        is_cid_bytes(utf8(s)),
    ensures
        ascii_chars(utf8(s)) == s,
        all_ascii(utf8(s)),
        s.len() == 64,
{
    let b = utf8(s);
    assert(all_ascii(b)) by {
        assert forall|i: int| 0 <= i < b.len() implies #[trigger] b[i] < 128 by {
            assert(is_hex_digit(b[i]));
        }
    }
    lemma_ascii_utf8(b);
    vstd::utf8::encode_utf8_decode_utf8(s);
    vstd::utf8::encode_utf8_decode_utf8(ascii_chars(b));
    assert(ascii_chars(b).len() == 64);
}

/// Whether a non-empty `needle` occurs somewhere in `haystack`.
pub open spec fn occurs_in(haystack: Seq<u8>, needle: Seq<u8>) -> bool {
    needle.len() > 0 && exists|i: int|
        0 <= i && i + needle.len() <= haystack.len() && #[trigger] haystack.subrange(
            i,
            i + needle.len(),
        ) == needle
}

/// Whether the bytes at `start` begin with `needle`.
fn matches_at(haystack: &[u8], needle: &[u8], start: usize) -> (res: bool)
    requires
        start + needle@.len() <= haystack@.len(),
    ensures
        res == (haystack@.subrange(start as int, start + needle@.len()) == needle@),
{
    let mut j: usize = 0;
    while j < needle.len()
        invariant
            start + needle@.len() <= haystack@.len(),
            haystack@.len() == haystack.len(),
            0 <= j <= needle@.len(),
            forall|k: int| 0 <= k < j ==> haystack@[start + k] == needle@[k],
        decreases needle@.len() - j,
    {
        if haystack[start + j] != needle[j] {
            assert(haystack@.subrange(start as int, start + needle@.len())[j as int] != needle@[j as int]);
            return false;
        }
        j = j + 1;
    }
    assert(haystack@.subrange(start as int, start + needle@.len()) =~= needle@);
    true
}

/// Whether a non-empty `needle` occurs in `haystack`: the scan that finds a
/// plaintext sentinel in stored bytes.
pub fn contains_bytes(haystack: &[u8], needle: &[u8]) -> (res: bool)
    ensures
        res == occurs_in(haystack@, needle@),
{
    if needle.len() == 0 || needle.len() > haystack.len() {
        return false;
    }
    let last = haystack.len() - needle.len();
    let mut i: usize = 0;
    while i <= last
        invariant
            needle@.len() > 0,
            haystack@.len() == haystack.len(),
            last + needle@.len() == haystack@.len(),
            0 <= i <= last + 1,
            forall|k: int| 0 <= k < i ==> #[trigger] haystack@.subrange(k, k + needle@.len()) != needle@,
        decreases last + 1 - i,
    {
        if matches_at(haystack, needle, i) {
            return true;
        }
        i = i + 1;
    }
    assert forall|k: int| 0 <= k && k + needle@.len() <= haystack@.len() implies #[trigger] haystack@.subrange(
        k,
        k + needle@.len(),
    ) != needle@ by {
        assert(k < i);
    }
    false
}

/// Whether `value` starts with `prefix`, compared byte by byte.
pub fn starts_with(value: &str, prefix: &str) -> (res: bool)
    ensures
        res == has_prefix(utf8(value@), utf8(prefix@)),
{
    let v = value.as_bytes();
    let p = prefix.as_bytes();
    if p.len() > v.len() {
        return false;
    }
    let mut i: usize = 0;
    while i < p.len()
        invariant
            v@ == utf8(value@),
            p@ == utf8(prefix@),
            p@.len() <= v@.len(),
            0 <= i <= p@.len(),
            forall|j: int| 0 <= j < i ==> v@[j] == p@[j],
        decreases p@.len() - i,
    {
        if v[i] != p[i] {
            assert(v@.take(p@.len() as int)[i as int] != p@[i as int]);
            return false;
        }
        i = i + 1;
    }
    assert(v@.take(p@.len() as int) =~= p@);
    true
}

/// Byte-wise lexicographic order, the order of Rust's `str`.
pub open spec fn bytes_lt(a: Seq<u8>, b: Seq<u8>) -> bool
    decreases a.len(),
{
    if a.len() == 0 {
        b.len() > 0
    } else if b.len() == 0 {
        false
    } else if a[0] != b[0] {
        a[0] < b[0]
    } else {
        bytes_lt(a.drop_first(), b.drop_first())
    }
}

/// Order of strings: the order of their UTF-8 bytes.
pub open spec fn str_lt(a: Seq<char>, b: Seq<char>) -> bool {
    bytes_lt(utf8(a), utf8(b))
}

/// Three-way comparison of byte slices: -1, 0 or 1.
pub fn compare_bytes(a: &[u8], b: &[u8]) -> (res: i8)
    ensures
        res == -1 <==> bytes_lt(a@, b@),
        res == 0 <==> a@ == b@,
        res == 1 <==> bytes_lt(b@, a@),
{
    let mut i: usize = 0;
    while i < a.len() && i < b.len()
        invariant
            0 <= i <= a@.len(),
            i <= b@.len(),
            a@.take(i as int) == b@.take(i as int),
        decreases a@.len() - i,
    {
        if a[i] != b[i] {
            proof {
                lemma_lt_after_common(a@, b@, i as int);
                lemma_lt_after_common(b@, a@, i as int);
            }
            return if a[i] < b[i] {
                -1
            } else {
                1
            };
        }
        i = i + 1;
        assert(a@.take(i as int) =~= a@.take((i - 1) as int).push(a@[i - 1]));
        assert(b@.take(i as int) =~= b@.take((i - 1) as int).push(b@[i - 1]));
    }
    proof {
        lemma_lt_after_common(a@, b@, i as int);
        lemma_lt_after_common(b@, a@, i as int);
    }
    if a.len() == b.len() {
        assert(a@ =~= a@.take(i as int));
        assert(b@ =~= b@.take(i as int));
        0
    } else if a.len() < b.len() {
        -1
    } else {
        1
    }
}

/// After a common prefix of length `i`, the order is decided by what follows.
pub proof fn lemma_lt_after_common(a: Seq<u8>, b: Seq<u8>, i: int)
    requires
        0 <= i <= a.len(),
        i <= b.len(),
        a.take(i) == b.take(i),
    ensures
        bytes_lt(a, b) == (if i < a.len() && i < b.len() {
            if a[i] != b[i] {
                a[i] < b[i]
            } else {
                bytes_lt(a.skip(i + 1), b.skip(i + 1))
            }
        } else {
            i == a.len() && i < b.len()
        }),
    decreases i,
{
    if i > 0 {
        assert(a[0] == a.take(i)[0]);
        assert(b[0] == b.take(i)[0]);
        assert(a.drop_first().take(i - 1) =~= a.take(i).drop_first());
        assert(b.drop_first().take(i - 1) =~= b.take(i).drop_first());
        lemma_lt_after_common(a.drop_first(), b.drop_first(), i - 1);
        if i < a.len() && i < b.len() {
            assert(a.drop_first().skip(i) =~= a.skip(i + 1));
            assert(b.drop_first().skip(i) =~= b.skip(i + 1));
        }
    } else {
        if a.len() > 0 && b.len() > 0 {
            assert(a.skip(1) =~= a.drop_first());
            assert(b.skip(1) =~= b.drop_first());
        }
    }
}

/// `bytes_lt` is irreflexive.
pub proof fn lemma_lt_irreflexive(a: Seq<u8>)
    ensures
        !bytes_lt(a, a),
    decreases a.len(),
{
    if a.len() > 0 {
        lemma_lt_irreflexive(a.drop_first());
    }
}

/// `bytes_lt` is asymmetric.
pub proof fn lemma_lt_asymmetric(a: Seq<u8>, b: Seq<u8>)
    ensures
        bytes_lt(a, b) ==> !bytes_lt(b, a),
    decreases a.len(),
{
    if a.len() > 0 && b.len() > 0 && a[0] == b[0] {
        lemma_lt_asymmetric(a.drop_first(), b.drop_first());
    }
}

/// `bytes_lt` is transitive.
pub proof fn lemma_lt_transitive(a: Seq<u8>, b: Seq<u8>, c: Seq<u8>)
    requires
        bytes_lt(a, b),
        bytes_lt(b, c),
    ensures
        bytes_lt(a, c),
    decreases a.len(),
{
    if a.len() > 0 && b.len() > 0 && c.len() > 0 && a[0] == b[0] && b[0] == c[0] {
        lemma_lt_transitive(a.drop_first(), b.drop_first(), c.drop_first());
    }
}

/// `bytes_lt` is total on distinct sequences.
pub proof fn lemma_lt_total(a: Seq<u8>, b: Seq<u8>)
    ensures
        a != b ==> bytes_lt(a, b) || bytes_lt(b, a),
    decreases a.len(),
{
    if a.len() > 0 && b.len() > 0 && a[0] == b[0] {
        lemma_lt_total(a.drop_first(), b.drop_first());
        if a.drop_first() == b.drop_first() {
            assert(a =~= seq![a[0]] + a.drop_first());
            assert(b =~= seq![b[0]] + b.drop_first());
        }
    } else if a.len() == 0 && b.len() == 0 {
        assert(a =~= b);
    }
}

/// Whether string `a` sorts before string `b`.
pub fn str_less(a: &str, b: &str) -> (res: bool)
    ensures
        res == str_lt(a@, b@),
{
    compare_bytes(a.as_bytes(), b.as_bytes()) == -1
}

/// Whether two strings are equal.
pub fn str_equal(a: &str, b: &str) -> (res: bool)
    ensures
        res == (a@ == b@),
{
    let r = bytes_eq(a.as_bytes(), b.as_bytes());
    proof {
        vstd::utf8::encode_utf8_decode_utf8(a@);
        vstd::utf8::encode_utf8_decode_utf8(b@);
    }
    r
}

/// Big-endian bytes of an unsigned integer of `width` bytes.
pub open spec fn be_bytes(v: nat, width: nat) -> Seq<u8>
    decreases width,
{
    if width == 0 {
        seq![]
    } else {
        be_bytes(v / 256, (width - 1) as nat).push((v % 256) as u8)
    }
}

/// Appends the big-endian bytes of `v` in `width` bytes.
pub fn push_be(out: &mut Vec<u8>, v: u64, width: usize)
    requires
        width <= 8,
    ensures
        final(out)@ == old(out)@ + be_bytes(v as nat, width as nat),
    decreases width,
{
    if width > 0 {
        push_be(out, v / 256, width - 1);
        out.push((v % 256) as u8);
    }
}

/// Two's-complement bytes of a signed 64-bit integer, big-endian.
pub open spec fn be_i64(v: i64) -> Seq<u8> {
    be_bytes((if v < 0 {
        v + 18446744073709551616
    } else {
        v as int
    }) as nat, 8)
}

/// Appends the big-endian two's-complement bytes of `v`.
pub fn push_i64(out: &mut Vec<u8>, v: i64)
    ensures
        final(out)@ == old(out)@ + be_i64(v),
{
    let u: u64 = if v < 0 {
        (v as i128 + 18446744073709551616i128) as u64
    } else {
        v as u64
    };
    push_be(out, u, 8);
}

/// A length-prefixed field: the length as four big-endian bytes (its low 32
/// bits, as `len as u32` keeps them), then the bytes.
pub open spec fn field(value: Seq<u8>) -> Seq<u8> {
    be_bytes(value.len(), 4) + value
}

/// Appends a length-prefixed field.
pub fn push_field(out: &mut Vec<u8>, value: &[u8])
    ensures
        final(out)@ == old(out)@ + field(value@),
{
    push_be(out, value.len() as u64, 4);
    push_bytes(out, value);
    assert(out@ =~= old(out)@ + field(value@));
}

/// A Unicode `White_Space` character, as `char::is_whitespace` decides.
pub open spec fn is_whitespace(c: char) -> bool {
    let u = c as u32;
    (9 <= u <= 13) || u == 32 || u == 0x85 || u == 0xa0 || u == 0x1680 || (0x2000 <= u <= 0x200a)
        || u == 0x2028 || u == 0x2029 || u == 0x202f || u == 0x205f || u == 0x3000
}

/// Whether a character is Unicode white space.
pub fn char_is_whitespace(c: char) -> (res: bool)
    ensures
        res == is_whitespace(c),
{
    let u = c as u32;
    (9 <= u && u <= 13) || u == 32 || u == 0x85 || u == 0xa0 || u == 0x1680 || (0x2000 <= u && u
        <= 0x200a) || u == 0x2028 || u == 0x2029 || u == 0x202f || u == 0x205f || u == 0x3000
}

/// Nothing but white space: what `s.trim().is_empty()` tells.
pub open spec fn is_blank_text(s: Seq<char>) -> bool {
    forall|i: int| 0 <= i < s.len() ==> is_whitespace(#[trigger] s[i])
}

/// Whether a string holds nothing but white space.
pub fn is_blank(s: &str) -> (res: bool)
    ensures
        res == is_blank_text(s@),
{
    broadcast use vstd::string::axiom_spec_iter;

    for c in it: s.chars()
        invariant
            it.seq() == s@,
            forall|i: int| 0 <= i < it.index() ==> is_whitespace(#[trigger] s@[i]),
    {
        if !char_is_whitespace(c) {
            return false;
        }
    }
    true
}

} // verus!
