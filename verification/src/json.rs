//! Compact JSON encoding of the values that identity and signing bytes are
//! made of: strings, integers, byte arrays, optional strings and lists, in
//! the form `serde_json::to_vec` writes them.
use vstd::prelude::*;
use crate::text::{hex_digit, utf8, push_bytes};

verus! {

/// The escape of one byte inside a JSON string.
pub open spec fn json_escape_byte(b: u8) -> Seq<u8> {
    if b == 34 {
        seq![92u8, 34u8]
    } else if b == 92 {
        seq![92u8, 92u8]
    } else if b == 8 {
        seq![92u8, 98u8]
    } else if b == 12 {
        seq![92u8, 102u8]
    } else if b == 10 {
        seq![92u8, 110u8]
    } else if b == 13 {
        seq![92u8, 114u8]
    } else if b == 9 {
        seq![92u8, 116u8]
    } else if b < 32 {
        seq![92u8, 117u8, 48u8, 48u8, hex_digit((b / 16) as int), hex_digit((b % 16) as int)]
    } else {
        seq![b]
    }
}

/// The escaped body of a JSON string.
pub open spec fn json_escape(s: Seq<u8>) -> Seq<u8>
    decreases s.len(),
{
    if s.len() == 0 {
        seq![]
    } else {
        json_escape(s.drop_last()) + json_escape_byte(s.last())
    }
}

/// A JSON string literal of UTF-8 bytes.
pub open spec fn json_str(s: Seq<u8>) -> Seq<u8> {
    seq![34u8] + json_escape(s) + seq![34u8]
}

/// A JSON string literal of a character sequence.
pub open spec fn json_text(s: Seq<char>) -> Seq<u8> {
    json_str(utf8(s))
}

/// Decimal digits of a natural number.
pub open spec fn dec(n: nat) -> Seq<u8>
    decreases n,
{
    if n < 10 {
        seq![(48 + n) as u8]
    } else {
        dec(n / 10).push((48 + n % 10) as u8)
    }
}

/// A JSON integer.
pub open spec fn json_int(v: int) -> Seq<u8> {
    if v < 0 {
        seq![45u8] + dec((-v) as nat)
    } else {
        dec(v as nat)
    }
}

/// The JSON literal `null`.
pub open spec fn json_null() -> Seq<u8> {
    seq![110u8, 117u8, 108u8, 108u8]
}

/// Comma-separated elements.
pub open spec fn json_join(parts: Seq<Seq<u8>>) -> Seq<u8>
    decreases parts.len(),
{
    if parts.len() == 0 {
        seq![]
    } else if parts.len() == 1 {
        parts[0]
    } else {
        json_join(parts.drop_last()) + seq![44u8] + parts.last()
    }
}

/// A JSON array of already encoded elements.
pub open spec fn json_array(parts: Seq<Seq<u8>>) -> Seq<u8> {
    seq![91u8] + json_join(parts) + seq![93u8]
}

/// A JSON array of numbers, one per byte: how `serde_json` writes `[u8; N]`.
pub open spec fn json_byte_array(s: Seq<u8>) -> Seq<u8> {
    json_array(s.map_values(|b: u8| dec(b as nat)))
}

/// A JSON array of 32-bit unsigned numbers.
pub open spec fn json_u32_array(s: Seq<u32>) -> Seq<u8> {
    json_array(s.map_values(|x: u32| dec(x as nat)))
}

/// A JSON array of strings.
pub open spec fn json_text_array(s: Seq<Seq<char>>) -> Seq<u8> {
    json_array(s.map_values(|x: Seq<char>| json_text(x)))
}

/// An optional string: the string, or `null`.
pub open spec fn json_opt_text(o: Option<Seq<char>>) -> Seq<u8> {
    match o {
        Some(s) => json_text(s),
        None => json_null(),
    }
}

/// An optional integer: the integer, or `null`.
pub open spec fn json_opt_int(o: Option<int>) -> Seq<u8> {
    match o {
        Some(v) => json_int(v),
        None => json_null(),
    }
}

/// Appending one element to a joined list.
pub proof fn lemma_join_push(parts: Seq<Seq<u8>>, x: Seq<u8>)
    ensures
        json_join(parts.push(x)) == if parts.len() == 0 {
            x
        } else {
            json_join(parts) + seq![44u8] + x
        },
{
    assert(parts.push(x).drop_last() =~= parts);
    if parts.len() == 0 {
        assert(parts.push(x)[0] == x);
    }
}

/// Appends the escaped body of a JSON string.
pub fn push_json_escaped(out: &mut Vec<u8>, s: &[u8])
    ensures
        final(out)@ == old(out)@ + json_escape(s@),
{
    let mut i: usize = 0;
    while i < s.len()
        invariant
            0 <= i <= s@.len(),
            out@ == old(out)@ + json_escape(s@.take(i as int)),
        decreases s@.len() - i,
    {
        let b = s[i];
        let ghost before = out@;
        if b == 34 {
            out.push(92);
            out.push(34);
        } else if b == 92 {
            out.push(92);
            out.push(92);
        } else if b == 8 {
            out.push(92);
            out.push(98);
        } else if b == 12 {
            out.push(92);
            out.push(102);
        } else if b == 10 {
            out.push(92);
            out.push(110);
        } else if b == 13 {
            out.push(92);
            out.push(114);
        } else if b == 9 {
            out.push(92);
            out.push(116);
        } else if b < 32 {
            out.push(92);
            out.push(117);
            out.push(48);
            out.push(48);
            let hi: u8 = b / 16;
            let lo: u8 = b % 16;
            out.push(if hi < 10 { 48 + hi } else { 87 + hi });
            out.push(if lo < 10 { 48 + lo } else { 87 + lo });
        } else {
            out.push(b);
        }
        assert(out@ =~= before + json_escape_byte(b));
        i = i + 1;
        assert(s@.take(i as int).drop_last() =~= s@.take((i - 1) as int));
    }
    assert(s@.take(s@.len() as int) =~= s@);
}

/// Appends a JSON string literal of bytes.
pub fn push_json_bytes_str(out: &mut Vec<u8>, s: &[u8])
    ensures
        final(out)@ == old(out)@ + json_str(s@),
{
    out.push(34);
    push_json_escaped(out, s);
    out.push(34);
    assert(out@ =~= old(out)@ + json_str(s@));
}

/// Appends a JSON string literal.
pub fn push_json_str(out: &mut Vec<u8>, s: &str)
    ensures
        final(out)@ == old(out)@ + json_text(s@),
{
    push_json_bytes_str(out, s.as_bytes());
}

/// Appends the decimal digits of `n`.
pub fn push_dec(out: &mut Vec<u8>, n: u64)
    ensures
        final(out)@ == old(out)@ + dec(n as nat),
    decreases n,
{
    if n >= 10 {
        push_dec(out, n / 10);
    }
    out.push((48 + n % 10) as u8);
    assert(out@ =~= old(out)@ + dec(n as nat));
}

/// Appends a JSON integer.
pub fn push_json_i64(out: &mut Vec<u8>, v: i64)
    ensures
        final(out)@ == old(out)@ + json_int(v as int),
{
    if v < 0 {
        out.push(45);
        let m: u64 = (-(v as i128)) as u64;
        push_dec(out, m);
        assert(out@ =~= old(out)@ + json_int(v as int));
    } else {
        push_dec(out, v as u64);
    }
}

/// Appends a JSON array of numbers, one per byte.
pub fn push_json_byte_array(out: &mut Vec<u8>, s: &[u8])
    ensures
        final(out)@ == old(out)@ + json_byte_array(s@),
{
    let ghost parts = s@.map_values(|b: u8| dec(b as nat));
    out.push(91);
    let mut i: usize = 0;
    while i < s.len()
        invariant
            0 <= i <= s@.len(),
            parts == s@.map_values(|b: u8| dec(b as nat)),
            out@ == old(out)@ + seq![91u8] + json_join(parts.take(i as int)),
        decreases s@.len() - i,
    {
        if i > 0 {
            out.push(44);
        }
        push_dec(out, s[i] as u64);
        proof {
            lemma_join_push(parts.take(i as int), parts[i as int]);
            assert(parts.take(i as int).push(parts[i as int]) =~= parts.take(i + 1));
        }
        i = i + 1;
    }
    out.push(93);
    assert(parts.take(s@.len() as int) =~= parts);
    assert(out@ =~= old(out)@ + json_byte_array(s@));
}

/// Appends a JSON array of 32-bit unsigned numbers.
pub fn push_json_u32_array(out: &mut Vec<u8>, s: &Vec<u32>)
    ensures
        final(out)@ == old(out)@ + json_u32_array(s@),
{
    let ghost parts = s@.map_values(|x: u32| dec(x as nat));
    out.push(91);
    let mut i: usize = 0;
    while i < s.len()
        invariant
            0 <= i <= s@.len(),
            parts == s@.map_values(|x: u32| dec(x as nat)),
            out@ == old(out)@ + seq![91u8] + json_join(parts.take(i as int)),
        decreases s@.len() - i,
    {
        if i > 0 {
            out.push(44);
        }
        push_dec(out, s[i] as u64);
        proof {
            lemma_join_push(parts.take(i as int), parts[i as int]);
            assert(parts.take(i as int).push(parts[i as int]) =~= parts.take(i + 1));
        }
        i = i + 1;
    }
    out.push(93);
    assert(parts.take(s@.len() as int) =~= parts);
    assert(out@ =~= old(out)@ + json_u32_array(s@));
}

/// Appends a JSON array of strings.
pub fn push_json_str_array(out: &mut Vec<u8>, v: &Vec<String>)
    ensures
        final(out)@ == old(out)@ + json_text_array(v@.map_values(|x: String| x@)),
{
    let ghost parts = v@.map_values(|x: String| x@).map_values(|x: Seq<char>| json_text(x));
    out.push(91);
    let mut i: usize = 0;
    while i < v.len()
        invariant
            0 <= i <= v@.len(),
            parts == v@.map_values(|x: String| x@).map_values(|x: Seq<char>| json_text(x)),
            out@ == old(out)@ + seq![91u8] + json_join(parts.take(i as int)),
        decreases v@.len() - i,
    {
        if i > 0 {
            out.push(44);
        }
        push_json_str(out, v[i].as_str());
        proof {
            lemma_join_push(parts.take(i as int), parts[i as int]);
            assert(parts.take(i as int).push(parts[i as int]) =~= parts.take(i + 1));
        }
        i = i + 1;
    }
    out.push(93);
    assert(parts.take(v@.len() as int) =~= parts);
    assert(out@ =~= old(out)@ + json_text_array(v@.map_values(|x: String| x@)));
}

/// Appends an optional string: the string, or `null`.
pub fn push_json_opt_str(out: &mut Vec<u8>, o: &Option<String>)
    ensures
        final(out)@ == old(out)@ + json_opt_text(match o {
            Some(s) => Some(s@),
            None => None,
        }),
{
    match o {
        Some(s) => push_json_str(out, s.as_str()),
        None => {
            out.push(110);
            out.push(117);
            out.push(108);
            out.push(108);
            assert(out@ =~= old(out)@ + json_null());
        },
    }
}

/// Appends an optional integer: the integer, or `null`.
pub fn push_json_opt_i64(out: &mut Vec<u8>, o: Option<i64>)
    ensures
        final(out)@ == old(out)@ + json_opt_int(match o {
            Some(v) => Some(v as int),
            None => None,
        }),
{
    match o {
        Some(v) => push_json_i64(out, v),
        None => {
            out.push(110);
            out.push(117);
            out.push(108);
            out.push(108);
            assert(out@ =~= old(out)@ + json_null());
        },
    }
}

/// Appends `"name":`, the head of an object member.
pub fn push_json_key(out: &mut Vec<u8>, name: &str)
    ensures
        final(out)@ == old(out)@ + json_text(name@) + seq![58u8],
{
    push_json_str(out, name);
    out.push(58);
}

} // verus!
