//! Packet framing: every packet is `Content-Length: <N>`, then CRLFCRLF, then exactly
//! `N` bytes of body.
use vstd::prelude::*;

verus! {

/// The bytes that open every header: `Content-Length: `.
pub open spec fn length_prefix() -> Seq<u8> {
    // C o n t e n t - L e n g t h : (space)
    seq![67u8, 111u8, 110u8, 116u8, 101u8, 110u8, 116u8, 45u8, 76u8, 101u8, 110u8, 103u8, 116u8, 104u8, 58u8, 32u8]
}

/// The bytes that close every header: `\r\n\r\n`.
pub open spec fn header_end() -> Seq<u8> {
    seq![13u8, 10u8, 13u8, 10u8]
}

pub open spec fn is_digit(b: u8) -> bool {
    48 <= b <= 57
}

pub open spec fn all_digits(s: Seq<u8>) -> bool {
    forall|i: int| 0 <= i < s.len() ==> is_digit(#[trigger] s[i])
}

/// The decimal representation of `n`, most significant digit first, without leading zeros.
pub open spec fn decimal(n: nat) -> Seq<u8>
    decreases n,
{
    if n < 10 {
        seq![(48 + n) as u8]
    } else {
        decimal(n / 10).push((48 + n % 10) as u8)
    }
}

/// The number that a run of decimal digits denotes.
pub open spec fn digits_value(s: Seq<u8>) -> nat
    decreases s.len(),
{
    if s.len() == 0 {
        0
    } else {
        digits_value(s.drop_last()) * 10 + (s.last() - 48) as nat
    }
}


/// The header that announces a body of `n` bytes.
pub open spec fn packet_header_spec(n: nat) -> Seq<u8> {
    length_prefix() + decimal(n) + header_end()
}

/// A whole packet that carries `data`.
pub open spec fn packet_spec(data: Seq<u8>) -> Seq<u8> {
    packet_header_spec(data.len()) + data
}

/// The length that a complete header announces: `Some(n)` exactly when `h` is the length
/// prefix, one or more decimal digits denoting `n`, and CRLFCRLF.
pub open spec fn header_value(h: Seq<u8>) -> Option<nat> {
    if h.len() > 20 && h.subrange(0, 16) == length_prefix() && h.subrange(h.len() - 4, h.len() as int)
        == header_end() && all_digits(h.subrange(16, h.len() - 4)) {
        Some(digits_value(h.subrange(16, h.len() - 4)))
    } else {
        None
    }
}

/// Whether `buf` ends with CRLFCRLF, the end of a header.
pub open spec fn ends_header(buf: Seq<u8>) -> bool {
    buf.len() >= 4 && buf.subrange(buf.len() - 4, buf.len() as int) == header_end()
}

/// The decimal representation of a number is a non-empty run of digits that denotes it.
pub proof fn lemma_decimal(n: nat)
    ensures
        decimal(n).len() >= 1,
        all_digits(decimal(n)),
        digits_value(decimal(n)) == n,
    decreases n,
{
    if n < 10 {
        assert(decimal(n).drop_last() =~= Seq::<u8>::empty());
        assert((48 + n) as u8 == 48 + n);
        assert(digits_value(decimal(n)) == digits_value(Seq::<u8>::empty()) * 10 + n);
    } else {
        lemma_decimal(n / 10);
        let d = decimal(n / 10);
        assert(decimal(n).drop_last() =~= d);
        assert(decimal(n).last() == (48 + n % 10) as u8);
        assert((48 + n % 10) as u8 == 48 + n % 10);
        assert(digits_value(decimal(n)) == digits_value(d) * 10 + n % 10);
        assert(n == (n / 10) * 10 + n % 10) by (nonlinear_arith);
        assert forall|i: int| 0 <= i < decimal(n).len() implies is_digit(#[trigger] decimal(n)[i]) by {
            if i < d.len() {
                assert(decimal(n)[i] == d[i]);
            }
        }
    }
}

/// Appends `src` to `dst`.
pub(crate) fn append_bytes(dst: &mut Vec<u8>, src: &[u8])
    ensures
        final(dst)@ == old(dst)@ + src@,
{
    let mut i: usize = 0;
    while i < src.len()
        invariant
            i <= src@.len(),
            dst@ == old(dst)@ + src@.subrange(0, i as int),
        decreases src@.len() - i,
    {
        dst.push(src[i]);
        i = i + 1;
        assert(src@.subrange(0, i as int) =~= src@.subrange(0, i - 1).push(src@[i - 1]));
    }
    assert(src@.subrange(0, src@.len() as int) =~= src@);
}

/// Appends the decimal digits of `n` to `dst`.
fn push_decimal(dst: &mut Vec<u8>, n: usize)
    ensures
        final(dst)@ == old(dst)@ + decimal(n as nat),
    decreases n,
{
    if n < 10 {
        dst.push((48 + n) as u8);
        assert(old(dst)@.push((48 + n) as u8) =~= old(dst)@ + decimal(n as nat));
    } else {
        push_decimal(dst, n / 10);
        dst.push((48 + n % 10) as u8);
        assert(old(dst)@ + decimal((n / 10) as nat) + seq![(48 + n % 10) as u8] =~= old(dst)@
            + decimal(n as nat));
    }
}

/// Appends `Content-Length: ` to `dst`.
fn push_length_prefix(dst: &mut Vec<u8>)
    ensures
        final(dst)@ == old(dst)@ + length_prefix(),
{
    let prefix: [u8; 16] = [67, 111, 110, 116, 101, 110, 116, 45, 76, 101, 110, 103, 116, 104, 58, 32];
    assert(prefix@ =~= length_prefix());
    append_bytes(dst, &prefix);
}

/// Appends CRLFCRLF to `dst`.
fn push_header_end(dst: &mut Vec<u8>)
    ensures
        final(dst)@ == old(dst)@ + header_end(),
{
    dst.push(13);
    dst.push(10);
    dst.push(13);
    dst.push(10);
    assert(old(dst)@.push(13).push(10).push(13).push(10) =~= old(dst)@ + header_end());
}

/// The header that announces a body of `len` bytes: `Content-Length: <len>\r\n\r\n`.
pub fn packet_header(len: usize) -> (header: Vec<u8>)
    ensures
        header@ == packet_header_spec(len as nat),
{
    let mut header: Vec<u8> = Vec::new();
    push_length_prefix(&mut header);
    push_decimal(&mut header, len);
    push_header_end(&mut header);
    assert(Seq::<u8>::empty() + length_prefix() =~= length_prefix());
    header
}

/// The packet that carries `data`: its header followed by `data` itself.
pub fn encode_packet(data: &[u8]) -> (packet: Vec<u8>)
    ensures
        packet@ == packet_spec(data@),
{
    let mut packet = packet_header(data.len());
    append_bytes(&mut packet, data);
    packet
}

/// Whether `buf` ends with CRLFCRLF; a reader that takes bytes one at a time has the whole
/// header once this holds.
pub fn header_terminated(buf: &[u8]) -> (done: bool)
    ensures
        done == ends_header(buf@),
{
    let n = buf.len();
    if n < 4 {
        return false;
    }
    let done = buf[n - 4] == 13 && buf[n - 3] == 10 && buf[n - 2] == 13 && buf[n - 1] == 10;
    assert(done == (buf@.subrange(n - 4, n as int) =~= header_end()));
    done
}


/// A prefix of a run of digits denotes no more than the whole run.
proof fn lemma_digits_value_prefix(s: Seq<u8>, k: int)
    requires
        all_digits(s),
        0 <= k <= s.len(),
    ensures
        digits_value(s.subrange(0, k)) <= digits_value(s),
    decreases s.len(),
{
    if k < s.len() {
        let t = s.drop_last();
        assert forall|i: int| 0 <= i < t.len() implies is_digit(#[trigger] t[i]) by {
            assert(t[i] == s[i]);
        }
        lemma_digits_value_prefix(t, k);
        assert(t.subrange(0, k) =~= s.subrange(0, k));
        assert(is_digit(s[s.len() - 1]));
    } else {
        assert(s.subrange(0, k) =~= s);
    }
}

proof fn lemma_overflow(v: int, d: int, max: int)
    requires
        0 <= d < 10,
        max >= 10,
        v > (max - d) / 10,
    ensures
        v * 10 + d > max,
{
    assert(v * 10 + d > max) by (nonlinear_arith)
        requires
            0 <= d < 10,
            max >= 10,
            v >= (max - d) / 10 + 1,
    ;
}

/// The length that a complete header announces, where it fits in a `usize`.
///
/// `Some(n)` exactly when `header` is `Content-Length: `, then one or more decimal digits
/// that denote `n`, then CRLFCRLF; `None` for any other bytes, and for a length beyond
/// `usize::MAX`.
pub fn parse_header(header: &[u8]) -> (len: Option<usize>)
    ensures
        len == (match header_value(header@) {
            Some(v) => if v <= usize::MAX {
                Some(v as usize)
            } else {
                None
            },
            None => None,
        }),
{
    let n = header.len();
    if n <= 20 {
        return None;
    }
    let prefix: [u8; 16] = [67, 111, 110, 116, 101, 110, 116, 45, 76, 101, 110, 103, 116, 104, 58, 32];
    assert(prefix@ =~= length_prefix());
    let mut i: usize = 0;
    while i < 16
        invariant
            i <= 16,
            n == header@.len(),
            n > 20,
            prefix@ == length_prefix(),
            header@.subrange(0, i as int) =~= length_prefix().subrange(0, i as int),
        decreases 16 - i,
    {
        if header[i] != prefix[i] {
            assert(header@.subrange(0, 16)[i as int] != length_prefix()[i as int]);
            return None;
        }
        i = i + 1;
    }
    assert(length_prefix().subrange(0, 16) =~= length_prefix());
    if !header_terminated(header) {
        return None;
    }
    let ghost body = header@.subrange(16, n - 4);
    let mut value: usize = 0;
    let mut j: usize = 16;
    while j < n - 4
        invariant
            16 <= j <= n - 4,
            n == header@.len(),
            n > 20,
            body == header@.subrange(16, n - 4),
            all_digits(header@.subrange(16, j as int)),
            value == digits_value(header@.subrange(16, j as int)),
        decreases n - 4 - j,
    {
        let b = header[j];
        if b < 48 || b > 57 {
            assert(body[j - 16] == b);
            return None;
        }
        let d = (b - 48) as usize;
        let ghost next = header@.subrange(16, j + 1);
        assert(next.drop_last() =~= header@.subrange(16, j as int));
        assert(next.last() == b);
        assert forall|k: int| 0 <= k < next.len() implies is_digit(#[trigger] next[k]) by {
            if k < next.len() - 1 {
                assert(next[k] == header@.subrange(16, j as int)[k]);
            }
        }
        if value > (usize::MAX - d) / 10 {
            proof {
                lemma_overflow(value as int, d as int, usize::MAX as int);
                if all_digits(body) {
                    assert(body.subrange(0, j + 1 - 16) =~= next);
                    lemma_digits_value_prefix(body, j + 1 - 16);
                }
            }
            return None;
        }
        value = value * 10 + d;
        j = j + 1;
    }
    assert(header@.subrange(16, j as int) =~= body);
    Some(value)
}

/// The header that announces `n` bytes announces exactly `n`.
pub proof fn lemma_header_roundtrip(n: nat)
    ensures
        header_value(packet_header_spec(n)) == Some(n),
{
    lemma_decimal(n);
    let h = packet_header_spec(n);
    let d = decimal(n);
    assert(h.subrange(0, 16) =~= length_prefix());
    assert(h.subrange(h.len() - 4, h.len() as int) =~= header_end());
    assert(h.subrange(16, h.len() - 4) =~= d);
}

/// The only line feeds of a header are the second and fourth bytes of its CRLFCRLF.
proof fn lemma_header_line_feeds(n: nat)
    ensures
        forall|i: int|
            0 <= i < packet_header_spec(n).len() && #[trigger] packet_header_spec(n)[i] == 10
                ==> i == packet_header_spec(n).len() - 3 || i == packet_header_spec(n).len() - 1,
        packet_header_spec(n)[packet_header_spec(n).len() - 5] != 10,
{
    lemma_decimal(n);
    let h = packet_header_spec(n);
    let d = decimal(n);
    assert forall|i: int| 0 <= i < h.len() && #[trigger] h[i] == 10 implies i == h.len() - 3 || i
        == h.len() - 1 by {
        if i < 16 {
            assert(h[i] == length_prefix()[i]);
        } else if i < 16 + d.len() {
            assert(h[i] == d[i - 16]);
        } else {
            assert(h[i] == header_end()[i - 16 - d.len()]);
        }
    }
    assert(h[h.len() - 5] == d[d.len() - 1]);
}

/// A reader that takes a stream one byte at a time and stops at the first CRLFCRLF stops
/// exactly at the end of the header of the packet that opens the stream; that header
/// announces the length of the packet's body, and the bytes that follow are that body.
pub proof fn lemma_reader_recovers_payload(data: Seq<u8>, rest: Seq<u8>)
    ensures
        ({
            let stream = packet_spec(data) + rest;
            let hl = packet_header_spec(data.len()).len() as int;
            &&& ends_header(stream.subrange(0, hl))
            &&& forall|k: int| 0 <= k < hl ==> !ends_header(#[trigger] stream.subrange(0, k))
            &&& header_value(stream.subrange(0, hl)) == Some(data.len())
            &&& stream.subrange(hl, hl + data.len()) == data
        }),
{
    let h = packet_header_spec(data.len());
    let stream = packet_spec(data) + rest;
    let hl = h.len() as int;
    lemma_decimal(data.len());
    assert(stream.subrange(0, hl) =~= h);
    assert(h.subrange(h.len() - 4, h.len() as int) =~= header_end());
    lemma_header_roundtrip(data.len());
    lemma_header_line_feeds(data.len());
    assert forall|k: int| 0 <= k < hl implies !ends_header(#[trigger] stream.subrange(0, k)) by {
        if ends_header(stream.subrange(0, k)) {
            let t = stream.subrange(0, k);
            assert(t.subrange(k - 4, k) == header_end());
            assert(t.subrange(k - 4, k)[3] == t[k - 1]);
            assert(t.subrange(k - 4, k)[1] == t[k - 3]);
            assert(t[k - 1] == h[k - 1]);
            assert(t[k - 3] == h[k - 3]);
            assert(h[k - 1] == 10);
            assert(h[k - 3] == 10);
        }
    }
    assert(stream.subrange(hl, hl + data.len()) =~= data);
}


/// The header's prefix is the text `Content-Length: `, byte for byte, and its end is
/// `\r\n\r\n`.
pub proof fn lemma_header_text()
    ensures
        length_prefix().len() == 16,
        forall|i: int| 0 <= i < 16 ==> length_prefix()[i] == "Content-Length: "@[i] as u8,
        header_end() == seq![13u8, 10u8, 13u8, 10u8],
{
    reveal_strlit("Content-Length: ");
}

/// A length below ten is written as its one ASCII digit, and a run of one ASCII digit
/// denotes that digit's value.
pub proof fn lemma_single_digit(n: nat, b: u8)
    ensures
        n < 10 ==> decimal(n) == seq![(48 + n) as u8],
        48 <= b <= 57 ==> digits_value(seq![b]) == b - 48,
{
    if 48 <= b <= 57 {
        assert(seq![b].drop_last() =~= Seq::<u8>::empty());
        assert(seq![b].last() == b);
        assert(digits_value(Seq::<u8>::empty()) == 0);
    }
}

/// The decimal text of `n` ends with the ASCII digit of `n % 10`, after the decimal text
/// of `n / 10` where `n` has more than one digit; appending an ASCII digit `b` to a run of
/// digits multiplies its value by ten and adds `b - 48`.
pub proof fn lemma_decimal_digits(n: nat, s: Seq<u8>, b: u8)
    ensures
        decimal(n).last() == 48 + n % 10,
        n >= 10 ==> decimal(n).drop_last() == decimal(n / 10),
        48 <= b <= 57 ==> digits_value(s.push(b)) == digits_value(s) * 10 + (b - 48),
{
    if n >= 10 {
        assert(decimal(n).drop_last() =~= decimal(n / 10));
    }
    if 48 <= b <= 57 {
        assert(s.push(b).drop_last() =~= s);
        assert(s.push(b).last() == b);
    }
}


/// A digit is one of the characters `0` to `9`.
pub proof fn lemma_digit_chars(b: u8)
    ensures
        is_digit(b) <==> ('0' as u32 <= b as u32 <= '9' as u32),
{
}

/// A header announces `n` exactly when it is the prefix, then a non-empty run of digits
/// that denotes `n`, then the end of the header.
pub proof fn lemma_header_value_meaning(h: Seq<u8>, digits: Seq<u8>)
    ensures
        header_value(h) matches Some(n) ==> h.subrange(16, h.len() - 4).len() > 0 && all_digits(
            h.subrange(16, h.len() - 4),
        ) && h == length_prefix() + h.subrange(16, h.len() - 4) + header_end() && digits_value(
            h.subrange(16, h.len() - 4),
        ) == n,
        digits.len() > 0 && all_digits(digits) ==> header_value(
            length_prefix() + digits + header_end(),
        ) == Some(digits_value(digits)),
{
    if header_value(h) is Some {
        assert(h =~= h.subrange(0, 16) + h.subrange(16, h.len() - 4) + h.subrange(
            h.len() - 4,
            h.len() as int,
        ));
    }
    if digits.len() > 0 && all_digits(digits) {
        let g = length_prefix() + digits + header_end();
        assert(g.subrange(0, 16) =~= length_prefix());
        assert(g.subrange(g.len() - 4, g.len() as int) =~= header_end());
        assert(g.subrange(16, g.len() - 4) =~= digits);
    }
}

} // verus!
