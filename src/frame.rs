//! The byte framing of a signed state: the JSON object
//! `{"state_id":"…","timestamp":…,"signature":"…"}`.
//!
//! The writer gives the compact form with the members in that order, and
//! escapes in the text fields what JSON requires (quote, backslash, control
//! characters), as serde_json writes them. The reader takes any JSON form of
//! such an object: whitespace between tokens, the members in any order, and
//! every JSON string escape, including `\uXXXX` and surrogate pairs. It
//! refuses a member given twice, a missing or unknown member, a timestamp that
//! is not a non-negative integer within `u64`, and anything after the object
//! but whitespace.

use vstd::prelude::*;

verus! {

pub open spec fn is_digit(b: u8) -> bool {
    48 <= b <= 57
}

pub open spec fn decimal(n: nat) -> Seq<u8>
    decreases n,
{
    if n < 10 {
        seq![(n + 48) as u8]
    } else {
        decimal(n / 10).push((n % 10 + 48) as u8)
    }
}

pub open spec fn digits_value(d: Seq<u8>) -> nat
    decreases d.len(),
{
    if d.len() == 0 {
        0
    } else {
        digits_value(d.drop_last()) * 10 + (d.last() - 48) as nat
    }
}

pub open spec fn key_open() -> Seq<u8> {
    seq![123u8, 34, 115, 116, 97, 116, 101, 95, 105, 100, 34, 58, 34]
}

pub open spec fn key_timestamp() -> Seq<u8> {
    seq![34u8, 44, 34, 116, 105, 109, 101, 115, 116, 97, 109, 112, 34, 58]
}

pub open spec fn key_signature() -> Seq<u8> {
    seq![44u8, 34, 115, 105, 103, 110, 97, 116, 117, 114, 101, 34, 58, 34]
}

pub open spec fn key_close() -> Seq<u8> {
    seq![34u8, 125]
}

pub open spec fn digit_len(b: Seq<u8>, from: int) -> nat
    decreases b.len() - from,
{
    if from < 0 || from >= b.len() || !is_digit(b[from]) {
        0
    } else {
        1 + digit_len(b, from + 1)
    }
}

pub open spec fn has_at(b: Seq<u8>, at: int, piece: Seq<u8>) -> bool {
    0 <= at && at + piece.len() <= b.len() && b.subrange(at, at + piece.len()) == piece
}

proof fn lemma_decimal(n: nat)
    ensures
        digits_value(decimal(n)) == n,
        decimal(n).len() > 0,
        forall|i: int| 0 <= i < decimal(n).len() ==> is_digit(#[trigger] decimal(n)[i]),
    decreases n,
{
    if n >= 10 {
        lemma_decimal(n / 10);
        let d = decimal(n);
        assert(d.drop_last() == decimal(n / 10));
        assert(d.last() == (n % 10 + 48) as u8);
        assert((d.last() - 48) as nat == n % 10);
        assert(digits_value(d) == digits_value(d.drop_last()) * 10 + (d.last() - 48) as nat);
        assert(n == (n / 10) * 10 + n % 10);
        assert forall|i: int| 0 <= i < d.len() implies is_digit(#[trigger] d[i]) by {
            if i < d.len() - 1 {
                assert(d[i] == decimal(n / 10)[i]);
            }
        }
    } else {
        let d = decimal(n);
        assert(d.drop_last() =~= Seq::<u8>::empty());
        assert(d.last() == (n + 48) as u8);
        assert(digits_value(d) == digits_value(d.drop_last()) * 10 + (d.last() - 48) as nat);
    }
}

proof fn lemma_digit_len(b: Seq<u8>, from: int, s: Seq<u8>)
    requires
        0 <= from,
        from + s.len() < b.len(),
        b.subrange(from, from + s.len()) == s,
        forall|i: int| 0 <= i < s.len() ==> is_digit(#[trigger] s[i]),
        !is_digit(b[from + s.len()]),
    ensures
        digit_len(b, from) == s.len(),
    decreases s.len(),
{
    if s.len() > 0 {
        assert(b[from] == s[0]);
        assert(b.subrange(from + 1, from + s.len()) =~= s.drop_first());
        assert forall|i: int| 0 <= i < s.drop_first().len() implies is_digit(
            #[trigger] s.drop_first()[i],
        ) by {
            assert(s.drop_first()[i] == s[i + 1]);
        }
        lemma_digit_len(b, from + 1, s.drop_first());
    }
}

pub(crate) fn push_all(out: &mut Vec<u8>, piece: &[u8])
    ensures
        final(out)@ == old(out)@ + piece@,
{
    let mut i: usize = 0;
    while i < piece.len()
        invariant
            i <= piece@.len(),
            out@ == old(out)@ + piece@.subrange(0, i as int),
        decreases piece@.len() - i,
    {
        out.push(piece[i]);
        i = i + 1;
        assert(piece@.subrange(0, i as int) =~= piece@.subrange(0, i - 1 as int).push(piece@[i - 1]));
    }
    assert(piece@.subrange(0, i as int) =~= piece@);
}

fn key_open_bytes() -> (r: Vec<u8>)
    ensures
        r@ == key_open(),
{
    let r: Vec<u8> = vec![123u8, 34, 115, 116, 97, 116, 101, 95, 105, 100, 34, 58, 34];
    assert(r@ =~= key_open());
    r
}

fn key_timestamp_bytes() -> (r: Vec<u8>)
    ensures
        r@ == key_timestamp(),
{
    let r: Vec<u8> = vec![34u8, 44, 34, 116, 105, 109, 101, 115, 116, 97, 109, 112, 34, 58];
    assert(r@ =~= key_timestamp());
    r
}

fn key_signature_bytes() -> (r: Vec<u8>)
    ensures
        r@ == key_signature(),
{
    let r: Vec<u8> = vec![44u8, 34, 115, 105, 103, 110, 97, 116, 117, 114, 101, 34, 58, 34];
    assert(r@ =~= key_signature());
    r
}

fn key_close_bytes() -> (r: Vec<u8>)
    ensures
        r@ == key_close(),
{
    let r: Vec<u8> = vec![34u8, 125];
    assert(r@ =~= key_close());
    r
}

fn push_decimal(out: &mut Vec<u8>, n: u64)
    ensures
        final(out)@ == old(out)@ + decimal(n as nat),
    decreases n,
{
    if n >= 10 {
        push_decimal(out, n / 10);
    }
    out.push((n % 10 + 48) as u8);
    assert(out@ =~= old(out)@ + decimal(n as nat));
}

fn piece_at(b: &[u8], at: usize, piece: &[u8]) -> (r: bool)
    ensures
        r == has_at(b@, at as int, piece@),
{
    let n = b.len();
    if at > n || piece.len() > n - at {
        return false;
    }
    let mut i: usize = 0;
    while i < piece.len()
        invariant
            n == b@.len(),
            at + piece@.len() <= b@.len(),
            i <= piece@.len(),
            b@.subrange(at as int, at + i) == piece@.subrange(0, i as int),
        decreases piece@.len() - i,
    {
        if b[at + i] != piece[i] {
            assert(b@.subrange(at as int, at + piece@.len())[i as int] != piece@[i as int]);
            return false;
        }
        i = i + 1;
        assert(b@.subrange(at as int, at + i) =~= b@.subrange(at as int, at + i - 1).push(
            b@[at + i - 1],
        ));
        assert(piece@.subrange(0, i as int) =~= piece@.subrange(0, i - 1 as int).push(
            piece@[i - 1],
        ));
    }
    assert(piece@.subrange(0, i as int) =~= piece@);
    true
}

fn scan_digits(b: &[u8], from: usize) -> (r: usize)
    requires
        from <= b@.len(),
    ensures
        r == from + digit_len(b@, from as int),
        r <= b@.len(),
{
    let mut j = from;
    while j < b.len() && 48 <= b[j] && b[j] <= 57
        invariant
            from <= j <= b@.len(),
            digit_len(b@, from as int) == (j - from) + digit_len(b@, j as int),
        decreases b@.len() - j,
    {
        j = j + 1;
    }
    j
}

fn digits_to_u64(b: &[u8], from: usize, to: usize) -> (r: Option<u64>)
    requires
        from <= to <= b@.len(),
        forall|i: int| from <= i < to ==> is_digit(#[trigger] b@[i]),
    ensures
        r is Some <==> digits_value(b@.subrange(from as int, to as int)) <= u64::MAX,
        r is Some ==> r->0 == digits_value(b@.subrange(from as int, to as int)),
{
    let mut v: u64 = 0;
    let mut j = from;
    assert(b@.subrange(from as int, from as int) =~= Seq::<u8>::empty());
    while j < to
        invariant
            from <= j <= to <= b@.len(),
            forall|i: int| from <= i < to ==> is_digit(#[trigger] b@[i]),
            v == digits_value(b@.subrange(from as int, j as int)),
        decreases to - j,
    {
        let d = (b[j] - 48) as u64;
        let ghost prefix = b@.subrange(from as int, j + 1);
        assert(prefix.drop_last() =~= b@.subrange(from as int, j as int));
        assert(digits_value(prefix) == v * 10 + d);
        if v > (u64::MAX - d) / 10 {
            assert(digits_value(prefix) > u64::MAX) by (nonlinear_arith)
                requires
                    v > (u64::MAX - d) / 10,
                    digits_value(prefix) == v * 10 + d,
                    d <= 9,
            ;
            proof {
                lemma_digits_grow(b@.subrange(from as int, to as int), j + 1 - from);
                assert(b@.subrange(from as int, to as int).subrange(0, j + 1 - from) =~= prefix);
            }
            return None;
        }
        v = v * 10 + d;
        j = j + 1;
    }
    Some(v)
}

proof fn lemma_digits_grow(d: Seq<u8>, k: int)
    requires
        0 <= k <= d.len(),
    ensures
        digits_value(d) >= digits_value(d.subrange(0, k)),
    decreases d.len(),
{
    if k < d.len() {
        assert(d.drop_last() =~= d.subrange(0, d.len() - 1));
        lemma_digits_grow(d.drop_last(), k);
        assert(d.drop_last().subrange(0, k) =~= d.subrange(0, k));
    } else {
        assert(d.subrange(0, k) =~= d);
    }
}

fn copy_range(b: &[u8], from: usize, to: usize) -> (r: Vec<u8>)
    requires
        from <= to <= b@.len(),
    ensures
        r@ == b@.subrange(from as int, to as int),
{
    let mut out: Vec<u8> = Vec::new();
    let mut j = from;
    while j < to
        invariant
            from <= j <= to <= b@.len(),
            out@ == b@.subrange(from as int, j as int),
        decreases to - j,
    {
        out.push(b[j]);
        j = j + 1;
        assert(out@ =~= b@.subrange(from as int, j as int));
    }
    out
}

proof fn lemma_digit_run(b: Seq<u8>, from: int, i: int)
    requires
        0 <= from <= i < from + digit_len(b, from),
    ensures
        is_digit(b[i]),
    decreases i - from,
{
    if i > from {
        lemma_digit_run(b, from + 1, i);
    }
}

/// JSON whitespace.
pub open spec fn is_ws(c: u8) -> bool {
    c == 32 || c == 9 || c == 10 || c == 13
}

/// The position of the first byte from `i` on that is not whitespace.
pub open spec fn skip_ws(b: Seq<u8>, i: int) -> int
    decreases b.len() - i,
{
    if 0 <= i < b.len() && is_ws(b[i]) {
        skip_ws(b, i + 1)
    } else {
        i
    }
}

/// The lowercase hexadecimal digit of a value below sixteen, as a byte.
pub open spec fn hex_byte(v: nat) -> u8 {
    if v < 10 {
        (v + 48) as u8
    } else {
        (v + 87) as u8
    }
}

/// The value of a hexadecimal digit, in either case.
pub open spec fn hex_value(c: u8) -> Option<nat> {
    if 48 <= c <= 57 {
        Some((c - 48) as nat)
    } else if 97 <= c <= 102 {
        Some((c - 87) as nat)
    } else if 65 <= c <= 70 {
        Some((c - 55) as nat)
    } else {
        None
    }
}

/// The value of the four hexadecimal digits at `i`.
pub open spec fn hex4(b: Seq<u8>, i: int) -> Option<nat> {
    if 0 <= i && i + 4 <= b.len() && hex_value(b[i]) is Some && hex_value(b[i + 1]) is Some
        && hex_value(b[i + 2]) is Some && hex_value(b[i + 3]) is Some {
        Some(
            hex_value(b[i])->0 * 4096 + hex_value(b[i + 1])->0 * 256 + hex_value(b[i + 2])->0 * 16
                + hex_value(b[i + 3])->0,
        )
    } else {
        None
    }
}

/// The UTF-8 bytes of a code point below `0x110000`.
pub open spec fn utf8_of(cp: nat) -> Seq<u8> {
    if cp < 0x80 {
        seq![cp as u8]
    } else if cp < 0x800 {
        seq![(0xC0 + cp / 64) as u8, (0x80 + cp % 64) as u8]
    } else if cp < 0x10000 {
        seq![(0xE0 + cp / 4096) as u8, (0x80 + (cp / 64) % 64) as u8, (0x80 + cp % 64) as u8]
    } else {
        seq![
            (0xF0 + cp / 262144) as u8,
            (0x80 + (cp / 4096) % 64) as u8,
            (0x80 + (cp / 64) % 64) as u8,
            (0x80 + cp % 64) as u8,
        ]
    }
}

/// The escape that starts with the backslash at `i`: the bytes it stands for
/// and its width.
pub open spec fn escape_at(b: Seq<u8>, i: int) -> Option<(Seq<u8>, int)> {
    if i < 0 || i + 1 >= b.len() {
        None
    } else {
        let c = b[i + 1];
        if c == 34 || c == 92 || c == 47 {
            Some((seq![c], 2))
        } else if c == 98 {
            Some((seq![8u8], 2))
        } else if c == 102 {
            Some((seq![12u8], 2))
        } else if c == 110 {
            Some((seq![10u8], 2))
        } else if c == 114 {
            Some((seq![13u8], 2))
        } else if c == 116 {
            Some((seq![9u8], 2))
        } else if c == 117 {
            match hex4(b, i + 2) {
                None => None,
                Some(h) => if 0xD800 <= h < 0xDC00 {
                    if i + 7 < b.len() && b[i + 6] == 92 && b[i + 7] == 117 {
                        match hex4(b, i + 8) {
                            Some(l) => if 0xDC00 <= l < 0xE000 {
                                Some((utf8_of((0x10000 + (h - 0xD800) * 1024 + (l - 0xDC00)) as nat), 12))
                            } else {
                                None
                            },
                            None => None,
                        }
                    } else {
                        None
                    }
                } else if 0xDC00 <= h < 0xE000 {
                    None
                } else {
                    Some((utf8_of(h), 6))
                },
            }
        } else {
            None
        }
    }
}

/// The body of a JSON string from `i` on, up to and past its closing quote:
/// the bytes it stands for and the position after the quote.
pub open spec fn string_from(b: Seq<u8>, i: int) -> Option<(Seq<u8>, int)>
    decreases b.len() - i,
{
    if i < 0 || i >= b.len() {
        None
    } else if b[i] == 34 {
        Some((Seq::empty(), i + 1))
    } else if b[i] < 32 {
        None
    } else if b[i] == 92 {
        match escape_at(b, i) {
            None => None,
            Some((d, w)) => if w >= 1 {
                prepend(d, string_from(b, i + w))
            } else {
                None
            },
        }
    } else {
        prepend(seq![b[i]], string_from(b, i + 1))
    }
}

/// `p` put in front of the bytes of a string result.
pub open spec fn prepend(p: Seq<u8>, o: Option<(Seq<u8>, int)>) -> Option<(Seq<u8>, int)> {
    match o {
        None => None,
        Some((r, e)) => Some((p + r, e)),
    }
}

/// How a byte is written inside a JSON string.
pub open spec fn escape_byte(c: u8) -> Seq<u8> {
    if c == 34 {
        seq![92u8, 34]
    } else if c == 92 {
        seq![92u8, 92]
    } else if c == 8 {
        seq![92u8, 98]
    } else if c == 9 {
        seq![92u8, 116]
    } else if c == 10 {
        seq![92u8, 110]
    } else if c == 12 {
        seq![92u8, 102]
    } else if c == 13 {
        seq![92u8, 114]
    } else if c < 32 {
        seq![92u8, 117, 48, 48, hex_byte(c as nat / 16), hex_byte(c as nat % 16)]
    } else {
        seq![c]
    }
}

/// Text as it is written between the quotes of a JSON string.
pub open spec fn escape(s: Seq<u8>) -> Seq<u8>
    decreases s.len(),
{
    if s.len() == 0 {
        Seq::empty()
    } else {
        escape_byte(s[0]) + escape(s.drop_first())
    }
}

/// A number at `i`: a run of digits without leading zeros whose value fits
/// in `u64`, and the position after it.
pub open spec fn number_at(b: Seq<u8>, i: int) -> Option<(u64, int)> {
    let n = digit_len(b, i);
    let digits = b.subrange(i, i + n);
    if n > 0 && digits_value(digits) <= u64::MAX && decimal(digits_value(digits)) == digits {
        Some((digits_value(digits) as u64, i + n))
    } else {
        None
    }
}

/// `state_id`
pub open spec fn name_state_id() -> Seq<u8> {
    seq![115u8, 116, 97, 116, 101, 95, 105, 100]
}

/// `timestamp`
pub open spec fn name_timestamp() -> Seq<u8> {
    seq![116u8, 105, 109, 101, 115, 116, 97, 109, 112]
}

/// `signature`
pub open spec fn name_signature() -> Seq<u8> {
    seq![115u8, 105, 103, 110, 97, 116, 117, 114, 101]
}

/// The members read so far: identifier, timestamp, signature.
pub type Fields = (Option<Seq<u8>>, Option<u64>, Option<Seq<u8>>);

/// The value of the member `name` at `i`, added to `f`, and the position
/// after it.
pub open spec fn member_value(b: Seq<u8>, name: Seq<u8>, i: int, f: Fields) -> Option<(Fields, int)> {
    if name == name_state_id() {
        if f.0 is None && 0 <= i < b.len() && b[i] == 34 {
            match string_from(b, i + 1) {
                Some((s, e)) => Some(((Some(s), f.1, f.2), e)),
                None => None,
            }
        } else {
            None
        }
    } else if name == name_timestamp() {
        if f.1 is None {
            match number_at(b, i) {
                Some((v, e)) => Some(((f.0, Some(v), f.2), e)),
                None => None,
            }
        } else {
            None
        }
    } else if name == name_signature() {
        if f.2 is None && 0 <= i < b.len() && b[i] == 34 {
            match string_from(b, i + 1) {
                Some((s, e)) => Some(((f.0, f.1, Some(s)), e)),
                None => None,
            }
        } else {
            None
        }
    } else {
        None
    }
}

/// The member whose name starts at `i`, added to `f`, and the position after
/// its value.
pub open spec fn member_at(b: Seq<u8>, i: int, f: Fields) -> Option<(Fields, int)> {
    if 0 <= i < b.len() && b[i] == 34 {
        match string_from(b, i + 1) {
            None => None,
            Some((name, e)) => {
                let j = skip_ws(b, e);
                if 0 <= j < b.len() && b[j] == 58 {
                    member_value(b, name, skip_ws(b, j + 1), f)
                } else {
                    None
                }
            },
        }
    } else {
        None
    }
}

/// The members from `i` on to the closing brace and the end of the bytes.
pub open spec fn members_from(b: Seq<u8>, i: int, f: Fields) -> Option<Fields>
    decreases b.len() - i,
{
    match member_at(b, i, f) {
        None => None,
        Some((g, e)) => {
            let j = skip_ws(b, e);
            if 0 <= j < b.len() && b[j] == 44 {
                let k = skip_ws(b, j + 1);
                if i < k <= b.len() {
                    members_from(b, k, g)
                } else {
                    None
                }
            } else if 0 <= j < b.len() && b[j] == 125 && skip_ws(b, j + 1) == b.len() {
                Some(g)
            } else {
                None
            }
        },
    }
}

/// Reads a framing back into its identifier, timestamp and signature, or
/// `None` where the bytes are not such a JSON object.
pub open spec fn parse_frame(b: Seq<u8>) -> Option<(Seq<u8>, u64, Seq<u8>)> {
    let i = skip_ws(b, 0);
    if 0 <= i < b.len() && b[i] == 123 {
        match members_from(b, skip_ws(b, i + 1), (None, None, None)) {
            Some((Some(id), Some(ts), Some(sig))) => Some((id, ts, sig)),
            _ => None,
        }
    } else {
        None
    }
}

/// The compact framing of a state identifier, a timestamp and a signature.
pub open spec fn frame_of(id: Seq<u8>, timestamp: u64, signature: Seq<u8>) -> Seq<u8> {
    key_open() + escape(id) + key_timestamp() + decimal(timestamp as nat) + key_signature()
        + escape(signature) + key_close()
}

proof fn lemma_escape_byte(b: Seq<u8>, i: int, c: u8)
    requires
        0 <= i,
        i + escape_byte(c).len() <= b.len(),
        b.subrange(i, i + escape_byte(c).len()) == escape_byte(c),
    ensures
        b[i] == 92 ==> escape_at(b, i) == Some((seq![c], escape_byte(c).len() as int)),
        b[i] != 92 ==> b[i] == c && c >= 32 && c != 34,
        escape_byte(c).len() >= 1,
{
    let e = escape_byte(c);
    let w = e.len() as int;
    assert(b[i] == e[0]) by {
        assert(b.subrange(i, i + w)[0] == b[i]);
    }
    if w >= 2 {
        assert(b[i + 1] == e[1]) by {
            assert(b.subrange(i, i + w)[1] == b[i + 1]);
        }
    }
    if w == 6 {
        assert(b[i + 2] == e[2]) by {
            assert(b.subrange(i, i + w)[2] == b[i + 2]);
        }
        assert(b[i + 3] == e[3]) by {
            assert(b.subrange(i, i + w)[3] == b[i + 3]);
        }
        assert(b[i + 4] == e[4]) by {
            assert(b.subrange(i, i + w)[4] == b[i + 4]);
        }
        assert(b[i + 5] == e[5]) by {
            assert(b.subrange(i, i + w)[5] == b[i + 5]);
        }
    }
    if c != 34 && c != 92 && c != 8 && c != 9 && c != 10 && c != 12 && c != 13 && c < 32 {
        let hi = c as nat / 16;
        let lo = c as nat % 16;
        assert(hi < 2);
        assert(hex_value(b[i + 2]) == Some(0nat));
        assert(hex_value(b[i + 3]) == Some(0nat));
        assert(hex_value(b[i + 4]) == Some(hi));
        assert(hex_value(b[i + 5]) == Some(lo));
        assert(hex4(b, i + 2) == Some(hi * 16 + lo));
        assert(hi * 16 + lo == c as nat);
        assert(utf8_of(c as nat) == seq![c]);
    }
}

/// Reading an escaped text followed by a quote gives the text back.
proof fn lemma_string_at(b: Seq<u8>, i: int, s: Seq<u8>)
    requires
        0 <= i,
        i + escape(s).len() < b.len(),
        b.subrange(i, i + escape(s).len()) == escape(s),
        b[i + escape(s).len()] == 34,
    ensures
        string_from(b, i) == Some((s, i + escape(s).len() + 1)),
    decreases s.len(),
{
    if s.len() > 0 {
        let c = s[0];
        let e = escape_byte(c);
        let rest = escape(s.drop_first());
        assert(escape(s) == e + rest);
        assert(b.subrange(i, i + e.len()) =~= e) by {
            assert(b.subrange(i, i + e.len()) =~= b.subrange(i, i + escape(s).len()).subrange(0, e.len() as int));
        }
        assert(b.subrange(i + e.len(), i + e.len() + rest.len()) =~= rest) by {
            assert(b.subrange(i + e.len(), i + e.len() + rest.len()) =~= b.subrange(i, i + escape(s).len()).subrange(e.len() as int, escape(s).len() as int));
        }
        lemma_escape_byte(b, i, c);
        lemma_string_at(b, i + e.len(), s.drop_first());
        assert(b[i] == e[0]);
        assert(seq![c] + s.drop_first() =~= s);
    }
}

/// Text without quote, backslash or control character is written as it is.
proof fn lemma_escape_plain(s: Seq<u8>)
    requires
        forall|k: int| 0 <= k < s.len() ==> 32 <= #[trigger] s[k] && s[k] != 34 && s[k] != 92,
    ensures
        escape(s) == s,
    decreases s.len(),
{
    if s.len() > 0 {
        lemma_escape_plain(s.drop_first());
        assert(seq![s[0]] + s.drop_first() =~= s);
    }
}

proof fn lemma_skip_none(b: Seq<u8>, i: int)
    requires
        0 <= i < b.len(),
        !is_ws(b[i]),
    ensures
        skip_ws(b, i) == i,
{
}

/// A text member `"name":"…"` at `i` is read into its slot.
#[verifier::rlimit(100)]
proof fn lemma_text_member(b: Seq<u8>, i: int, name: Seq<u8>, v: Seq<u8>, f: Fields)
    requires
        name == name_state_id() || name == name_signature(),
        name == name_state_id() ==> f.0 is None,
        name == name_signature() ==> f.2 is None,
        0 <= i,
        i + name.len() + escape(v).len() + 5 <= b.len(),
        b.subrange(i, i + name.len() + escape(v).len() + 5) == seq![34u8] + name + seq![34u8, 58, 34]
            + escape(v) + seq![34u8],
    ensures
        member_at(b, i, f) == Some((
            if name == name_state_id() { (Some(v), f.1, f.2) } else { (f.0, f.1, Some(v)) },
            i + name.len() + escape(v).len() + 5,
        )),
{
    let n = name.len() as int;
    let w = escape(v).len() as int;
    let piece = b.subrange(i, i + n + w + 5);
    lemma_escape_plain(name_state_id());
    lemma_escape_plain(name_signature());
    assert(piece[0] == 34);
    assert(b[i] == 34) by {
        assert(piece[0] == b[i]);
    }
    assert(b.subrange(i + 1, i + 1 + n) =~= name) by {
        assert(b.subrange(i + 1, i + 1 + n) =~= piece.subrange(1, 1 + n));
    }
    assert(b[i + 1 + n] == 34) by {
        assert(piece[1 + n] == b[i + 1 + n]);
    }
    lemma_string_at(b, i + 1, name);
    assert(b[i + 2 + n] == 58) by {
        assert(piece[2 + n] == b[i + 2 + n]);
    }
    assert(b[i + 3 + n] == 34) by {
        assert(piece[3 + n] == b[i + 3 + n]);
    }
    lemma_skip_none(b, i + 2 + n);
    lemma_skip_none(b, i + 3 + n);
    assert(b.subrange(i + 4 + n, i + 4 + n + w) =~= escape(v)) by {
        assert(b.subrange(i + 4 + n, i + 4 + n + w) =~= piece.subrange(4 + n, 4 + n + w));
    }
    assert(b[i + 4 + n + w] == 34) by {
        assert(piece[4 + n + w] == b[i + 4 + n + w]);
    }
    lemma_string_at(b, i + 4 + n, v);
    assert(name_signature() != name_state_id());
}

/// The timestamp member `"timestamp":…` at `i`, followed by a non-digit, is
/// read into its slot.
#[verifier::rlimit(100)]
proof fn lemma_number_member(b: Seq<u8>, i: int, ts: u64, f: Fields)
    requires
        f.1 is None,
        0 <= i,
        i + 12 + decimal(ts as nat).len() < b.len(),
        b.subrange(i, i + 12 + decimal(ts as nat).len()) == seq![34u8] + name_timestamp() + seq![
            34u8,
            58,
        ] + decimal(ts as nat),
        !is_digit(b[i + 12 + decimal(ts as nat).len()]),
    ensures
        member_at(b, i, f) == Some(((f.0, Some(ts), f.2), i + 12 + decimal(ts as nat).len())),
{
    let d = decimal(ts as nat);
    lemma_decimal(ts as nat);
    let w = d.len() as int;
    let piece = b.subrange(i, i + 12 + w);
    lemma_escape_plain(name_timestamp());
    assert(b[i] == 34) by {
        assert(piece[0] == b[i]);
    }
    assert(b.subrange(i + 1, i + 10) =~= name_timestamp()) by {
        assert(b.subrange(i + 1, i + 10) =~= piece.subrange(1, 10));
    }
    assert(b[i + 10] == 34) by {
        assert(piece[10] == b[i + 10]);
    }
    lemma_string_at(b, i + 1, name_timestamp());
    assert(b[i + 11] == 58) by {
        assert(piece[11] == b[i + 11]);
    }
    lemma_skip_none(b, i + 11);
    assert(b.subrange(i + 12, i + 12 + w) =~= d) by {
        assert(b.subrange(i + 12, i + 12 + w) =~= piece.subrange(12, 12 + w));
    }
    assert(b[i + 12] == d[0]);
    lemma_skip_none(b, i + 12);
    lemma_digit_len(b, i + 12, d);
    assert(number_at(b, i + 12) == Some((ts, i + 12 + w)));
    assert(name_timestamp() != name_state_id());
    assert(name_timestamp()[0] != name_signature()[0]);
}

/// Reading back a framing gives its fields.
#[verifier::rlimit(100)]
pub proof fn lemma_parse_frame(id: Seq<u8>, timestamp: u64, signature: Seq<u8>)
    ensures
        parse_frame(frame_of(id, timestamp, signature)) == Some((id, timestamp, signature)),
{
    let d = decimal(timestamp as nat);
    lemma_decimal(timestamp as nat);
    let ei = escape(id);
    let es = escape(signature);
    let b = frame_of(id, timestamp, signature);
    let p1: int = 13 + ei.len() as int;
    let p2: int = p1 + 14 + d.len() as int;
    let p3: int = p2 + 14 + es.len() as int;
    assert(b.len() == p3 + 2);
    assert(b.subrange(1, p1 + 1) =~= seq![34u8] + name_state_id() + seq![34u8, 58, 34] + ei + seq![34u8]);
    assert(b.subrange(p1 + 2, p2) =~= seq![34u8] + name_timestamp() + seq![34u8, 58] + d);
    assert(b.subrange(p2 + 1, p3 + 1) =~= seq![34u8] + name_signature() + seq![34u8, 58, 34] + es + seq![34u8]);
    assert(b[0] == 123);
    assert(b[1] == 34);
    assert(b[p1 + 1] == 44);
    assert(b[p1 + 2] == 34);
    assert(b[p2] == 44);
    assert(b[p2 + 1] == 34);
    assert(b[p3 + 1] == 125);
    lemma_skip_none(b, 0);
    lemma_skip_none(b, 1);
    lemma_text_member(b, 1, name_state_id(), id, (None, None, None));
    lemma_skip_none(b, p1 + 1);
    lemma_skip_none(b, p1 + 2);
    lemma_number_member(b, p1 + 2, timestamp, (Some(id), None, None));
    lemma_skip_none(b, p2);
    lemma_skip_none(b, p2 + 1);
    lemma_text_member(b, p2 + 1, name_signature(), signature, (Some(id), Some(timestamp), None));
    lemma_skip_none(b, p3 + 1);
    assert(skip_ws(b, p3 + 2) == b.len());
    assert(members_from(b, p2 + 1, (Some(id), Some(timestamp), None)) == Some(
        (Some(id), Some(timestamp), Some(signature)),
    ));
    assert(members_from(b, p1 + 2, (Some(id), None, None)) == Some(
        (Some(id), Some(timestamp), Some(signature)),
    ));
    assert(members_from(b, 1, (None, None, None)) == Some((Some(id), Some(timestamp), Some(signature))));
}

fn hex_byte_exec(v: u8) -> (r: u8)
    requires
        v < 16,
    ensures
        r == hex_byte(v as nat),
{
    if v < 10 {
        v + 48
    } else {
        v + 87
    }
}

/// Appends `c` as it is written inside a JSON string.
fn push_escaped(out: &mut Vec<u8>, c: u8)
    ensures
        final(out)@ == old(out)@ + escape_byte(c),
{
    if c == 34 || c == 92 {
        out.push(92);
        out.push(c);
    } else if c == 8 {
        out.push(92);
        out.push(98);
    } else if c == 9 {
        out.push(92);
        out.push(116);
    } else if c == 10 {
        out.push(92);
        out.push(110);
    } else if c == 12 {
        out.push(92);
        out.push(102);
    } else if c == 13 {
        out.push(92);
        out.push(114);
    } else if c < 32 {
        out.push(92);
        out.push(117);
        out.push(48);
        out.push(48);
        out.push(hex_byte_exec(c / 16));
        out.push(hex_byte_exec(c % 16));
    } else {
        out.push(c);
    }
    assert(out@ =~= old(out)@ + escape_byte(c));
}

proof fn lemma_escape_push(s: Seq<u8>, c: u8)
    ensures
        escape(s.push(c)) == escape(s) + escape_byte(c),
    decreases s.len(),
{
    if s.len() == 0 {
        assert(s.push(c).drop_first() =~= Seq::<u8>::empty());
        assert(s.push(c)[0] == c);
        assert(escape(Seq::<u8>::empty()) == Seq::<u8>::empty());
        assert(escape(s.push(c)) == escape_byte(c) + escape(Seq::<u8>::empty()));
        assert(escape(s.push(c)) =~= escape_byte(c));
        assert(escape(s) =~= Seq::<u8>::empty());
    } else {
        lemma_escape_push(s.drop_first(), c);
        assert(s.push(c).drop_first() =~= s.drop_first().push(c));
        assert(escape(s.push(c)) =~= escape(s) + escape_byte(c));
    }
}

/// Appends `text` as it is written between the quotes of a JSON string.
fn push_escaped_text(out: &mut Vec<u8>, text: &[u8])
    ensures
        final(out)@ == old(out)@ + escape(text@),
{
    let mut i: usize = 0;
    assert(text@.subrange(0, 0) =~= Seq::<u8>::empty());
    while i < text.len()
        invariant
            i <= text@.len(),
            out@ == old(out)@ + escape(text@.subrange(0, i as int)),
        decreases text@.len() - i,
    {
        let ghost before = out@;
        push_escaped(out, text[i]);
        proof {
            assert(text@.subrange(0, i + 1) =~= text@.subrange(0, i as int).push(text@[i as int]));
            lemma_escape_push(text@.subrange(0, i as int), text@[i as int]);
            assert(out@ =~= old(out)@ + escape(text@.subrange(0, i + 1)));
        }
        i = i + 1;
    }
    assert(text@.subrange(0, i as int) =~= text@);
}

/// Writes the compact framing of a state identifier, a timestamp and a
/// signature.
pub fn write_frame(id: &[u8], timestamp: u64, signature: &[u8]) -> (r: Vec<u8>)
    ensures
        r@ == frame_of(id@, timestamp, signature@),
{
    let mut out: Vec<u8> = Vec::new();
    push_all(&mut out, key_open_bytes().as_slice());
    push_escaped_text(&mut out, id);
    push_all(&mut out, key_timestamp_bytes().as_slice());
    push_decimal(&mut out, timestamp);
    push_all(&mut out, key_signature_bytes().as_slice());
    push_escaped_text(&mut out, signature);
    push_all(&mut out, key_close_bytes().as_slice());
    assert(out@ =~= frame_of(id@, timestamp, signature@));
    out
}

fn skip_ws_exec(b: &[u8], i: usize) -> (r: usize)
    requires
        i <= b@.len(),
    ensures
        r == skip_ws(b@, i as int),
        i <= r <= b@.len(),
{
    let mut j = i;
    while j < b.len() && (b[j] == 32 || b[j] == 9 || b[j] == 10 || b[j] == 13)
        invariant
            i <= j <= b@.len(),
            skip_ws(b@, i as int) == skip_ws(b@, j as int),
        decreases b@.len() - j,
    {
        j = j + 1;
    }
    j
}

fn hex_value_exec(c: u8) -> (r: Option<u32>)
    ensures
        match hex_value(c) {
            Some(v) => r == Some(v as u32) && v < 16,
            None => r is None,
        },
{
    if 48 <= c && c <= 57 {
        Some((c - 48) as u32)
    } else if 97 <= c && c <= 102 {
        Some((c - 87) as u32)
    } else if 65 <= c && c <= 70 {
        Some((c - 55) as u32)
    } else {
        None
    }
}

fn hex4_exec(b: &[u8], i: usize) -> (r: Option<u32>)
    ensures
        match hex4(b@, i as int) {
            Some(v) => r == Some(v as u32) && v < 0x10000,
            None => r is None,
        },
{
    if i > b.len() || b.len() - i < 4 {
        return None;
    }
    match (hex_value_exec(b[i]), hex_value_exec(b[i + 1]), hex_value_exec(b[i + 2]), hex_value_exec(b[i + 3])) {
        (Some(a), Some(c), Some(d), Some(e)) => Some(a * 4096 + c * 256 + d * 16 + e),
        _ => None,
    }
}

/// Appends the UTF-8 bytes of a code point.
fn push_utf8(out: &mut Vec<u8>, cp: u32)
    requires
        cp < 0x110000,
    ensures
        final(out)@ == old(out)@ + utf8_of(cp as nat),
{
    if cp < 0x80 {
        out.push(cp as u8);
    } else if cp < 0x800 {
        out.push((0xC0 + cp / 64) as u8);
        out.push((0x80 + cp % 64) as u8);
    } else if cp < 0x10000 {
        out.push((0xE0 + cp / 4096) as u8);
        out.push((0x80 + (cp / 64) % 64) as u8);
        out.push((0x80 + cp % 64) as u8);
    } else {
        out.push((0xF0 + cp / 262144) as u8);
        out.push((0x80 + (cp / 4096) % 64) as u8);
        out.push((0x80 + (cp / 64) % 64) as u8);
        out.push((0x80 + cp % 64) as u8);
    }
    assert(out@ =~= old(out)@ + utf8_of(cp as nat));
}

/// Reads the escape at `i`.
fn escape_exec(b: &[u8], i: usize) -> (r: Option<(Vec<u8>, usize)>)
    requires
        i < b@.len(),
    ensures
        match escape_at(b@, i as int) {
            Some((d, w)) => r matches Some((v, w2)) && v@ == d && w2 == w && i + w <= b@.len(),
            None => r is None,
        },
{
    let n = b.len();
    if i + 1 >= n {
        return None;
    }
    let c = b[i + 1];
    let mut out: Vec<u8> = Vec::new();
    if c == 34 || c == 92 || c == 47 {
        out.push(c);
    } else if c == 98 {
        out.push(8);
    } else if c == 102 {
        out.push(12);
    } else if c == 110 {
        out.push(10);
    } else if c == 114 {
        out.push(13);
    } else if c == 116 {
        out.push(9);
    } else if c == 117 {
        let h = match hex4_exec(b, i + 2) {
            Some(h) => h,
            None => {
                return None;
            },
        };
        if 0xD800 <= h && h < 0xDC00 {
            if b.len() - i > 7 && b[i + 6] == 92 && b[i + 7] == 117 {
                match hex4_exec(b, i + 8) {
                    Some(l) => {
                        if 0xDC00 <= l && l < 0xE000 {
                            push_utf8(&mut out, 0x10000 + (h - 0xD800) * 1024 + (l - 0xDC00));
                            return Some((out, 12));
                        } else {
                            return None;
                        }
                    },
                    None => {
                        return None;
                    },
                }
            } else {
                return None;
            }
        } else if 0xDC00 <= h && h < 0xE000 {
            return None;
        } else {
            push_utf8(&mut out, h);
            return Some((out, 6));
        }
    } else {
        return None;
    }
    assert(out@ =~= seq![out@[0]]);
    Some((out, 2))
}

/// Reads the body of a JSON string from `i` on, past its closing quote.
fn string_exec(b: &[u8], i: usize) -> (r: Option<(Vec<u8>, usize)>)
    requires
        i <= b@.len(),
    ensures
        match string_from(b@, i as int) {
            Some((s, e)) => r matches Some((v, e2)) && v@ == s && e2 == e && e <= b@.len(),
            None => r is None,
        },
{
    let mut out: Vec<u8> = Vec::new();
    let mut j = i;
    assert(out@ + Seq::<u8>::empty() =~= out@);
    while j < b.len()
        invariant
            i <= j <= b@.len(),
            string_from(b@, i as int) == prepend(out@, string_from(b@, j as int)),
        decreases b@.len() - j,
    {
        let c = b[j];
        if c == 34 {
            assert(out@ + Seq::<u8>::empty() =~= out@);
            return Some((out, j + 1));
        } else if c < 32 {
            return None;
        } else if c == 92 {
            match escape_exec(b, j) {
                None => {
                    return None;
                },
                Some((d, w)) => {
                    let ghost before = out@;
                    push_all(&mut out, d.as_slice());
                    proof {
                        let x = string_from(b@, j + w);
                        match x {
                            Some((rr, ee)) => {
                                assert(before + (d@ + rr) =~= (before + d@) + rr);
                            },
                            None => {},
                        }
                    }
                    j = j + w;
                },
            }
        } else {
            let ghost before = out@;
            out.push(c);
            proof {
                let x = string_from(b@, j + 1);
                match x {
                    Some((rr, ee)) => {
                        assert(before + (seq![c] + rr) =~= out@ + rr);
                    },
                    None => {},
                }
            }
            j = j + 1;
        }
    }
    None
}

/// Reads the number at `i`.
fn number_exec(b: &[u8], i: usize) -> (r: Option<(u64, usize)>)
    requires
        i <= b@.len(),
    ensures
        match number_at(b@, i as int) {
            Some((v, e)) => r matches Some((v2, e2)) && v2 == v && e2 == e && e <= b@.len(),
            None => r is None,
        },
{
    let j = scan_digits(b, i);
    if j == i {
        return None;
    }
    proof {
        assert forall|k: int| i <= k < j implies is_digit(#[trigger] b@[k]) by {
            lemma_digit_run(b@, i as int, k);
        }
    }
    let v = match digits_to_u64(b, i, j) {
        Some(v) => v,
        None => {
            return None;
        },
    };
    let mut canonical: Vec<u8> = Vec::new();
    push_decimal(&mut canonical, v);
    assert(canonical@ =~= decimal(v as nat));
    if canonical.len() != j - i || !piece_at(b, i, canonical.as_slice()) {
        return None;
    }
    Some((v, j))
}

/// The members read so far.
pub struct FieldsRead {
    pub id: Option<Vec<u8>>,
    pub timestamp: Option<u64>,
    pub signature: Option<Vec<u8>>,
}

pub open spec fn opt_bytes(o: Option<Vec<u8>>) -> Option<Seq<u8>> {
    match o {
        Some(v) => Some(v@),
        None => None,
    }
}

impl FieldsRead {
    pub open spec fn view(&self) -> Fields {
        (opt_bytes(self.id), self.timestamp, opt_bytes(self.signature))
    }
}

fn name_state_id_bytes() -> (r: Vec<u8>)
    ensures
        r@ == name_state_id(),
{
    let r: Vec<u8> = vec![115u8, 116, 97, 116, 101, 95, 105, 100];
    assert(r@ =~= name_state_id());
    r
}

fn name_timestamp_bytes() -> (r: Vec<u8>)
    ensures
        r@ == name_timestamp(),
{
    let r: Vec<u8> = vec![116u8, 105, 109, 101, 115, 116, 97, 109, 112];
    assert(r@ =~= name_timestamp());
    r
}

fn name_signature_bytes() -> (r: Vec<u8>)
    ensures
        r@ == name_signature(),
{
    let r: Vec<u8> = vec![115u8, 105, 103, 110, 97, 116, 117, 114, 101];
    assert(r@ =~= name_signature());
    r
}

fn same_bytes(a: &[u8], b: &[u8]) -> (r: bool)
    ensures
        r == (a@ == b@),
{
    if a.len() != b.len() {
        return false;
    }
    let r = piece_at(a, 0, b);
    assert(a@.subrange(0, b@.len() as int) =~= a@);
    r
}

/// Reads the value of the member `name` at `i` into `f`.
fn value_exec(b: &[u8], name: &[u8], i: usize, f: FieldsRead) -> (r: Option<(FieldsRead, usize)>)
    requires
        i <= b@.len(),
    ensures
        match member_value(b@, name@, i as int, f.view()) {
            Some((g, e)) => r matches Some((h, e2)) && h.view() == g && e2 == e && e <= b@.len(),
            None => r is None,
        },
{
    let is_id = same_bytes(name, name_state_id_bytes().as_slice());
    let is_ts = same_bytes(name, name_timestamp_bytes().as_slice());
    let is_sig = same_bytes(name, name_signature_bytes().as_slice());
    if is_id {
        if f.id.is_some() || i >= b.len() || b[i] != 34 {
            return None;
        }
        match string_exec(b, i + 1) {
            Some((s, e)) => Some((FieldsRead { id: Some(s), timestamp: f.timestamp, signature: f.signature }, e)),
            None => None,
        }
    } else if is_ts {
        if f.timestamp.is_some() {
            return None;
        }
        match number_exec(b, i) {
            Some((v, e)) => Some((FieldsRead { id: f.id, timestamp: Some(v), signature: f.signature }, e)),
            None => None,
        }
    } else if is_sig {
        if f.signature.is_some() || i >= b.len() || b[i] != 34 {
            return None;
        }
        match string_exec(b, i + 1) {
            Some((s, e)) => Some((FieldsRead { id: f.id, timestamp: f.timestamp, signature: Some(s) }, e)),
            None => None,
        }
    } else {
        None
    }
}

/// Reads the member whose name starts at `i` into `f`.
fn member_exec(b: &[u8], i: usize, f: FieldsRead) -> (r: Option<(FieldsRead, usize)>)
    requires
        i <= b@.len(),
    ensures
        match member_at(b@, i as int, f.view()) {
            Some((g, e)) => r matches Some((h, e2)) && h.view() == g && e2 == e && e <= b@.len(),
            None => r is None,
        },
{
    if i >= b.len() || b[i] != 34 {
        return None;
    }
    let (name, e) = match string_exec(b, i + 1) {
        Some(x) => x,
        None => {
            return None;
        },
    };
    let j = skip_ws_exec(b, e);
    if j >= b.len() || b[j] != 58 {
        return None;
    }
    let v = skip_ws_exec(b, j + 1);
    value_exec(b, name.as_slice(), v, f)
}

/// Reads a framing back into its identifier, timestamp and signature.
pub fn read_frame(b: &[u8]) -> (r: Option<(Vec<u8>, u64, Vec<u8>)>)
    ensures
        match parse_frame(b@) {
            Some(f) => r matches Some((id, ts, sig)) && id@ == f.0 && ts == f.1 && sig@ == f.2,
            None => r is None,
        },
{
    let i = skip_ws_exec(b, 0);
    if i >= b.len() || b[i] != 123 {
        return None;
    }
    let mut k = skip_ws_exec(b, i + 1);
    let mut f = FieldsRead { id: None, timestamp: None, signature: None };
    let ghost start = k as int;
    loop
        invariant
            k <= b@.len(),
            i < b@.len(),
            b@[i as int] == 123,
            i as int == skip_ws(b@, 0),
            start == skip_ws(b@, i + 1),
            members_from(b@, start, (None, None, None)) == members_from(b@, k as int, f.view()),
        decreases b@.len() - k,
    {
        let (g, e) = match member_exec(b, k, f) {
            Some(x) => x,
            None => {
                return None;
            },
        };
        let j = skip_ws_exec(b, e);
        if j < b.len() && b[j] == 44 {
            let next = skip_ws_exec(b, j + 1);
            if next <= k {
                return None;
            }
            k = next;
            f = g;
        } else if j < b.len() && b[j] == 125 && skip_ws_exec(b, j + 1) == b.len() {
            return match (g.id, g.timestamp, g.signature) {
                (Some(id), Some(ts), Some(sig)) => Some((id, ts, sig)),
                _ => None,
            };
        } else {
            return None;
        }
    }
}

} // verus!
