use vstd::prelude::*;
use vstd::slice::{slice_subrange, slice_to_vec};
use vstd::utf8::{decode_utf8, is_scalar, valid_utf8};

verus! {

broadcast use vstd::utf8::char_is_scalar, vstd::utf8::char_u32_cast;

/// UTF-16 code units of one character: the scalar itself below 0x10000,
/// otherwise a high surrogate followed by a low surrogate.
pub open spec fn utf16_encode_char(c: char) -> Seq<u16> {
    let v = c as u32;
    if v < 0x10000 {
        seq![v as u16]
    } else {
        let w = (v - 0x10000) as u32;
        seq![(0xD800 + w / 0x400) as u16, (0xDC00 + w % 0x400) as u16]
    }
}

/// UTF-16 encoding of a sequence of characters.
pub open spec fn utf16_encode(s: Seq<char>) -> Seq<u16>
    decreases s.len(),
{
    if s.len() == 0 {
        Seq::empty()
    } else {
        utf16_encode_char(s[0]) + utf16_encode(s.drop_first())
    }
}

/// Encoding one more character appends its code units.
pub proof fn lemma_utf16_encode_push(s: Seq<char>, c: char)
    ensures
        utf16_encode(s.push(c)) == utf16_encode(s) + utf16_encode_char(c),
    decreases s.len(),
{
    if s.len() == 0 {
        assert(s.push(c).drop_first() =~= Seq::<char>::empty());
        assert(s.push(c)[0] == c);
        assert(utf16_encode(Seq::<char>::empty()) == Seq::<u16>::empty());
        assert(utf16_encode(s.push(c)) =~= utf16_encode_char(c));
    } else {
        assert(s.push(c).drop_first() =~= s.drop_first().push(c));
        lemma_utf16_encode_push(s.drop_first(), c);
        assert(utf16_encode(s.push(c)) =~= utf16_encode(s) + utf16_encode_char(c));
    }
}

/// Appends the UTF-16 code units of `c` to `out`.
fn push_utf16_char(out: &mut Vec<u16>, c: char)
    ensures
        final(out)@ == old(out)@ + utf16_encode_char(c),
{
    let v = c as u32;
    if v < 0x10000 {
        out.push(v as u16);
    } else {
        let w: u32 = v - 0x10000;
        out.push((0xD800 + w / 0x400) as u16);
        out.push((0xDC00 + w % 0x400) as u16);
    }
}

/// UTF-16 code units of `input`.
pub fn string_to_u16_slice(input: &str) -> (r: Vec<u16>)
    ensures
        r@ == utf16_encode(input@),
{
    let chars = str_chars(input);
    let mut out: Vec<u16> = Vec::new();
    let n = chars.len();
    let mut i: usize = 0;
    while i < n
        invariant
            n == input@.len(),
            chars@ == input@,
            i <= n,
            out@ == utf16_encode(input@.take(i as int)),
        decreases n - i,
    {
        let c = chars[i];
        proof {
            lemma_utf16_encode_push(input@.take(i as int), c);
            assert(input@.take(i as int).push(c) =~= input@.take(i + 1));
        }
        push_utf16_char(&mut out, c);
        i = i + 1;
    }
    assert(input@.take(n as int) =~= input@);
    out
}

/// A UTF-16 high (leading) surrogate.
pub open spec fn is_high_surrogate(u: u16) -> bool {
    0xD800 <= u <= 0xDBFF
}

/// A UTF-16 low (trailing) surrogate.
pub open spec fn is_low_surrogate(u: u16) -> bool {
    0xDC00 <= u <= 0xDFFF
}

/// The scalar value that a surrogate pair stands for.
pub open spec fn surrogate_pair_scalar(hi: u16, lo: u16) -> u32 {
    (0x10000 + (hi - 0xD800) * 0x400 + (lo - 0xDC00)) as u32
}

/// Prefixes `a` to a decoding result, keeping a failure a failure.
pub open spec fn prefix_decoded(a: Seq<char>, rest: Option<Seq<char>>) -> Option<Seq<char>> {
    match rest {
        Some(t) => Some(a + t),
        None => None,
    }
}

/// Strict UTF-16 decoding: `None` when the units hold an unpaired surrogate.
pub open spec fn utf16_decode(u: Seq<u16>) -> Option<Seq<char>>
    decreases u.len(),
{
    if u.len() == 0 {
        Some(Seq::empty())
    } else if is_high_surrogate(u[0]) {
        if u.len() >= 2 && is_low_surrogate(u[1]) {
            prefix_decoded(seq![surrogate_pair_scalar(u[0], u[1]) as char], utf16_decode(u.skip(2)))
        } else {
            None
        }
    } else if is_low_surrogate(u[0]) {
        None
    } else {
        prefix_decoded(seq![(u[0] as u32) as char], utf16_decode(u.skip(1)))
    }
}

/// Decoding the units of one character followed by more units.
proof fn lemma_utf16_decode_char(c: char, t: Seq<u16>)
    ensures
        utf16_decode(utf16_encode_char(c) + t) == prefix_decoded(seq![c], utf16_decode(t)),
{
    let v = c as u32;
    let u = utf16_encode_char(c) + t;
    if v < 0x10000 {
        assert(u[0] == v as u16);
        assert(u.skip(1) =~= t);
        assert((u[0] as u32) as char == c);
    } else {
        let w = (v - 0x10000) as u32;
        assert(w == (w / 0x400) * 0x400 + w % 0x400) by (nonlinear_arith);
        assert(w / 0x400 <= 0x3FF) by (nonlinear_arith)
            requires w <= 0xFFFFF;
        assert(u[0] == (0xD800 + w / 0x400) as u16);
        assert(u[1] == (0xDC00 + w % 0x400) as u16);
        assert(u.skip(2) =~= t);
        assert(surrogate_pair_scalar(u[0], u[1]) == v);
    }
}

/// Decoding what was encoded gives the characters back.
pub proof fn lemma_utf16_decode_encode(s: Seq<char>)
    ensures
        utf16_decode(utf16_encode(s)) == Some(s),
    decreases s.len(),
{
    if s.len() == 0 {
        assert(utf16_encode(s) =~= Seq::<u16>::empty());
    } else {
        lemma_utf16_decode_encode(s.drop_first());
        lemma_utf16_decode_char(s[0], utf16_encode(s.drop_first()));
        assert(seq![s[0]] + s.drop_first() =~= s);
    }
}

/// Encoding what was decoded gives the code units back.
pub proof fn lemma_utf16_encode_decode(u: Seq<u16>)
    requires
        utf16_decode(u) is Some,
    ensures
        utf16_encode(utf16_decode(u)->0) == u,
    decreases u.len(),
{
    if u.len() == 0 {
        assert(utf16_encode(Seq::<char>::empty()) =~= u);
    } else if is_high_surrogate(u[0]) {
        let rest = u.skip(2);
        lemma_utf16_encode_decode(rest);
        let t = utf16_decode(rest)->0;
        let v = surrogate_pair_scalar(u[0], u[1]);
        let c = v as char;
        let s = seq![c] + t;
        assert(s.drop_first() =~= t);
        assert(s[0] == c);
        assert(0x10000 <= v <= 0x10FFFF);
        assert(c as u32 == v);
        let w = (v - 0x10000) as u32;
        assert(w == (u[0] - 0xD800) * 0x400 + (u[1] - 0xDC00));
        assert(w / 0x400 == u[0] - 0xD800 && w % 0x400 == u[1] - 0xDC00) by (nonlinear_arith)
            requires
                w == (u[0] - 0xD800) * 0x400 + (u[1] - 0xDC00),
                0 <= u[1] - 0xDC00 < 0x400,
        ;
        assert(utf16_encode_char(c) =~= u.take(2));
        assert(u.take(2) + rest =~= u);
    } else {
        let rest = u.skip(1);
        lemma_utf16_encode_decode(rest);
        let t = utf16_decode(rest)->0;
        let v = u[0] as u32;
        let c = v as char;
        let s = seq![c] + t;
        assert(s.drop_first() =~= t);
        assert(s[0] == c);
        assert(is_scalar(v));
        assert(c as u32 == v);
        assert(utf16_encode_char(c) =~= u.take(1));
        assert(u.take(1) + rest =~= u);
    }
}

/// Trusted: `String::push` appends the character to the string.
#[verifier::external_body]
pub(crate) fn string_push(s: &mut String, c: char)
    ensures
        final(s)@ == old(s)@.push(c),
{
    s.push(c)
}

/// Trusted: `char::from_u32` gives the character with that scalar value, and
/// `None` for a value that is no Unicode scalar (a surrogate or above 0x10FFFF).
#[verifier::external_body]
fn char_from_u32(v: u32) -> (r: Option<char>)
    ensures
        is_scalar(v) ==> r == Some(v as char),
        !is_scalar(v) ==> r is None,
{
    char::from_u32(v)
}

/// Strict UTF-16 decoding of `units`; `None` when they hold an unpaired surrogate.
pub fn decode_utf16(units: &[u16]) -> (r: Option<String>)
    ensures
        match utf16_decode(units@) {
            Some(t) => r is Some && r->0@ == t,
            None => r is None,
        },
{
    let n = units.len();
    let mut out = String::new();
    let mut i: usize = 0;
    proof {
        assert(units@.skip(0) =~= units@);
        if let Some(t) = utf16_decode(units@) {
            assert(out@ + t =~= t);
        }
    }
    while i < n
        invariant
            n == units@.len(),
            i <= n,
            utf16_decode(units@) == prefix_decoded(out@, utf16_decode(units@.skip(i as int))),
        decreases n - i,
    {
        let a = units[i];
        let ghost rest = units@.skip(i as int);
        assert(rest[0] == a);
        if 0xD800 <= a && a <= 0xDBFF {
            if i + 1 < n && 0xDC00 <= units[i + 1] && units[i + 1] <= 0xDFFF {
                let b = units[i + 1];
                assert(rest[1] == b);
                assert(rest.skip(2) =~= units@.skip(i + 2));
                let v: u32 = 0x10000 + (a as u32 - 0xD800) * 0x400 + (b as u32 - 0xDC00);
                assert(v == surrogate_pair_scalar(a, b));
                match char_from_u32(v) {
                    Some(c) => {
                        proof {
                            let ghost before = out@;
                            assert(before.push(c) =~= before + seq![c]);
                            match utf16_decode(units@.skip(i + 2)) {
                                Some(t) => {
                                    assert(before + (seq![c] + t) =~= before.push(c) + t);
                                },
                                None => {},
                            }
                        }
                        string_push(&mut out, c);
                        i = i + 2;
                    },
                    None => {
                        return None;
                    },
                }
            } else {
                return None;
            }
        } else if 0xDC00 <= a && a <= 0xDFFF {
            return None;
        } else {
            assert(rest.skip(1) =~= units@.skip(i + 1));
            match char_from_u32(a as u32) {
                Some(c) => {
                    proof {
                        let ghost before = out@;
                        match utf16_decode(units@.skip(i + 1)) {
                            Some(t) => {
                                assert(before + (seq![c] + t) =~= before.push(c) + t);
                            },
                            None => {},
                        }
                    }
                    string_push(&mut out, c);
                    i = i + 1;
                },
                None => {
                    return None;
                },
            }
        }
    }
    assert(units@.skip(n as int) =~= Seq::<u16>::empty());
    assert(out@ + Seq::<char>::empty() =~= out@);
    Some(out)
}

/// The string that `s` encodes in UTF-16; the empty string when `s` holds an
/// unpaired surrogate.
pub fn u16_slice_to_string(s: &[u16]) -> (r: String)
    ensures
        match utf16_decode(s@) {
            Some(t) => r@ == t,
            None => r@ == Seq::<char>::empty(),
        },
{
    match decode_utf16(s) {
        Some(text) => text,
        None => String::new(),
    }
}

/// Little-endian bytes of one code unit: the low byte, then the high byte.
pub open spec fn u16_le_bytes(v: u16) -> Seq<u8> {
    seq![(v % 256) as u8, (v / 256) as u8]
}

/// Little-endian bytes of a sequence of code units, two bytes per unit.
pub open spec fn u16s_le_bytes(v: Seq<u16>) -> Seq<u8>
    decreases v.len(),
{
    if v.len() == 0 {
        Seq::empty()
    } else {
        u16s_le_bytes(v.drop_last()) + u16_le_bytes(v.last())
    }
}

/// Two bytes per unit.
pub proof fn lemma_u16s_le_bytes_len(v: Seq<u16>)
    ensures
        u16s_le_bytes(v).len() == 2 * v.len(),
    decreases v.len(),
{
    if v.len() > 0 {
        lemma_u16s_le_bytes_len(v.drop_last());
    }
}

/// The bytes of unit `j` stand at `2 * j` (low) and `2 * j + 1` (high).
pub proof fn lemma_u16s_le_bytes_at(v: Seq<u16>, j: int)
    requires
        0 <= j < v.len(),
    ensures
        u16s_le_bytes(v)[2 * j] == (v[j] % 256) as u8,
        u16s_le_bytes(v)[2 * j + 1] == (v[j] / 256) as u8,
    decreases v.len(),
{
    let p = u16s_le_bytes(v.drop_last());
    lemma_u16s_le_bytes_len(v.drop_last());
    if j < v.len() - 1 {
        lemma_u16s_le_bytes_at(v.drop_last(), j);
        assert(v.drop_last()[j] == v[j]);
    }
}

/// Little-endian bytes of `u16_vec`.
pub fn u16_to_u8_le(u16_vec: &[u16]) -> (r: Vec<u8>)
    ensures
        r@ == u16s_le_bytes(u16_vec@),
        r@.len() == 2 * u16_vec@.len(),
        forall|j: int|
            0 <= j < u16_vec@.len() ==> #[trigger] r@[2 * j] + 256 * r@[2 * j + 1]
                == u16_vec@[j],
{
    let n = u16_vec.len();
    let mut result: Vec<u8> = Vec::new();
    let mut i: usize = 0;
    while i < n
        invariant
            n == u16_vec@.len(),
            i <= n,
            result@ == u16s_le_bytes(u16_vec@.take(i as int)),
        decreases n - i,
    {
        let num = u16_vec[i];
        proof {
            assert(u16_vec@.take(i + 1).drop_last() =~= u16_vec@.take(i as int));
        }
        result.push((num % 256) as u8);
        result.push((num / 256) as u8);
        assert(result@ =~= u16s_le_bytes(u16_vec@.take(i + 1)));
        i = i + 1;
    }
    assert(u16_vec@.take(n as int) =~= u16_vec@);
    proof {
        lemma_u16s_le_bytes_len(u16_vec@);
        assert forall|j: int| 0 <= j < u16_vec@.len() implies #[trigger] result@[2 * j] + 256
            * result@[2 * j + 1] == u16_vec@[j] by {
            lemma_u16s_le_bytes_at(u16_vec@, j);
            let v = u16_vec@[j];
            assert((v % 256) as u8 + 256 * ((v / 256) as u8) == v);
        }
    }
    result
}

/// The UTF-16 units of `s`, followed by a terminating zero when `cstr_end` holds.
pub open spec fn utf16_units(s: Seq<char>, cstr_end: bool) -> Seq<u16> {
    if cstr_end {
        utf16_encode(s).push(0)
    } else {
        utf16_encode(s)
    }
}

/// UTF-16 units of `s`, with a terminating zero when `cstr_end` holds.
pub fn string_to_u16_slice_u16(s: &str, cstr_end: bool) -> (r: Vec<u16>)
    ensures
        r@ == utf16_units(s@, cstr_end),
{
    let mut units = string_to_u16_slice(s);
    if cstr_end {
        units.push(0);
    }
    units
}

/// Little-endian bytes of the UTF-16 units of `s`, with a terminating zero
/// unit when `cstr_end` holds.
pub fn string_to_u16_bytes2(s: &str, cstr_end: bool) -> (r: Vec<u8>)
    ensures
        r@ == u16s_le_bytes(utf16_units(s@, cstr_end)),
        r@.len() == 2 * utf16_units(s@, cstr_end).len(),
{
    let units = string_to_u16_slice_u16(s, cstr_end);
    u16_to_u8_le(units.as_slice())
}

/// A byte length as a `UNICODE_STRING` holds it: twice the unit count, cut
/// to 16 bits.
pub open spec fn byte_len_u16(units: nat) -> u16 {
    ((2 * units) % 0x10000) as u16
}

fn byte_len(units: usize) -> (r: u16)
    ensures
        r == byte_len_u16(units as nat),
{
    let m = units % 0x8000;
    assert(m * 2 == (2 * units) % 0x10000) by (nonlinear_arith)
        requires
            m == units % 0x8000,
    ;
    (m * 2) as u16
}

/// The plain contents of a counted UTF-16 string: its byte length, its
/// capacity in bytes, and the units its buffer holds.
pub struct UnicodeString {
    pub length: u16,
    pub maximum_length: u16,
    pub buffer: Vec<u16>,
}

/// A counted UTF-16 string that owns its zero-terminated buffer.
pub struct SafeUnicodeString {
    pub unicode_string: UnicodeString,
}

impl SafeUnicodeString {
    /// The counted string.
    pub fn as_ref(&self) -> (r: &UnicodeString)
        ensures
            r == &self.unicode_string,
    {
        &self.unicode_string
    }
}

/// The units of `s` without one trailing zero unit.
pub open spec fn without_terminator(s: Seq<u16>) -> Seq<u16> {
    if s.len() > 0 && s.last() == 0 {
        s.drop_last()
    } else {
        s
    }
}

/// A counted string over `s`: its length leaves out one trailing zero unit,
/// its capacity counts every unit.
pub fn u16_slice_to_unicode_string(s: &[u16]) -> (r: UnicodeString)
    ensures
        r.buffer@ == s@,
        r.length == byte_len_u16(without_terminator(s@).len()),
        r.maximum_length == byte_len_u16(s@.len()),
{
    let len = s.len();
    let n = if len > 0 && s[len - 1] == 0 {
        len - 1
    } else {
        len
    };
    UnicodeString { length: byte_len(n), maximum_length: byte_len(len), buffer: slice_to_vec(s) }
}

/// A counted string that owns the zero-terminated UTF-16 units of `s`.
pub fn str_to_unicode_string(s: &str) -> (r: SafeUnicodeString)
    ensures
        r.unicode_string.buffer@ == utf16_encode(s@).push(0),
        r.unicode_string.length == byte_len_u16(utf16_encode(s@).len()),
        r.unicode_string.maximum_length == byte_len_u16(utf16_encode(s@).len() + 1),
{
    let wide = string_to_u16_slice_u16(s, true);
    let len = wide.len();
    SafeUnicodeString {
        unicode_string: UnicodeString {
            length: byte_len(len - 1),
            maximum_length: byte_len(len),
            buffer: wide,
        },
    }
}

/// The string held by the first `length / 2` units of the buffer; the empty
/// string when they hold an unpaired surrogate.
pub fn unicode_string_to_string(s: &UnicodeString) -> (r: String)
    requires
        s.length / 2 <= s.buffer@.len(),
    ensures
        match utf16_decode(s.buffer@.take(s.length as int / 2)) {
            Some(t) => r@ == t,
            None => r@ == Seq::<char>::empty(),
        },
{
    let units = slice_subrange(s.buffer.as_slice(), 0, (s.length / 2) as usize);
    assert(units@ =~= s.buffer@.take(s.length as int / 2));
    u16_slice_to_string(units)
}

/// A counted string made from `s` reads back as `s` when its byte length
/// fits in 16 bits: its length covers exactly the units of `s` (not the
/// terminator), and those units decode to `s`.
pub proof fn law_unicode_string_round_trip(s: Seq<char>)
    requires
        utf16_encode(s).len() < 0x8000,
    ensures
        ({
            let units = utf16_encode(s);
            let length = byte_len_u16(units.len());
            &&& length / 2 == units.len()
            &&& length as int / 2 <= units.push(0).len()
            &&& utf16_decode(units.push(0).take(length as int / 2)) == Some(s)
        }),
{
    let units = utf16_encode(s);
    assert(units.push(0).take(units.len() as int) =~= units);
    lemma_utf16_decode_encode(s);
}

/// What `String::from_utf8_lossy` makes of the bytes.
pub uninterp spec fn utf8_lossy(bytes: Seq<u8>) -> Seq<char>;

/// Trusted: `String::from_utf8_lossy` decodes the bytes as UTF-8, putting
/// U+FFFD in place of each invalid sequence; valid UTF-8 decodes unchanged.
/// What it makes of invalid input is left to the name `utf8_lossy`.
#[verifier::external_body]
pub(crate) fn from_utf8_lossy(bytes: &[u8]) -> (r: String)
    ensures
        r@ == utf8_lossy(bytes@),
        valid_utf8(bytes@) ==> r@ == decode_utf8(bytes@),
{
    String::from_utf8_lossy(bytes).into_owned()
}

/// `i` is the position of the first zero byte of `b`.
pub open spec fn is_first_nul(b: Seq<u8>, i: int) -> bool {
    &&& 0 <= i < b.len()
    &&& b[i] == 0
    &&& forall|j: int| 0 <= j < i ==> b[j] != 0
}

/// The position of the first zero byte of `b`.
pub fn first_nul(b: &[u8]) -> (r: usize)
    requires
        exists|i: int| 0 <= i < b@.len() && b@[i] == 0,
    ensures
        is_first_nul(b@, r as int),
{
    let n = b.len();
    let mut i: usize = 0;
    while i < n
        invariant
            n == b@.len(),
            i <= n,
            forall|j: int| 0 <= j < i ==> b@[j] != 0,
        decreases n - i,
    {
        if b[i] == 0 {
            return i;
        }
        i = i + 1;
    }
    i
}

/// The text of the zero-terminated byte string at the start of `bytes`,
/// decoded from UTF-8 with invalid sequences replaced.
pub fn cstr_to_rust_str(bytes: &[u8]) -> (r: String)
    requires
        exists|i: int| 0 <= i < bytes@.len() && bytes@[i] == 0,
    ensures
        exists|i: int| is_first_nul(bytes@, i) && r@ == utf8_lossy(bytes@.take(i)),
{
    let end = first_nul(bytes);
    let text = slice_subrange(bytes, 0, end);
    assert(text@ =~= bytes@.take(end as int));
    from_utf8_lossy(text)
}


/// The characters of `s`, in order.
pub fn str_chars(s: &str) -> (r: Vec<char>)
    ensures
        r@ == s@,
{
    broadcast use vstd::string::group_string_axioms;
    let mut out: Vec<char> = Vec::new();
    for c in it: s.chars()
        invariant
            out@.len() == it.index(),
            it.seq() == s@,
            forall|j: int| 0 <= j < out@.len() ==> out@[j] == it.seq()[j],
    {
        out.push(c);
    }
    assert(out@ =~= s@);
    out
}

} // verus!

