//! Networks written in CIDR notation: a dotted-quad address, a slash, and the number of prefix
//! bits, as in `192.168.0.0/16`.

use vstd::prelude::*;
use crate::addr::{Ipv4Addr, Ipv6Addr, octets_to_u32};

verus! {

/// The ASCII code of `0`.
pub const ZERO_DIGIT: u8 = 0x30;

/// The ASCII code of `.`.
pub const DOT: u8 = 0x2e;

/// The ASCII code of `/`.
pub const SLASH: u8 = 0x2f;

/// The ASCII code of `+`.
pub const PLUS: u8 = 0x2b;

/// `c` is the ASCII code of a decimal digit.
pub open spec fn is_digit(c: u8) -> bool {
    0x30 <= c <= 0x39
}

/// The value of the decimal digits `s`, most significant first.
pub open spec fn decimal_value(s: Seq<u8>) -> nat
    decreases s.len(),
{
    if s.len() == 0 {
        0
    } else {
        decimal_value(s.drop_last()) * 10 + (s.last() - ZERO_DIGIT) as nat
    }
}

/// `s` writes one octet of a dotted-quad address: one to three digits, with no leading zero
/// unless it is the only digit, of value at most 255.
pub open spec fn is_octet_text(s: Seq<u8>) -> bool {
    &&& 1 <= s.len() <= 3
    &&& forall|i: int| 0 <= i < s.len() ==> is_digit(#[trigger] s[i])
    &&& (s.len() > 1 ==> s[0] != ZERO_DIGIT)
    &&& decimal_value(s) <= 255
}

/// The dots of `t` at `d1 < d2 < d3` cut it into four octets.
pub open spec fn dotted_quad_at(t: Seq<u8>, d1: int, d2: int, d3: int) -> bool {
    &&& 0 <= d1 < d2 < d3 < t.len()
    &&& t[d1] == DOT && t[d2] == DOT && t[d3] == DOT
    &&& is_octet_text(t.subrange(0, d1))
    &&& is_octet_text(t.subrange(d1 + 1, d2))
    &&& is_octet_text(t.subrange(d2 + 1, d3))
    &&& is_octet_text(t.subrange(d3 + 1, t.len() as int))
}

/// The address that `t` writes as four dot-separated octets, if it writes one.
pub open spec fn ipv4_text(t: Seq<u8>) -> Option<Ipv4Addr> {
    if exists|d1: int, d2: int, d3: int| dotted_quad_at(t, d1, d2, d3) {
        let (d1, d2, d3) = choose|d1: int, d2: int, d3: int| dotted_quad_at(t, d1, d2, d3);
        Some(
            Ipv4Addr {
                bits: octets_to_u32(
                    decimal_value(t.subrange(0, d1)) as u8,
                    decimal_value(t.subrange(d1 + 1, d2)) as u8,
                    decimal_value(t.subrange(d2 + 1, d3)) as u8,
                    decimal_value(t.subrange(d3 + 1, t.len() as int)) as u8,
                ),
            },
        )
    } else {
        None
    }
}

/// Why a text is not a `u8`.
#[derive(Clone, Copy, Debug, PartialEq, Eq, Structural)]
pub enum IntTextError {
    /// The text is empty.
    Empty,
    /// A character is not a digit.
    InvalidDigit,
    /// The value is more than 255.
    Overflow,
}

/// Reading the digits `s` on from the value `acc`, left to right: a character that is not a
/// digit is an invalid digit, and a digit that takes the value past 255 an overflow.
pub open spec fn scan_u8(s: Seq<u8>, acc: nat) -> Result<u8, IntTextError>
    decreases s.len(),
{
    if s.len() == 0 {
        Ok(acc as u8)
    } else if !is_digit(s[0]) {
        Err(IntTextError::InvalidDigit)
    } else if acc * 10 + (s[0] - ZERO_DIGIT) > 255 {
        Err(IntTextError::Overflow)
    } else {
        scan_u8(s.skip(1), (acc * 10 + (s[0] - ZERO_DIGIT)) as nat)
    }
}

/// What reading `s` as a `u8` gives: an optional `+` sign, then one or more digits.
pub open spec fn u8_text(s: Seq<u8>) -> Result<u8, IntTextError> {
    if s.len() == 0 {
        Err(IntTextError::Empty)
    } else if s[0] == PLUS {
        if s.len() == 1 {
            Err(IntTextError::InvalidDigit)
        } else {
            scan_u8(s.skip(1), 0)
        }
    } else {
        scan_u8(s, 0)
    }
}

/// The first index of `c` in `s`, if `c` occurs.
pub open spec fn first_index_of(s: Seq<u8>, c: u8) -> Option<int> {
    if exists|i: int| 0 <= i < s.len() && s[i] == c {
        Some(choose|i: int| 0 <= i < s.len() && s[i] == c && forall|j: int| 0 <= j < i ==> s[j] != c)
    } else {
        None
    }
}

/// Why a text is not a network.
#[derive(Clone, Copy, Debug, PartialEq, Eq, Structural)]
pub enum NetworkParseError {
    /// There is no `/`.
    MissingSlash,
    /// The text before the first `/` is not an IPv4 address.
    InvalidIpv4Addr,
    /// The text before the first `/` is not an IPv6 address.
    InvalidIpv6Addr,
    /// The text after the first `/` is not a `u8`.
    InvalidBits(IntTextError),
    /// An IPv4 prefix has more than 32 bits.
    TooManyIpv4Bits,
    /// An IPv6 prefix has more than 128 bits.
    TooManyIpv6Bits,
}

/// The message of an integer error, as Rust's integer parsing words it.
pub open spec fn int_error_message(e: IntTextError) -> Seq<char> {
    match e {
        IntTextError::Empty => "cannot parse integer from empty string"@,
        IntTextError::InvalidDigit => "invalid digit found in string"@,
        IntTextError::Overflow => "number too large to fit in target type"@,
    }
}

/// The message of a network error.
pub open spec fn network_error_message(e: NetworkParseError) -> Seq<char> {
    match e {
        NetworkParseError::MissingSlash => "missing '/' character"@,
        NetworkParseError::InvalidIpv4Addr => "invalid IPv4 address syntax"@,
        NetworkParseError::InvalidIpv6Addr => "invalid IPv6 address syntax"@,
        NetworkParseError::InvalidBits(e) => int_error_message(e),
        NetworkParseError::TooManyIpv4Bits => "subnet mask bits cannot be greater than 32"@,
        NetworkParseError::TooManyIpv6Bits => "subnet mask bits cannot be greater than 128"@,
    }
}

impl IntTextError {
    /// The message of the error (see `int_error_message`).
    pub fn message(&self) -> (m: &'static str)
        ensures
            m@ == int_error_message(*self),
    {
        match self {
            IntTextError::Empty => "cannot parse integer from empty string",
            IntTextError::InvalidDigit => "invalid digit found in string",
            IntTextError::Overflow => "number too large to fit in target type",
        }
    }
}

impl NetworkParseError {
    /// The message of the error (see `network_error_message`).
    pub fn message(&self) -> (m: &'static str)
        ensures
            m@ == network_error_message(*self),
    {
        match self {
            NetworkParseError::MissingSlash => "missing '/' character",
            NetworkParseError::InvalidIpv4Addr => "invalid IPv4 address syntax",
            NetworkParseError::InvalidIpv6Addr => "invalid IPv6 address syntax",
            NetworkParseError::InvalidBits(e) => e.message(),
            NetworkParseError::TooManyIpv4Bits => "subnet mask bits cannot be greater than 32",
            NetworkParseError::TooManyIpv6Bits => "subnet mask bits cannot be greater than 128",
        }
    }
}

/// What reading `s` as an IPv4 network gives: the address before the first `/` and the number
/// of prefix bits after it, at most 32.
pub open spec fn ipv4_network_text(s: Seq<u8>) -> Result<(Ipv4Addr, u8), NetworkParseError> {
    match first_index_of(s, SLASH) {
        None => Err(NetworkParseError::MissingSlash),
        Some(p) => match ipv4_text(s.take(p)) {
            None => Err(NetworkParseError::InvalidIpv4Addr),
            Some(addr) => match u8_text(s.skip(p + 1)) {
                Err(e) => Err(NetworkParseError::InvalidBits(e)),
                Ok(bits) => if bits > 32 {
                    Err(NetworkParseError::TooManyIpv4Bits)
                } else {
                    Ok((addr, bits))
                },
            },
        },
    }
}

/// The first index in `lo..hi` of the byte `c` in `b`, or `hi` when it does not occur there.
fn find_byte(b: &[u8], lo: usize, hi: usize, c: u8) -> (i: usize)
    requires
        lo <= hi <= b@.len(),
    ensures
        lo <= i <= hi,
        forall|j: int| lo <= j < i ==> b@[j] != c,
        i < hi ==> b@[i as int] == c,
{
    let mut i = lo;
    while i < hi && b[i] != c
        invariant
            lo <= i <= hi,
            hi <= b@.len(),
            forall|j: int| lo <= j < i ==> b@[j] != c,
        decreases hi - i,
    {
        i = i + 1;
    }
    i
}

/// The octet that `b[lo..hi]` writes (see `is_octet_text`), if it writes one.
fn parse_octet(b: &[u8], lo: usize, hi: usize) -> (res: Option<u8>)
    requires
        lo <= hi <= b@.len(),
    ensures
        res is Some <==> is_octet_text(b@.subrange(lo as int, hi as int)),
        res matches Some(v) ==> v == decimal_value(b@.subrange(lo as int, hi as int)),
{
    let ghost s = b@.subrange(lo as int, hi as int);
    if hi - lo < 1 || hi - lo > 3 {
        return None;
    }
    if hi - lo > 1 && b[lo] == ZERO_DIGIT {
        assert(s[0] == ZERO_DIGIT);
        return None;
    }
    let mut v: u16 = 0;
    let mut i = lo;
    while i < hi
        invariant
            lo <= i <= hi <= b@.len(),
            hi - lo <= 3,
            s == b@.subrange(lo as int, hi as int),
            forall|j: int| lo <= j < i ==> is_digit(b@[j]),
            v == decimal_value(b@.subrange(lo as int, i as int)),
            v < (if i - lo == 0 { 1int } else if i - lo == 1 { 10 } else if i - lo == 2 { 100 } else { 1000 }),
        decreases hi - i,
    {
        if !(ZERO_DIGIT <= b[i] && b[i] <= 0x39) {
            assert(s[i - lo] == b@[i as int]);
            return None;
        }
        assert(b@.subrange(lo as int, i + 1).drop_last() =~= b@.subrange(lo as int, i as int));
        v = v * 10 + (b[i] - ZERO_DIGIT) as u16;
        i = i + 1;
    }
    assert(forall|j: int| 0 <= j < s.len() ==> s[j] == b@[lo + j]);
    if v > 255 {
        return None;
    }
    Some(v as u8)
}

/// The dots of a dotted quad in `b[lo..hi]`, at `lo + e1`, `lo + e2` and `lo + e3`, are the
/// only dots there.
proof fn lemma_quad_dots(b: Seq<u8>, lo: int, hi: int, e1: int, e2: int, e3: int)
    requires
        0 <= lo <= hi <= b.len(),
        dotted_quad_at(b.subrange(lo, hi), e1, e2, e3),
    ensures
        0 <= e1 < e2 < e3 < hi - lo,
        b[lo + e1] == DOT && b[lo + e2] == DOT && b[lo + e3] == DOT,
        forall|j: int| lo <= j < lo + e1 ==> b[j] != DOT,
        forall|j: int| lo + e1 < j < lo + e2 ==> b[j] != DOT,
        forall|j: int| lo + e2 < j < lo + e3 ==> b[j] != DOT,
        forall|j: int| lo + e3 < j < hi ==> b[j] != DOT,
{
    let t = b.subrange(lo, hi);
    assert(t[e1] == b[lo + e1] && t[e2] == b[lo + e2] && t[e3] == b[lo + e3]);
    assert forall|j: int| lo <= j < lo + e1 implies b[j] != DOT by {
        assert(t.subrange(0, e1)[j - lo] == b[j]);
    }
    assert forall|j: int| lo + e1 < j < lo + e2 implies b[j] != DOT by {
        assert(t.subrange(e1 + 1, e2)[j - lo - e1 - 1] == b[j]);
    }
    assert forall|j: int| lo + e2 < j < lo + e3 implies b[j] != DOT by {
        assert(t.subrange(e2 + 1, e3)[j - lo - e2 - 1] == b[j]);
    }
    assert forall|j: int| lo + e3 < j < hi implies b[j] != DOT by {
        assert(t.subrange(e3 + 1, t.len() as int)[j - lo - e3 - 1] == b[j]);
    }
}

/// `d` is where a search for a dot in `b[from..hi]` stops: the first dot there, or `hi`.
pub open spec fn dot_search(b: Seq<u8>, from: int, hi: int, d: int) -> bool {
    &&& from <= d <= hi
    &&& forall|j: int| from <= j < d ==> b[j] != DOT
    &&& d < hi ==> b[d] == DOT
}

/// When the searches for the first four dots of `b[lo..hi]` stop at `d1`, `d2`, `d3` and
/// `d4`, any dotted quad there has its dots at the first three, and there is no fourth.
proof fn lemma_found_dots(b: Seq<u8>, lo: int, hi: int, d1: int, d2: int, d3: int, d4: int, e1: int, e2: int, e3: int)
    requires
        0 <= lo <= hi <= b.len(),
        dot_search(b, lo, hi, d1),
        d1 < hi ==> dot_search(b, d1 + 1, hi, d2),
        d1 == hi ==> d2 == hi,
        d2 < hi ==> dot_search(b, d2 + 1, hi, d3),
        d2 == hi ==> d3 == hi,
        d3 < hi ==> dot_search(b, d3 + 1, hi, d4),
        d3 == hi ==> d4 == hi,
        dotted_quad_at(b.subrange(lo, hi), e1, e2, e3),
    ensures
        e1 == d1 - lo && e2 == d2 - lo && e3 == d3 - lo && d3 < hi && d4 == hi,
{
    lemma_quad_dots(b, lo, hi, e1, e2, e3);
    assert(e1 == d1 - lo);
    assert(e2 == d2 - lo);
    assert(e3 == d3 - lo);
}

/// The address that `b[lo..hi]` writes (see `ipv4_text`), if it writes one.
#[verifier::spinoff_prover]
fn parse_ipv4_text(b: &[u8], lo: usize, hi: usize) -> (res: Option<Ipv4Addr>)
    requires
        lo <= hi <= b@.len(),
    ensures
        res == ipv4_text(b@.subrange(lo as int, hi as int)),
{
    let ghost t = b@.subrange(lo as int, hi as int);
    let d1 = find_byte(b, lo, hi, DOT);
    let d2 = if d1 < hi { find_byte(b, d1 + 1, hi, DOT) } else { hi };
    let d3 = if d2 < hi { find_byte(b, d2 + 1, hi, DOT) } else { hi };
    let d4 = if d3 < hi { find_byte(b, d3 + 1, hi, DOT) } else { hi };
    assert forall|e1: int, e2: int, e3: int| dotted_quad_at(t, e1, e2, e3) implies e1 == d1 - lo
        && e2 == d2 - lo && e3 == d3 - lo && d3 < hi && d4 == hi by {
        lemma_found_dots(b@, lo as int, hi as int, d1 as int, d2 as int, d3 as int, d4 as int, e1, e2, e3);
    }
    if d3 >= hi || d4 != hi {
        return None;
    }
    let ghost (e1, e2, e3) = ((d1 - lo) as int, (d2 - lo) as int, (d3 - lo) as int);
    assert(t.subrange(0, e1) =~= b@.subrange(lo as int, d1 as int));
    assert(t.subrange(e1 + 1, e2) =~= b@.subrange(d1 + 1, d2 as int));
    assert(t.subrange(e2 + 1, e3) =~= b@.subrange(d2 + 1, d3 as int));
    assert(t.subrange(e3 + 1, t.len() as int) =~= b@.subrange(d3 + 1, hi as int));
    let o1 = match parse_octet(b, lo, d1) {
        Some(o) => o,
        None => return None,
    };
    let o2 = match parse_octet(b, d1 + 1, d2) {
        Some(o) => o,
        None => return None,
    };
    let o3 = match parse_octet(b, d2 + 1, d3) {
        Some(o) => o,
        None => return None,
    };
    let o4 = match parse_octet(b, d3 + 1, hi) {
        Some(o) => o,
        None => return None,
    };
    assert(dotted_quad_at(t, e1, e2, e3));
    Some(Ipv4Addr::new(o1, o2, o3, o4))
}

/// Reads the digits `b[lo..hi]` as a `u8` (see `scan_u8`).
fn parse_digits_u8(b: &[u8], lo: usize, hi: usize) -> (res: Result<u8, IntTextError>)
    requires
        lo <= hi <= b@.len(),
    ensures
        res == scan_u8(b@.subrange(lo as int, hi as int), 0),
{
    let mut acc: u16 = 0;
    let mut i = lo;
    assert(b@.subrange(lo as int, hi as int).skip(0) =~= b@.subrange(lo as int, hi as int));
    while i < hi
        invariant
            lo <= i <= hi <= b@.len(),
            acc <= 255,
            scan_u8(b@.subrange(lo as int, hi as int), 0) == scan_u8(b@.subrange(i as int, hi as int), acc as nat),
        decreases hi - i,
    {
        let c = b[i];
        assert(b@.subrange(i as int, hi as int)[0] == c);
        if !(ZERO_DIGIT <= c && c <= 0x39) {
            return Err(IntTextError::InvalidDigit);
        }
        let next = acc * 10 + (c - ZERO_DIGIT) as u16;
        if next > 255 {
            return Err(IntTextError::Overflow);
        }
        assert(b@.subrange(i as int, hi as int).skip(1) =~= b@.subrange(i + 1, hi as int));
        acc = next;
        i = i + 1;
    }
    Ok(acc as u8)
}

/// Reads `b[lo..hi]` as a `u8` (see `u8_text`).
fn parse_u8(b: &[u8], lo: usize, hi: usize) -> (res: Result<u8, IntTextError>)
    requires
        lo <= hi <= b@.len(),
    ensures
        res == u8_text(b@.subrange(lo as int, hi as int)),
{
    let ghost s = b@.subrange(lo as int, hi as int);
    if lo == hi {
        return Err(IntTextError::Empty);
    }
    assert(s[0] == b@[lo as int]);
    if b[lo] == PLUS {
        if hi - lo == 1 {
            return Err(IntTextError::InvalidDigit);
        }
        assert(s.skip(1) =~= b@.subrange(lo + 1, hi as int));
        return parse_digits_u8(b, lo + 1, hi);
    }
    parse_digits_u8(b, lo, hi)
}

/// Reads an IPv4 network written in CIDR notation (see `ipv4_network_text`): a dotted-quad
/// address, a `/`, and at most 32 prefix bits.
pub fn parse_ipv4_network(s: &str) -> (res: Result<(Ipv4Addr, u8), NetworkParseError>)
    ensures
        res == ipv4_network_text(vstd::utf8::encode_utf8(s@)),
{
    let b = s.as_bytes();
    let slash = find_byte(b, 0, b.len(), SLASH);
    if slash == b.len() {
        return Err(NetworkParseError::MissingSlash);
    }
    proof {
        let first = choose|i: int| 0 <= i < b@.len() && b@[i] == SLASH && forall|j: int| 0 <= j < i ==> b@[j] != SLASH;
        assert(0 <= slash < b@.len() && b@[slash as int] == SLASH && forall|j: int| 0 <= j < slash ==> b@[j] != SLASH);
        assert(first == slash as int);
        assert(b@.take(slash as int) =~= b@.subrange(0, slash as int));
        assert(b@.skip(slash + 1) =~= b@.subrange(slash + 1, b@.len() as int));
    }
    let addr = match parse_ipv4_text(b, 0, slash) {
        Some(addr) => addr,
        None => return Err(NetworkParseError::InvalidIpv4Addr),
    };
    let bits = match parse_u8(b, slash + 1, b.len()) {
        Ok(bits) => bits,
        Err(e) => return Err(NetworkParseError::InvalidBits(e)),
    };
    if bits > 32 {
        return Err(NetworkParseError::TooManyIpv4Bits);
    }
    Ok((addr, bits))
}

/// The ASCII code of `:`.
pub const COLON: u8 = 0x3a;

/// `c` is the ASCII code of a hexadecimal digit, in either case.
pub open spec fn is_hex_digit(c: u8) -> bool {
    is_digit(c) || (0x41 <= c <= 0x46) || (0x61 <= c <= 0x66)
}

/// The value of the hexadecimal digit `c`.
pub open spec fn hex_digit_value(c: u8) -> nat {
    if is_digit(c) {
        (c - 0x30) as nat
    } else if 0x41 <= c <= 0x46 {
        (c - 0x41 + 10) as nat
    } else {
        (c - 0x61 + 10) as nat
    }
}

/// The value of the hexadecimal digits `s`, most significant first.
pub open spec fn hex_value(s: Seq<u8>) -> nat
    decreases s.len(),
{
    if s.len() == 0 {
        0
    } else {
        hex_value(s.drop_last()) * 16 + hex_digit_value(s.last())
    }
}

/// `s` writes one 16-bit group of an IPv6 address: one to four hexadecimal digits.
pub open spec fn is_group_text(s: Seq<u8>) -> bool {
    &&& 1 <= s.len() <= 4
    &&& forall|i: int| 0 <= i < s.len() ==> is_hex_digit(#[trigger] s[i])
}

/// The first colon of `t` at or after `i`, or the end of `t`.
pub open spec fn next_colon(t: Seq<u8>, i: int) -> int
    decreases t.len() - i,
{
    if i >= t.len() {
        t.len() as int
    } else if t[i] == COLON {
        i
    } else {
        next_colon(t, i + 1)
    }
}

/// The next colon from `i` lies between `i` and the end.
pub proof fn lemma_next_colon_bounds(t: Seq<u8>, i: int)
    requires
        0 <= i <= t.len(),
    ensures
        i <= next_colon(t, i) <= t.len(),
    decreases t.len() - i,
{
    if i < t.len() && t[i] != COLON {
        lemma_next_colon_bounds(t, i + 1);
    }
}

/// The next colon from `i` is the first colon at or after `i`.
proof fn lemma_next_colon_is_first(t: Seq<u8>, i: int, e: int)
    requires
        0 <= i <= e <= t.len(),
        forall|j: int| i <= j < e ==> t[j] != COLON,
        e < t.len() ==> t[e] == COLON,
    ensures
        next_colon(t, i) == e,
    decreases e - i,
{
    if i < e {
        lemma_next_colon_is_first(t, i + 1, e);
    }
}

/// The two 16-bit groups of an IPv4 address written inside an IPv6 address.
pub open spec fn ipv4_groups(a: Ipv4Addr) -> Seq<u16> {
    seq![(a.bits / 0x10000) as u16, (a.bits % 0x10000) as u16]
}

#[verifier::opaque]
/// The 16-bit groups that the colon-separated fields of `t` from `start` on write, each field a
/// group; when `v4_last`, the last field may instead be a dotted-quad address, which writes two
/// groups.
pub open spec fn groups_from(t: Seq<u8>, start: int, v4_last: bool) -> Option<Seq<u16>>
    decreases t.len() - start,
{
    if start < 0 || start > t.len() {
        None
    } else {
        let e = next_colon(t, start);
        let field = t.subrange(start, e);
        if e >= t.len() {
            if is_group_text(field) {
                Some(seq![hex_value(field) as u16])
            } else if v4_last {
                match ipv4_text(field) {
                    Some(a) => Some(ipv4_groups(a)),
                    None => None,
                }
            } else {
                None
            }
        } else if is_group_text(field) {
            proof {
                lemma_next_colon_bounds(t, start);
            }
            match groups_from(t, e + 1, v4_last) {
                Some(rest) => Some(seq![hex_value(field) as u16] + rest),
                None => None,
            }
        } else {
            None
        }
    }
}

/// `:` twice at `i` and `i + 1`.
pub open spec fn double_colon_at(t: Seq<u8>, i: int) -> bool {
    0 <= i && i + 1 < t.len() && t[i] == COLON && t[i + 1] == COLON
}

#[verifier::opaque]
/// The first index of `::` in `t`, if it occurs.
pub open spec fn first_double_colon(t: Seq<u8>) -> Option<int> {
    if exists|i: int| double_colon_at(t, i) {
        Some(choose|i: int| double_colon_at(t, i) && forall|j: int| 0 <= j < i ==> !double_colon_at(t, j))
    } else {
        None
    }
}

/// The eight 16-bit groups that `t` writes as an IPv6 address, if it writes one: eight groups
/// (the last two may be written as a dotted quad), or groups before and after the first `::`,
/// which stands for the zero groups between them, at least one.
pub open spec fn ipv6_text(t: Seq<u8>) -> Option<Seq<u16>> {
    match first_double_colon(t) {
        None => match groups_from(t, 0, true) {
            Some(g) => if g.len() == 8 {
                Some(g)
            } else {
                None
            },
            None => None,
        },
        Some(p) => {
            let head = if p == 0 {
                Some(Seq::<u16>::empty())
            } else {
                groups_from(t.take(p), 0, false)
            };
            let tail = if p + 2 == t.len() {
                Some(Seq::<u16>::empty())
            } else {
                groups_from(t.skip(p + 2), 0, true)
            };
            match (head, tail) {
                (Some(h), Some(r)) => if h.len() + r.len() <= 7 {
                    Some(h + Seq::new((8 - h.len() - r.len()) as nat, |i: int| 0u16) + r)
                } else {
                    None
                },
                _ => None,
            }
        },
    }
}

/// The sixteen octets of eight 16-bit groups, big-endian.
pub open spec fn groups_octets(g: Seq<u16>) -> Seq<u8> {
    Seq::new(16, |i: int| if i % 2 == 0 { (g[i / 2] / 256) as u8 } else { (g[i / 2] % 256) as u8 })
}

/// What reading `s` as an IPv6 network gives: the groups of the address before the first `/`
/// and the number of prefix bits after it, at most 128.
pub open spec fn ipv6_network_text(s: Seq<u8>) -> Result<(Seq<u16>, u8), NetworkParseError> {
    match first_index_of(s, SLASH) {
        None => Err(NetworkParseError::MissingSlash),
        Some(p) => match ipv6_text(s.take(p)) {
            None => Err(NetworkParseError::InvalidIpv6Addr),
            Some(groups) => match u8_text(s.skip(p + 1)) {
                Err(e) => Err(NetworkParseError::InvalidBits(e)),
                Ok(bits) => if bits > 128 {
                    Err(NetworkParseError::TooManyIpv6Bits)
                } else {
                    Ok((groups, bits))
                },
            },
        },
    }
}

/// The group that `b[lo..hi]` writes (see `is_group_text`), if it writes one.
fn parse_hex_group(b: &[u8], lo: usize, hi: usize) -> (res: Option<u16>)
    requires
        lo <= hi <= b@.len(),
    ensures
        res is Some <==> is_group_text(b@.subrange(lo as int, hi as int)),
        res matches Some(v) ==> v == hex_value(b@.subrange(lo as int, hi as int)),
{
    let ghost s = b@.subrange(lo as int, hi as int);
    if hi - lo < 1 || hi - lo > 4 {
        return None;
    }
    let mut v: u32 = 0;
    let mut i = lo;
    while i < hi
        invariant
            lo <= i <= hi <= b@.len(),
            hi - lo <= 4,
            s == b@.subrange(lo as int, hi as int),
            forall|j: int| lo <= j < i ==> is_hex_digit(b@[j]),
            v == hex_value(b@.subrange(lo as int, i as int)),
            v < (if i - lo == 0 { 1int } else if i - lo == 1 { 16 } else if i - lo == 2 { 256 } else if i - lo == 3 { 4096 } else { 65536 }),
        decreases hi - i,
    {
        let c = b[i];
        let d: u32 = if ZERO_DIGIT <= c && c <= 0x39 {
            (c - ZERO_DIGIT) as u32
        } else if 0x41 <= c && c <= 0x46 {
            (c - 0x41 + 10) as u32
        } else if 0x61 <= c && c <= 0x66 {
            (c - 0x61 + 10) as u32
        } else {
            assert(s[i - lo] == b@[i as int]);
            return None;
        };
        assert(b@.subrange(lo as int, i + 1).drop_last() =~= b@.subrange(lo as int, i as int));
        v = v * 16 + d;
        i = i + 1;
    }
    assert(forall|j: int| 0 <= j < s.len() ==> s[j] == b@[lo + j]);
    Some(v as u16)
}

/// `rest` with `prefix` in front, if there is a `rest`.
pub open spec fn prepend(prefix: Seq<u16>, rest: Option<Seq<u16>>) -> Option<Seq<u16>> {
    match rest {
        Some(r) => Some(prefix + r),
        None => None,
    }
}

/// The groups that the fields of `b[lo..hi]` write (see `groups_from`), if they write any.
fn parse_groups(b: &[u8], lo: usize, hi: usize, v4_last: bool) -> (res: Option<Vec<u16>>)
    requires
        lo <= hi <= b@.len(),
    ensures
        match groups_from(b@.subrange(lo as int, hi as int), 0, v4_last) {
            Some(g) => res matches Some(v) && v@ == g,
            None => res is None,
        },
{
    let ghost t = b@.subrange(lo as int, hi as int);
    reveal(groups_from);
    let mut out: Vec<u16> = Vec::new();
    let mut start = lo;
    assert(out@ + Seq::<u16>::empty() =~= Seq::<u16>::empty());
    loop
        invariant
            lo <= start <= hi <= b@.len(),
            t == b@.subrange(lo as int, hi as int),
            groups_from(t, 0, v4_last) == prepend(out@, groups_from(t, start - lo, v4_last)),
        decreases hi - start,
    {
        let end = find_byte(b, start, hi, COLON);
        proof {
            reveal(groups_from);
            assert forall|j: int| start - lo <= j < end - lo implies t[j] != COLON by {
                assert(t[j] == b@[lo + j]);
            }
            if end < hi {
                assert(t[end - lo] == b@[end as int]);
            }
            lemma_next_colon_is_first(t, start - lo, end - lo);
            assert(t.subrange(start - lo, end - lo) =~= b@.subrange(start as int, end as int));
        }
        if end == hi {
            let ghost before = out@;
            if let Some(v) = parse_hex_group(b, start, hi) {
                out.push(v);
                assert(out@ =~= before + seq![v]);
                return Some(out);
            }
            if v4_last {
                if let Some(a) = parse_ipv4_text(b, start, hi) {
                    out.push((a.bits / 0x10000) as u16);
                    out.push((a.bits % 0x10000) as u16);
                    assert(out@ =~= before + ipv4_groups(a));
                    return Some(out);
                }
            }
            return None;
        }
        let v = match parse_hex_group(b, start, end) {
            Some(v) => v,
            None => return None,
        };
        proof {
            match groups_from(t, end - lo + 1, v4_last) {
                Some(r) => {
                    assert(out@.push(v) + r =~= out@ + (seq![v] + r));
                },
                None => {},
            }
        }
        out.push(v);
        start = end + 1;
    }
}

/// The first index in `lo..hi - 1` where `b` holds `::`, or `hi` when there is none.
fn find_double_colon(b: &[u8], lo: usize, hi: usize) -> (i: usize)
    requires
        lo <= hi <= b@.len(),
    ensures
        i == hi || (lo <= i && i + 1 < hi && b@[i as int] == COLON && b@[i + 1] == COLON),
        forall|j: int| lo <= j && j < i && j + 1 < hi ==> !(#[trigger] b@[j] == COLON && b@[j + 1] == COLON),
{
    let mut i = lo;
    while hi - i > 1
        invariant
            lo <= i <= hi <= b@.len(),
            forall|j: int| lo <= j < i && j + 1 < hi ==> !(#[trigger] b@[j] == COLON && b@[j + 1] == COLON),
        decreases hi - i,
    {
        if b[i] == COLON && b[i + 1] == COLON {
            return i;
        }
        i = i + 1;
    }
    hi
}

/// The IPv6 address of eight 16-bit groups.
fn groups_to_addr(g: &Vec<u16>) -> (addr: Ipv6Addr)
    requires
        g@.len() == 8,
    ensures
        addr.octets@ == groups_octets(g@),
{
    let mut octets: [u8; 16] = [0u8; 16];
    let mut i: usize = 0;
    while i < 8
        invariant
            i <= 8,
            g@.len() == 8,
            forall|j: int| 0 <= j < 2 * i ==> octets@[j] == groups_octets(g@)[j],
        decreases 8 - i,
    {
        octets[2 * i] = (g[i] / 256) as u8;
        octets[2 * i + 1] = (g[i] % 256) as u8;
        proof {
            assert((2 * i) as int / 2 == i && (2 * i) as int % 2 == 0);
            assert((2 * i + 1) as int / 2 == i && (2 * i + 1) as int % 2 == 1);
        }
        i = i + 1;
    }
    assert(octets@ =~= groups_octets(g@));
    Ipv6Addr::from_octets(octets)
}

/// `head`, then zero groups up to eight groups in all, then `tail`.
fn join_groups(head: Vec<u16>, tail: &Vec<u16>) -> (out: Vec<u16>)
    requires
        head@.len() + tail@.len() <= 7,
    ensures
        out@ == head@ + Seq::new((8 - head@.len() - tail@.len()) as nat, |i: int| 0u16) + tail@,
{
    let zeros = 8 - head.len() - tail.len();
    let mut out = head;
    let ghost h = out@;
    let mut k: usize = 0;
    assert(out@ =~= h + Seq::new(0, |i: int| 0u16));
    while k < zeros
        invariant
            k <= zeros,
            zeros == 8 - h.len() - tail@.len(),
            out@ == h + Seq::new(k as nat, |i: int| 0u16),
        decreases zeros - k,
    {
        out.push(0);
        k = k + 1;
        assert(out@ =~= h + Seq::new(k as nat, |i: int| 0u16));
    }
    let ghost middle = out@;
    let mut m: usize = 0;
    assert(out@ =~= middle + tail@.take(0));
    while m < tail.len()
        invariant
            m <= tail@.len(),
            out@ == middle + tail@.take(m as int),
        decreases tail@.len() - m,
    {
        out.push(tail[m]);
        m = m + 1;
        assert(out@ =~= middle + tail@.take(m as int));
    }
    assert(tail@.take(tail@.len() as int) =~= tail@);
    out
}

/// Every address that `ipv6_text` reads has eight groups.
pub proof fn lemma_ipv6_text_len(t: Seq<u8>)
    ensures
        ipv6_text(t) matches Some(g) ==> g.len() == 8,
{
}

/// Where `b[lo..hi]` holds `::` first at `dc`, that is the first `::` of the text, and the
/// text before and after it are where the searches left them.
proof fn lemma_first_double_colon(b: Seq<u8>, lo: int, hi: int, dc: int)
    requires
        0 <= lo <= dc,
        dc + 1 < hi <= b.len(),
        b[dc] == COLON && b[dc + 1] == COLON,
        forall|j: int| lo <= j && j < dc && j + 1 < hi ==> !(#[trigger] b[j] == COLON && b[j + 1] == COLON),
    ensures
        first_double_colon(b.subrange(lo, hi)) == Some(dc - lo),
        b.subrange(lo, hi).take(dc - lo) == b.subrange(lo, dc),
        b.subrange(lo, hi).skip(dc - lo + 2) == b.subrange(dc + 2, hi),
{
    reveal(first_double_colon);
    let t = b.subrange(lo, hi);
    let p = dc - lo;
    assert(t[p] == b[dc] && t[p + 1] == b[dc + 1]);
    assert forall|j: int| 0 <= j < p implies !double_colon_at(t, j) by {
        assert(t[j] == b[lo + j] && t[j + 1] == b[lo + j + 1]);
    }
    let first = choose|i: int| double_colon_at(t, i) && forall|j: int| 0 <= j < i ==> !double_colon_at(t, j);
    assert(double_colon_at(t, p));
    assert(first == p);
    assert(t.take(p) =~= b.subrange(lo, dc));
    assert(t.skip(p + 2) =~= b.subrange(dc + 2, hi));
}

/// The groups of the IPv6 address that `b[lo..hi]` writes (see `ipv6_text`), if it writes one.
#[verifier::rlimit(60)]
fn parse_ipv6_text(b: &[u8], lo: usize, hi: usize) -> (res: Option<Vec<u16>>)
    requires
        lo <= hi <= b@.len(),
    ensures
        match ipv6_text(b@.subrange(lo as int, hi as int)) {
            Some(g) => res matches Some(v) && v@ == g,
            None => res is None,
        },
{
    let ghost t = b@.subrange(lo as int, hi as int);
    let dc = find_double_colon(b, lo, hi);
    if dc == hi {
        proof {
            reveal(first_double_colon);
            assert forall|i: int| !double_colon_at(t, i) by {
                if double_colon_at(t, i) {
                    assert(t[i] == b@[lo + i] && t[i + 1] == b@[lo + i + 1]);
                }
            }
        }
        return match parse_groups(b, lo, hi, true) {
            Some(g) => if g.len() == 8 {
                Some(g)
            } else {
                None
            },
            None => None,
        };
    }
    proof {
        lemma_first_double_colon(b@, lo as int, hi as int, dc as int);
    }
    let head = if dc == lo {
        Vec::new()
    } else {
        match parse_groups(b, lo, dc, false) {
            Some(h) => h,
            None => return None,
        }
    };
    let tail = if dc + 2 == hi {
        Vec::new()
    } else {
        match parse_groups(b, dc + 2, hi, true) {
            Some(r) => r,
            None => return None,
        }
    };
    if head.len() > 7 || tail.len() > 7 - head.len() {
        return None;
    }
    Some(join_groups(head, &tail))
}

/// Reads an IPv6 network written in CIDR notation (see `ipv6_network_text`): an IPv6 address,
/// a `/`, and at most 128 prefix bits.
pub fn parse_ipv6_network(s: &str) -> (res: Result<(Ipv6Addr, u8), NetworkParseError>)
    ensures
        match ipv6_network_text(vstd::utf8::encode_utf8(s@)) {
            Ok((groups, bits)) => res matches Ok((addr, b)) && b == bits && addr.octets@ == groups_octets(groups),
            Err(e) => res == Err::<(Ipv6Addr, u8), NetworkParseError>(e),
        },
{
    let b = s.as_bytes();
    let slash = find_byte(b, 0, b.len(), SLASH);
    if slash == b.len() {
        return Err(NetworkParseError::MissingSlash);
    }
    proof {
        let first = choose|i: int| 0 <= i < b@.len() && b@[i] == SLASH && forall|j: int| 0 <= j < i ==> b@[j] != SLASH;
        assert(0 <= slash < b@.len() && b@[slash as int] == SLASH && forall|j: int| 0 <= j < slash ==> b@[j] != SLASH);
        assert(first == slash as int);
        assert(b@.take(slash as int) =~= b@.subrange(0, slash as int));
        assert(b@.skip(slash + 1) =~= b@.subrange(slash + 1, b@.len() as int));
    }
    let groups = match parse_ipv6_text(b, 0, slash) {
        Some(groups) => groups,
        None => return Err(NetworkParseError::InvalidIpv6Addr),
    };
    proof {
        lemma_ipv6_text_len(b@.subrange(0, slash as int));
    }
    let bits = match parse_u8(b, slash + 1, b.len()) {
        Ok(bits) => bits,
        Err(e) => return Err(NetworkParseError::InvalidBits(e)),
    };
    if bits > 128 {
        return Err(NetworkParseError::TooManyIpv6Bits);
    }
    Ok((groups_to_addr(&groups), bits))
}

} // verus!
