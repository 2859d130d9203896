//! The two small languages typed at the prompt: jump expressions, which name
//! an address, and write literals, which name the bytes to store.

use vstd::arithmetic::div_mod::lemma_fundamental_div_mod;
use vstd::endian::{endianness, Endian};
use vstd::prelude::*;
use vstd::string::*;

verus! {

/// Whether `c` is an ASCII hexadecimal digit, in either case.
pub open spec fn is_hex_digit(c: char) -> bool {
    ('0' <= c && c <= '9') || ('a' <= c && c <= 'f') || ('A' <= c && c <= 'F')
}

/// The value of a hexadecimal digit.
pub open spec fn hex_digit_value(c: char) -> nat {
    if '0' <= c && c <= '9' {
        (c as u32 - '0' as u32) as nat
    } else if 'a' <= c && c <= 'f' {
        (c as u32 - 'a' as u32 + 10) as nat
    } else {
        (c as u32 - 'A' as u32 + 10) as nat
    }
}

/// Whether `s` is a non-empty run of hexadecimal digits.
pub open spec fn is_hex_str(s: Seq<char>) -> bool {
    s.len() > 0 && forall|i: int| 0 <= i < s.len() ==> is_hex_digit(#[trigger] s[i])
}

/// The unsigned value that a run of hexadecimal digits spells, most
/// significant digit first.
pub open spec fn hex_value(s: Seq<char>) -> nat
    decreases s.len(),
{
    if s.len() == 0 {
        0
    } else {
        hex_value(s.drop_last()) * 16 + hex_digit_value(s.last())
    }
}

/// The number that `s` spells in hexadecimal, when it spells one that is at
/// most `max`.
pub open spec fn hex_number(s: Seq<char>, max: nat) -> Option<nat> {
    if is_hex_str(s) && hex_value(s) <= max {
        Some(hex_value(s))
    } else {
        None
    }
}

/// The number that `s` spells in hexadecimal after an optional leading `+`,
/// when it spells one that is at most `max`: the unsigned numbers that
/// `from_str_radix` reads in base 16.
pub open spec fn radix_number(s: Seq<char>, max: nat) -> Option<nat> {
    if s.len() > 0 && s[0] == '+' {
        hex_number(s.drop_first(), max)
    } else {
        hex_number(s, max)
    }
}

/// Whether `s` is an even number of hexadecimal digits (possibly none).
pub open spec fn is_hex_pairs(s: Seq<char>) -> bool {
    s.len() % 2 == 0 && forall|i: int| 0 <= i < s.len() ==> is_hex_digit(#[trigger] s[i])
}

/// The bytes that pairs of hexadecimal digits spell, one byte per pair, the
/// high digit first.
pub open spec fn hex_pairs(s: Seq<char>) -> Seq<u8> {
    Seq::new(
        s.len() / 2,
        |i: int| (hex_digit_value(s[2 * i]) * 16 + hex_digit_value(s[2 * i + 1])) as u8,
    )
}

/// The `n` bytes of `v`, least significant first.
pub open spec fn le_bytes(v: nat, n: nat) -> Seq<u8>
    decreases n,
{
    if n == 0 {
        Seq::empty()
    } else {
        seq![(v % 256) as u8] + le_bytes(v / 256, (n - 1) as nat)
    }
}

/// The `n` bytes of `v` in the byte order of the machine that runs the code.
pub open spec fn native_bytes(v: nat, n: nat) -> Seq<u8> {
    match endianness() {
        Endian::Little => le_bytes(v, n),
        Endian::Big => le_bytes(v, n).reverse(),
    }
}

/// Where `c` first occurs in `s` at or after position `i`.
pub open spec fn find_from(s: Seq<char>, c: char, i: int) -> Option<int>
    decreases s.len() - i,
{
    if i < 0 || i >= s.len() {
        None
    } else if s[i] == c {
        Some(i)
    } else {
        find_from(s, c, i + 1)
    }
}

/// The address a jump expression names, seen from the address `base`:
/// `+HEX` is `base` plus the number, `-HEX` is `base` minus the number,
/// and `HEX` is the number itself. Nothing, when the digits are malformed or
/// the address falls outside the 64-bit address space.
pub open spec fn jump_target(input: Seq<char>, base: u64) -> Option<u64> {
    if input.len() > 0 && input[0] == '+' {
        match hex_number(input.drop_first(), (u64::MAX - base) as nat) {
            Some(v) => Some((base + v) as u64),
            None => None,
        }
    } else if input.len() > 0 && input[0] == '-' {
        match hex_number(input.drop_first(), base as nat) {
            Some(v) => Some((base - v) as u64),
            None => None,
        }
    } else {
        match hex_number(input, u64::MAX as nat) {
            Some(v) => Some(v as u64),
            None => None,
        }
    }
}

/// The byte width a write literal's prefix selects.
pub open spec fn prefix_width(p: Seq<char>) -> Option<nat> {
    if p == seq!['B'] {
        Some(1)
    } else if p == seq!['W'] {
        Some(2)
    } else if p == seq!['D', 'W'] {
        Some(4)
    } else if p == seq!['Q', 'W'] {
        Some(8)
    } else if p == seq!['D', 'Q', 'W'] {
        Some(16)
    } else {
        None
    }
}

/// The largest value that `w` bytes hold.
pub open spec fn width_max(w: nat) -> nat {
    if w == 1 {
        0xff
    } else if w == 2 {
        0xffff
    } else if w == 4 {
        0xffff_ffff
    } else if w == 8 {
        0xffff_ffff_ffff_ffff
    } else {
        0xffff_ffff_ffff_ffff_ffff_ffff_ffff_ffff
    }
}

/// The bytes of a typed literal `PREFIX:HEX`: the number in the width the
/// prefix selects, in native byte order.
pub open spec fn typed_bytes(prefix: Seq<char>, digits: Seq<char>) -> Option<Seq<u8>> {
    match prefix_width(prefix) {
        Some(w) => match hex_number(digits, width_max(w)) {
            Some(v) => Some(native_bytes(v, w)),
            None => None,
        },
        None => None,
    }
}

/// The bytes a write literal stands for: without a colon, the input is raw
/// hexadecimal byte pairs in storage order; with one, it is a typed literal
/// split at the first colon.
pub open spec fn write_bytes(input: Seq<char>) -> Option<Seq<u8>> {
    match find_from(input, ':', 0) {
        None => if is_hex_pairs(input) {
            Some(hex_pairs(input))
        } else {
            None
        },
        Some(k) => typed_bytes(input.take(k), input.skip(k + 1)),
    }
}

/// The byte width a data type name selects: `byte`, `word`, `dword`,
/// `qword` or `dqword`.
pub open spec fn type_name_width(name: Seq<char>) -> Option<nat> {
    if name == seq!['b', 'y', 't', 'e'] {
        Some(1)
    } else if name == seq!['w', 'o', 'r', 'd'] {
        Some(2)
    } else if name == seq!['d', 'w', 'o', 'r', 'd'] {
        Some(4)
    } else if name == seq!['q', 'w', 'o', 'r', 'd'] {
        Some(8)
    } else if name == seq!['d', 'q', 'w', 'o', 'r', 'd'] {
        Some(16)
    } else {
        None
    }
}

/// The bytes of the hexadecimal number `digits`, which may carry a leading
/// `+`, in the width that the data type name `name` selects, in native byte
/// order.
pub open spec fn named_type_bytes(name: Seq<char>, digits: Seq<char>) -> Option<Seq<u8>> {
    match type_name_width(name) {
        Some(w) => match radix_number(digits, width_max(w)) {
            Some(v) => Some(native_bytes(v, w)),
            None => None,
        },
        None => None,
    }
}

/// The digit value of `c`, or `None` when `c` is no hexadecimal digit.
pub fn hex_digit(c: char) -> (r: Option<u8>)
    ensures
        r is Some <==> is_hex_digit(c),
        r is Some ==> r->0 as nat == hex_digit_value(c),
        r is Some ==> r->0 < 16,
{
    if '0' <= c && c <= '9' {
        Some((c as u32 - '0' as u32) as u8)
    } else if 'a' <= c && c <= 'f' {
        Some((c as u32 - 'a' as u32 + 10) as u8)
    } else if 'A' <= c && c <= 'F' {
        Some((c as u32 - 'A' as u32 + 10) as u8)
    } else {
        None
    }
}

proof fn lemma_hex_value_prefix(s: Seq<char>, k: int)
    requires
        0 <= k <= s.len(),
    ensures
        hex_value(s.take(k)) <= hex_value(s),
    decreases s.len(),
{
    if k < s.len() {
        lemma_hex_value_prefix(s.drop_last(), k);
        assert(s.drop_last().take(k) =~= s.take(k));
    } else {
        assert(s.take(k) =~= s);
    }
}

/// Reads `s[from..to]` as a hexadecimal number no larger than `max`.
pub fn parse_hex(s: &[char], from: usize, to: usize, max: u128) -> (r: Option<u128>)
    requires
        from <= to <= s@.len(),
    ensures
        r is Some <==> hex_number(s@.subrange(from as int, to as int), max as nat) is Some,
        r is Some ==> r->0 as nat == hex_number(s@.subrange(from as int, to as int), max as nat)->0,
{
    let ghost t = s@.subrange(from as int, to as int);
    if from == to {
        return None;
    }
    let mut acc: u128 = 0;
    let mut i: usize = from;
    proof {
        assert(t.take(0) =~= Seq::<char>::empty());
    }
    while i < to
        invariant
            from <= i <= to <= s@.len(),
            from < to,
            t == s@.subrange(from as int, to as int),
            acc as nat == hex_value(t.take(i - from)),
            acc <= max,
            forall|j: int| 0 <= j < i - from ==> is_hex_digit(#[trigger] t[j]),
        decreases to - i,
    {
        let ghost k: int = i - from;
        assert(t[k] == s@[i as int]);
        match hex_digit(s[i]) {
            None => {
                return None;
            },
            Some(d) => {
                let d = d as u128;
                assert(t.take(k + 1).drop_last() =~= t.take(k));
                assert(t.take(k + 1).last() == t[k]);
                assert(hex_value(t.take(k + 1)) == acc * 16 + d);
                if d > max || acc > (max - d) / 16 {
                    proof {
                        if d <= max {
                            lemma_fundamental_div_mod((max - d) as int, 16);
                        }
                        assert(acc * 16 + d > max) by (nonlinear_arith)
                            requires
                                d > max || (acc > (max - d) / 16 && (max - d) == 16 * ((max
                                    - d) / 16) + (max - d) % 16 && (max - d) % 16 < 16),
                        ;
                        lemma_hex_value_prefix(t, k + 1);
                    }
                    return None;
                }
                proof {
                    lemma_fundamental_div_mod((max - d) as int, 16);
                    assert(acc * 16 + d <= max) by (nonlinear_arith)
                        requires
                            acc <= (max - d) / 16,
                            (max - d) == 16 * ((max - d) / 16) + (max - d) % 16,
                            (max - d) % 16 >= 0,
                            d <= max,
                    ;
                }
                acc = acc * 16 + d;
                i = i + 1;
            },
        }
    }
    proof {
        assert(t.take(t.len() as int) =~= t);
    }
    Some(acc)
}

/// Reads `s[from..to]` as a hexadecimal number no larger than `max`, after
/// an optional leading `+`.
pub fn parse_radix_hex(s: &[char], from: usize, to: usize, max: u128) -> (r: Option<u128>)
    requires
        from <= to <= s@.len(),
    ensures
        r is Some <==> radix_number(s@.subrange(from as int, to as int), max as nat) is Some,
        r is Some ==> r->0 as nat == radix_number(s@.subrange(from as int, to as int), max as nat)->0,
{
    let ghost t = s@.subrange(from as int, to as int);
    if from < to && s[from] == '+' {
        assert(s@.subrange(from + 1, to as int) =~= t.drop_first());
        parse_hex(s, from + 1, to, max)
    } else {
        parse_hex(s, from, to, max)
    }
}

/// The characters of `s`, in order.
pub fn chars_of(s: &str) -> (r: Vec<char>)
    ensures
        r@ == s@,
{
    let n = s.unicode_len();
    let mut r: Vec<char> = Vec::new();
    let mut i: usize = 0;
    while i < n
        invariant
            n == s@.len(),
            i <= n,
            r@ == s@.take(i as int),
        decreases n - i,
    {
        r.push(s.get_char(i));
        i = i + 1;
        assert(r@ =~= s@.take(i as int));
    }
    assert(s@.take(n as int) =~= s@);
    r
}

/// Where `c` first occurs in `s`.
pub fn find_char(s: &[char], c: char) -> (r: Option<usize>)
    ensures
        r is Some <==> find_from(s@, c, 0) is Some,
        r is Some ==> r->0 as int == find_from(s@, c, 0)->0,
        r is Some ==> r->0 < s@.len(),
{
    let mut i: usize = 0;
    while i < s.len()
        invariant
            i <= s@.len(),
            find_from(s@, c, 0) == find_from(s@, c, i as int),
        decreases s@.len() - i,
    {
        if s[i] == c {
            return Some(i);
        }
        i = i + 1;
    }
    None
}

/// Resolves a jump expression against the current address `base`.
pub fn parse_jump(input: &[char], base: u64) -> (r: Option<u64>)
    ensures
        r == jump_target(input@, base),
{
    let n = input.len();
    if n > 0 && (input[0] == '+' || input[0] == '-') {
        assert(input@.subrange(1, n as int) =~= input@.drop_first());
        if input[0] == '+' {
            match parse_hex(input, 1, n, (u64::MAX - base) as u128) {
                Some(v) => Some(base + v as u64),
                None => None,
            }
        } else {
            match parse_hex(input, 1, n, base as u128) {
                Some(v) => Some(base - v as u64),
                None => None,
            }
        }
    } else {
        assert(input@.subrange(0, n as int) =~= input@);
        match parse_hex(input, 0, n, u64::MAX as u128) {
            Some(v) => Some(v as u64),
            None => None,
        }
    }
}

/// Relies on hex::decode: an even number of hexadecimal digits, in either
/// case, gives one byte per pair, the high digit first; any other input is an
/// error.
#[verifier::external_body]
fn decode_hex(s: &[char]) -> (r: Option<Vec<u8>>)
    ensures
        r is Some <==> is_hex_pairs(s@),
        r is Some ==> r->0@ == hex_pairs(s@),
{
    let text: String = s.iter().collect();
    hex::decode(text).ok()
}

/// Relies on u16::to_ne_bytes: the bytes of `v` in the machine's byte order.
#[verifier::external_body]
fn u16_ne_bytes(v: u16) -> (r: Vec<u8>)
    ensures
        r@ == native_bytes(v as nat, 2),
{
    v.to_ne_bytes().to_vec()
}

/// Relies on u32::to_ne_bytes: the bytes of `v` in the machine's byte order.
#[verifier::external_body]
fn u32_ne_bytes(v: u32) -> (r: Vec<u8>)
    ensures
        r@ == native_bytes(v as nat, 4),
{
    v.to_ne_bytes().to_vec()
}

/// Relies on u64::to_ne_bytes: the bytes of `v` in the machine's byte order.
#[verifier::external_body]
fn u64_ne_bytes(v: u64) -> (r: Vec<u8>)
    ensures
        r@ == native_bytes(v as nat, 8),
{
    v.to_ne_bytes().to_vec()
}

/// Relies on u128::to_ne_bytes: the bytes of `v` in the machine's byte order.
#[verifier::external_body]
fn u128_ne_bytes(v: u128) -> (r: Vec<u8>)
    ensures
        r@ == native_bytes(v as nat, 16),
{
    v.to_ne_bytes().to_vec()
}

/// The width that the prefix `s[..k]` of a typed literal selects, or 0 for
/// an unknown prefix.
fn prefix_width_of(s: &[char], k: usize) -> (w: u8)
    requires
        k <= s@.len(),
    ensures
        w == 0 <==> prefix_width(s@.take(k as int)) is None,
        w != 0 ==> w as nat == prefix_width(s@.take(k as int))->0,
{
    let ghost p = s@.take(k as int);
    assert(p.len() == k);
    assert(forall|i: int| 0 <= i < k ==> p[i] == s@[i]);
    assert(seq!['B'][0] == 'B' && seq!['W'][0] == 'W');
    assert(seq!['D', 'W'][0] == 'D' && seq!['D', 'W'][1] == 'W');
    assert(seq!['Q', 'W'][0] == 'Q' && seq!['Q', 'W'][1] == 'W');
    assert(seq!['D', 'Q', 'W'][0] == 'D' && seq!['D', 'Q', 'W'][1] == 'Q');
    assert(seq!['D', 'Q', 'W'][2] == 'W');
    if k == 1 && s[0] == 'B' {
        assert(p =~= seq!['B']);
        1
    } else if k == 1 && s[0] == 'W' {
        assert(p =~= seq!['W']);
        2
    } else if k == 2 && s[0] == 'D' && s[1] == 'W' {
        assert(p =~= seq!['D', 'W']);
        4
    } else if k == 2 && s[0] == 'Q' && s[1] == 'W' {
        assert(p =~= seq!['Q', 'W']);
        8
    } else if k == 3 && s[0] == 'D' && s[1] == 'Q' && s[2] == 'W' {
        assert(p =~= seq!['D', 'Q', 'W']);
        16
    } else {
        0
    }
}

/// The largest value that `w` bytes hold, for a width a prefix selects.
fn width_max_of(w: u8) -> (r: u128)
    requires
        w == 1 || w == 2 || w == 4 || w == 8 || w == 16,
    ensures
        r as nat == width_max(w as nat),
{
    if w == 1 {
        0xff
    } else if w == 2 {
        0xffff
    } else if w == 4 {
        0xffff_ffff
    } else if w == 8 {
        0xffff_ffff_ffff_ffff
    } else {
        u128::MAX
    }
}

/// The `w` native-order bytes of `v`.
fn encode_native(v: u128, w: u8) -> (r: Vec<u8>)
    requires
        w == 1 || w == 2 || w == 4 || w == 8 || w == 16,
        v as nat <= width_max(w as nat),
    ensures
        r@ == native_bytes(v as nat, w as nat),
{
    if w == 1 {
        let r = vec![v as u8];
        proof {
            assert(le_bytes(v as nat / 256, 0) =~= Seq::<u8>::empty());
            assert(le_bytes(v as nat, 1) =~= seq![v as u8]);
            assert(le_bytes(v as nat, 1).reverse() =~= seq![v as u8]);
            assert(r@ =~= seq![v as u8]);
        }
        r
    } else if w == 2 {
        u16_ne_bytes(v as u16)
    } else if w == 4 {
        u32_ne_bytes(v as u32)
    } else if w == 8 {
        u64_ne_bytes(v as u64)
    } else {
        u128_ne_bytes(v)
    }
}

/// Decodes a write literal into the bytes it stands for.
pub fn parse_write(input: &[char]) -> (r: Option<Vec<u8>>)
    ensures
        r is Some <==> write_bytes(input@) is Some,
        r is Some ==> r->0@ == write_bytes(input@)->0,
{
    match find_char(input, ':') {
        None => decode_hex(input),
        Some(k) => {
            let w = prefix_width_of(input, k);
            if w == 0 {
                return None;
            }
            let n = input.len();
            assert(input@.subrange(k + 1, n as int) =~= input@.skip(k + 1));
            match parse_hex(input, k + 1, n, width_max_of(w)) {
                Some(v) => Some(encode_native(v, w)),
                None => None,
            }
        },
    }
}

/// A jump expression as typed at the prompt.
pub struct JumpAddress {
    inner: Vec<char>,
}

impl View for JumpAddress {
    type V = Seq<char>;

    closed spec fn view(&self) -> Seq<char> {
        self.inner@
    }
}

impl JumpAddress {
    pub fn new(s: &str) -> (r: Self)
        ensures
            r@ == s@,
    {
        JumpAddress { inner: chars_of(s) }
    }

    /// The address this expression names, seen from `base`.
    pub fn parse(&self, base: u64) -> (r: Option<u64>)
        ensures
            r == jump_target(self@, base),
    {
        parse_jump(self.inner.as_slice(), base)
    }
}

/// A write literal as typed at the prompt.
pub struct WriteValue {
    inner: Vec<char>,
}

impl View for WriteValue {
    type V = Seq<char>;

    closed spec fn view(&self) -> Seq<char> {
        self.inner@
    }
}

impl WriteValue {
    pub fn new(s: &str) -> (r: Self)
        ensures
            r@ == s@,
    {
        WriteValue { inner: chars_of(s) }
    }

    /// The bytes this literal stands for.
    pub fn parse(&self) -> (r: Option<Vec<u8>>)
        ensures
            r is Some <==> write_bytes(self@) is Some,
            r is Some ==> r->0@ == write_bytes(self@)->0,
    {
        parse_write(self.inner.as_slice())
    }
}

/// The width that a data type name selects, or 0 for an unknown name.
fn type_name_width_of(name: &str) -> (w: u8)
    ensures
        w == 0 <==> type_name_width(name@) is None,
        w != 0 ==> w as nat == type_name_width(name@)->0,
{
    let name = String::from_str(name);
    let byte = String::from_str("byte");
    let word = String::from_str("word");
    let dword = String::from_str("dword");
    let qword = String::from_str("qword");
    let dqword = String::from_str("dqword");
    proof {
        reveal_strlit("byte");
        reveal_strlit("word");
        reveal_strlit("dword");
        reveal_strlit("qword");
        reveal_strlit("dqword");
        assert(byte@ =~= seq!['b', 'y', 't', 'e']);
        assert(word@ =~= seq!['w', 'o', 'r', 'd']);
        assert(dword@ =~= seq!['d', 'w', 'o', 'r', 'd']);
        assert(qword@ =~= seq!['q', 'w', 'o', 'r', 'd']);
        assert(dqword@ =~= seq!['d', 'q', 'w', 'o', 'r', 'd']);
    }
    if name == byte {
        1
    } else if name == word {
        2
    } else if name == dword {
        4
    } else if name == qword {
        8
    } else if name == dqword {
        16
    } else {
        0
    }
}

/// Encodes the hexadecimal number `data` in the width that the data type
/// name `data_type` selects, in native byte order.
pub fn typed_value_bytes(data_type: &str, data: &str) -> (r: Option<Vec<u8>>)
    ensures
        r is Some <==> named_type_bytes(data_type@, data@) is Some,
        r is Some ==> r->0@ == named_type_bytes(data_type@, data@)->0,
{
    let w = type_name_width_of(data_type);
    if w == 0 {
        return None;
    }
    let digits = chars_of(data);
    let n = digits.len();
    assert(digits@.subrange(0, n as int) =~= digits@);
    match parse_radix_hex(digits.as_slice(), 0, n, width_max_of(w)) {
        Some(v) => Some(encode_native(v, w)),
        None => None,
    }
}

} // verus!
