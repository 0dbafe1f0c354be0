//! Text helpers for the generated C source: hexadecimal literals, ASCII case
//! mapping and byte-wise string ordering.

use vstd::prelude::*;
use vstd::string::*;

verus! {

/// The lowercase hexadecimal digit for `d` (0 to 15).
pub open spec fn hex_char(d: nat) -> char {
    if d == 0 { '0' }
    else if d == 1 { '1' }
    else if d == 2 { '2' }
    else if d == 3 { '3' }
    else if d == 4 { '4' }
    else if d == 5 { '5' }
    else if d == 6 { '6' }
    else if d == 7 { '7' }
    else if d == 8 { '8' }
    else if d == 9 { '9' }
    else if d == 10 { 'a' }
    else if d == 11 { 'b' }
    else if d == 12 { 'c' }
    else if d == 13 { 'd' }
    else if d == 14 { 'e' }
    else { 'f' }
}

/// The low `n` hexadecimal digits of `v`, most significant first.
pub open spec fn hex_digits(v: nat, n: nat) -> Seq<char>
    decreases n,
{
    if n == 0 {
        seq![]
    } else {
        hex_digits(v / 16, (n - 1) as nat).push(hex_char(v % 16))
    }
}

/// The number of hexadecimal digits of `v` (1 for zero).
pub open spec fn hex_len(v: nat) -> nat
    decreases v,
{
    if v < 16 {
        1
    } else {
        1 + hex_len(v / 16)
    }
}

/// `v` in lowercase hexadecimal, zero-padded to at least `min_digits` digits.
pub open spec fn hex_padded(v: nat, min_digits: nat) -> Seq<char> {
    hex_digits(v, if hex_len(v) < min_digits { min_digits } else { hex_len(v) })
}

/// The one-character string of hexadecimal digit `d`.
fn hex_digit_str(d: u32) -> (s: &'static str)
    requires
        d < 16,
    ensures
        s@ == seq![hex_char(d as nat)],
{
    proof {
        reveal_strlit("0");
        reveal_strlit("1");
        reveal_strlit("2");
        reveal_strlit("3");
        reveal_strlit("4");
        reveal_strlit("5");
        reveal_strlit("6");
        reveal_strlit("7");
        reveal_strlit("8");
        reveal_strlit("9");
        reveal_strlit("a");
        reveal_strlit("b");
        reveal_strlit("c");
        reveal_strlit("d");
        reveal_strlit("e");
        reveal_strlit("f");
    }
    match d {
        0 => "0",
        1 => "1",
        2 => "2",
        3 => "3",
        4 => "4",
        5 => "5",
        6 => "6",
        7 => "7",
        8 => "8",
        9 => "9",
        10 => "a",
        11 => "b",
        12 => "c",
        13 => "d",
        14 => "e",
        _ => "f",
    }
}

/// Appends the low `n` hexadecimal digits of `v`.
fn append_hex_digits(s: &mut String, v: u64, n: u32)
    ensures
        final(s)@ == old(s)@ + hex_digits(v as nat, n as nat),
    decreases n,
{
    if n > 0 {
        append_hex_digits(s, v / 16, n - 1);
        s.append(hex_digit_str((v % 16) as u32));
        assert(final(s)@ =~= old(s)@ + hex_digits(v as nat, n as nat)) by {
            assert(hex_digits(v as nat, n as nat) == hex_digits((v / 16) as nat, (n - 1) as nat).push(hex_char((v % 16) as nat)));
        }
    } else {
        assert(final(s)@ =~= old(s)@ + hex_digits(v as nat, n as nat));
    }
}

/// The number of hexadecimal digits of `v`.
fn hex_digit_count(v: u64) -> (n: u32)
    ensures
        n == hex_len(v as nat),
        n <= 16,
        v < 0x1_0000_0000 ==> n <= 8,
    decreases v,
{
    if v < 16 {
        1
    } else {
        let n = hex_digit_count(v / 16);
        assert(hex_len((v / 16) as nat) <= 15) by {
            reveal_with_fuel(pow16, 16);
            assert(pow16(15) == 0x1000_0000_0000_0000);
            lemma_hex_len_bound((v / 16) as nat, 15);
        }
        assert(v < 0x1_0000_0000 ==> hex_len((v / 16) as nat) <= 7) by {
            reveal_with_fuel(pow16, 8);
            assert(pow16(7) == 0x1000_0000);
            if v < 0x1_0000_0000 {
                lemma_hex_len_bound((v / 16) as nat, 7);
            }
        }
        n + 1
    }
}

/// `16^k`.
spec fn pow16(k: nat) -> nat
    decreases k,
{
    if k == 0 {
        1
    } else {
        16 * pow16((k - 1) as nat)
    }
}

/// A value below `16^k` has at most `k` hexadecimal digits.
proof fn lemma_hex_len_bound(v: nat, k: nat)
    requires
        k >= 1,
        v < pow16(k),
    ensures
        hex_len(v) <= k,
    decreases k,
{
    if v >= 16 {
        if k == 1 {
            reveal_with_fuel(pow16, 2);
        } else {
            lemma_hex_len_bound(v / 16, (k - 1) as nat);
        }
    }
}

/// `v` formatted as `{:#08x}`: `0x` and at least six lowercase hexadecimal digits.
pub fn hex_literal(v: u32) -> (s: String)
    ensures
        s@ == "0x"@ + hex_padded(v as nat, 6),
{
    let mut s = String::from_str("0x");
    let len = hex_digit_count(v as u64);
    let n = if len < 6 { 6 } else { len };
    append_hex_digits(&mut s, v as u64, n);
    s
}

/// `v` formatted as `{:08x}`: at least eight lowercase hexadecimal digits.
pub fn hex_word(v: u32) -> (s: String)
    ensures
        s@ == hex_padded(v as nat, 8),
{
    let mut s = String::new();
    let len = hex_digit_count(v as u64);
    let n = if len < 8 { 8 } else { len };
    append_hex_digits(&mut s, v as u64, n);
    assert(s@ =~= hex_padded(v as nat, 8));
    s
}

/// `v` formatted as `{:x}`: lowercase hexadecimal digits, no padding.
pub fn hex_u64(v: u64) -> (s: String)
    ensures
        s@ == hex_padded(v as nat, 1),
{
    let mut s = String::new();
    let n = hex_digit_count(v);
    append_hex_digits(&mut s, v, n);
    assert(hex_len(v as nat) >= 1);
    assert(s@ =~= hex_padded(v as nat, 1));
    s
}

/// The decimal digits of `v`, most significant first.
pub open spec fn dec_digits(v: nat) -> Seq<char>
    decreases v,
{
    if v < 10 {
        seq![hex_char(v)]
    } else {
        dec_digits(v / 10).push(hex_char(v % 10))
    }
}

/// Appends the decimal digits of `v`.
fn append_dec_digits(s: &mut String, v: u64)
    ensures
        final(s)@ == old(s)@ + dec_digits(v as nat),
    decreases v,
{
    if v < 10 {
        s.append(hex_digit_str(v as u32));
        assert(final(s)@ =~= old(s)@ + dec_digits(v as nat));
    } else {
        append_dec_digits(s, v / 10);
        s.append(hex_digit_str((v % 10) as u32));
        assert(final(s)@ =~= old(s)@ + dec_digits(v as nat));
    }
}

/// `v` formatted as `{}`: its decimal digits.
pub fn decimal(v: u64) -> (s: String)
    ensures
        s@ == dec_digits(v as nat),
{
    let mut s = String::new();
    append_dec_digits(&mut s, v);
    assert(s@ =~= dec_digits(v as nat));
    s
}

/// Whether `c` is an ASCII letter or digit, `.` or `_`.
pub open spec fn is_plain_char(c: char) -> bool {
    ('a' <= c && c <= 'z') || ('A' <= c && c <= 'Z') || ('0' <= c && c <= '9') || c == '.' || c
        == '_'
}

/// The `Debug` text of a string.
pub uninterp spec fn str_debug(s: Seq<char>) -> Seq<char>;

/// `format!("{:?}", s)`: the string in double quotes, each character
/// escaped as `char::escape_debug` does; ASCII letters, digits, `.` and `_`
/// stand for themselves. How other characters are escaped is not stated here.
#[verifier::external_body]
pub(crate) fn debug_quoted(s: &str) -> (r: String)
    ensures
        r@ == str_debug(s@),
        (forall|i: int| 0 <= i < s@.len() ==> is_plain_char(#[trigger] s@[i])) ==> r@ == seq!['"']
            + s@ + seq!['"'],
{
    format!("{:?}", s)
}

/// Byte-wise lexicographic order: the order of `str` and `String`.
pub open spec fn bytes_lt(a: Seq<u8>, b: Seq<u8>) -> bool
    decreases a.len(),
{
    if a.len() == 0 {
        b.len() > 0
    } else if b.len() == 0 {
        false
    } else if a[0] != b[0] {
        a[0] < b[0]
    } else {
        bytes_lt(a.drop_first(), b.drop_first())
    }
}

/// The order of strings: their UTF-8 encodings compared byte by byte.
pub open spec fn str_lt(a: Seq<char>, b: Seq<char>) -> bool {
    bytes_lt(vstd::utf8::encode_utf8(a), vstd::utf8::encode_utf8(b))
}

/// Byte order is irreflexive and transitive.
pub proof fn lemma_bytes_lt_order(a: Seq<u8>, b: Seq<u8>, c: Seq<u8>)
    ensures
        !bytes_lt(a, a),
        bytes_lt(a, b) && bytes_lt(b, c) ==> bytes_lt(a, c),
        bytes_lt(a, b) ==> !bytes_lt(b, a),
    decreases a.len(),
{
    if a.len() > 0 {
        lemma_bytes_lt_order(a.drop_first(), b.drop_first(), c.drop_first());
    }
}

/// Byte order is total: of two different sequences one comes first.
pub proof fn lemma_bytes_lt_total(a: Seq<u8>, b: Seq<u8>)
    ensures
        a == b || bytes_lt(a, b) || bytes_lt(b, a),
    decreases a.len(),
{
    if a.len() > 0 && b.len() > 0 && a[0] == b[0] {
        lemma_bytes_lt_total(a.drop_first(), b.drop_first());
        if a.drop_first() == b.drop_first() {
            assert(a =~= seq![a[0]] + a.drop_first());
            assert(b =~= seq![b[0]] + b.drop_first());
        }
    } else if a.len() == 0 && b.len() == 0 {
        assert(a =~= b);
    }
}

/// String order is a strict total order.
pub proof fn lemma_str_lt_order(a: Seq<char>, b: Seq<char>, c: Seq<char>)
    ensures
        !str_lt(a, a),
        str_lt(a, b) && str_lt(b, c) ==> str_lt(a, c),
        str_lt(a, b) ==> !str_lt(b, a),
        a == b || str_lt(a, b) || str_lt(b, a),
{
    let ea = vstd::utf8::encode_utf8(a);
    let eb = vstd::utf8::encode_utf8(b);
    lemma_bytes_lt_order(ea, eb, vstd::utf8::encode_utf8(c));
    lemma_bytes_lt_total(ea, eb);
    if ea == eb {
        vstd::utf8::encode_utf8_decode_utf8(a);
        vstd::utf8::encode_utf8_decode_utf8(b);
    }
}

/// Equal prefixes leave the order to the rest.
proof fn lemma_bytes_lt_skip(a: Seq<u8>, b: Seq<u8>, i: int)
    requires
        0 <= i <= a.len(),
        i <= b.len(),
        a.take(i) == b.take(i),
    ensures
        bytes_lt(a, b) == bytes_lt(a.skip(i), b.skip(i)),
    decreases i,
{
    if i > 0 {
        assert(a[0] == a.take(i)[0]);
        assert(b[0] == b.take(i)[0]);
        assert(a.drop_first().take(i - 1) =~= a.take(i).drop_first());
        assert(b.drop_first().take(i - 1) =~= b.take(i).drop_first());
        lemma_bytes_lt_skip(a.drop_first(), b.drop_first(), i - 1);
        assert(a.drop_first().skip(i - 1) =~= a.skip(i));
        assert(b.drop_first().skip(i - 1) =~= b.skip(i));
    } else {
        assert(a.skip(0) =~= a);
        assert(b.skip(0) =~= b);
    }
}

/// Whether `a` comes before `b` in the order of strings.
pub fn str_less(a: &str, b: &str) -> (lt: bool)
    ensures
        lt == str_lt(a@, b@),
{
    let x = a.as_bytes();
    let y = b.as_bytes();
    let mut i: usize = 0;
    while i < x.len() && i < y.len() && x[i] == y[i]
        invariant
            i <= x@.len(),
            i <= y@.len(),
            x@.take(i as int) == y@.take(i as int),
        decreases x@.len() - i,
    {
        assert(x@.take(i + 1) =~= x@.take(i as int).push(x@[i as int]));
        assert(y@.take(i + 1) =~= y@.take(i as int).push(y@[i as int]));
        i = i + 1;
    }
    proof {
        lemma_bytes_lt_skip(x@, y@, i as int);
    }
    if i < x.len() && i < y.len() {
        x[i] < y[i]
    } else {
        i == x.len() && i < y.len()
    }
}

/// The texts of a sequence of strings.
pub open spec fn texts(v: Seq<String>) -> Seq<Seq<char>> {
    v.map_values(|s: String| s@)
}

/// Each text comes strictly before the next.
pub open spec fn strictly_increasing(s: Seq<Seq<char>>) -> bool {
    forall|a: int, b: int| 0 <= a < b < s.len() ==> #[trigger] str_lt(s[a], s[b])
}

/// The distinct strings of `strings`, in increasing order.
pub fn sorted_distinct(strings: &Vec<String>) -> (sorted: Vec<String>)
    ensures
        strictly_increasing(texts(sorted@)),
        texts(sorted@).to_set() == texts(strings@).to_set(),
{
    let mut sorted: Vec<String> = Vec::new();
    let mut i: usize = 0;
    while i < strings.len()
        invariant
            i <= strings.len(),
            strictly_increasing(texts(sorted@)),
            texts(sorted@).to_set() == texts(strings@.take(i as int)).to_set(),
        decreases strings.len() - i,
    {
        let x = strings[i].clone();
        let mut p: usize = 0;
        while p < sorted.len() && str_less(sorted[p].as_str(), x.as_str())
            invariant
                p <= sorted.len(),
                forall|k: int| 0 <= k < p ==> str_lt(#[trigger] sorted@[k]@, x@),
            decreases sorted.len() - p,
        {
            p = p + 1;
        }
        let ghost before = sorted@;
        assert(texts(strings@.take(i + 1)) =~= texts(strings@.take(i as int)).push(x@));
        proof {
            texts(strings@.take(i as int)).lemma_push_to_set_commute(x@);
        }
        if p < sorted.len() && sorted[p] == x {
            assert(texts(sorted@).contains(x@)) by {
                assert(texts(sorted@)[p as int] == x@);
            }
            assert(texts(sorted@).to_set() =~= texts(sorted@).to_set().insert(x@));
        } else {
            proof {
                if p < sorted.len() {
                    lemma_str_lt_order(sorted@[p as int]@, x@, x@);
                }
                assert forall|k: int| p < k < sorted@.len() implies str_lt(x@, #[trigger] sorted@[k]@) by {
                    lemma_str_lt_order(x@, sorted@[p as int]@, sorted@[k]@);
                    assert(str_lt(texts(sorted@)[p as int], texts(sorted@)[k]));
                }
            }
            sorted.insert(p, x);
            proof {
                assert(texts(sorted@) =~= texts(before).insert(p as int, x@));
                assert forall|a: int, b: int| 0 <= a < b < texts(sorted@).len() implies #[trigger] str_lt(
                    texts(sorted@)[a],
                    texts(sorted@)[b],
                ) by {
                    if b < p {
                        assert(str_lt(texts(before)[a], texts(before)[b]));
                    } else if b == p {
                        assert(str_lt(before[a]@, x@));
                    } else if a < p {
                        assert(str_lt(before[a]@, x@));
                        assert(str_lt(x@, before[b - 1]@));
                        lemma_str_lt_order(before[a]@, x@, before[b - 1]@);
                    } else if a == p {
                        assert(str_lt(x@, before[b - 1]@));
                    } else {
                        assert(str_lt(texts(before)[a - 1], texts(before)[b - 1]));
                    }
                }
                assert forall|t: Seq<char>| texts(sorted@).to_set().contains(t) <==> texts(before).to_set().insert(x@).contains(t) by {
                    if texts(sorted@).contains(t) {
                        let k = choose|k: int| 0 <= k < texts(sorted@).len() && texts(sorted@)[k] == t;
                        if k < p {
                            assert(texts(before)[k] == t);
                        } else if k > p {
                            assert(texts(before)[k - 1] == t);
                        }
                    }
                    if texts(before).contains(t) {
                        let k = choose|k: int| 0 <= k < texts(before).len() && texts(before)[k] == t;
                        if k < p {
                            assert(texts(sorted@)[k] == t);
                        } else {
                            assert(texts(sorted@)[k + 1] == t);
                        }
                    }
                    if t == x@ {
                        assert(texts(sorted@)[p as int] == t);
                    }
                }
                assert(texts(sorted@).to_set() =~= texts(before).to_set().insert(x@));
            }
        }
        i = i + 1;
    }
    assert(strings@.take(strings.len() as int) =~= strings@);
    sorted
}

/// `c` with an ASCII lowercase letter mapped to uppercase.
pub open spec fn ascii_upper_char(c: char) -> char {
    if 'a' <= c && c <= 'z' {
        ((c as u32) - 32) as char
    } else {
        c
    }
}

/// `s` with its ASCII lowercase letters mapped to uppercase.
pub open spec fn ascii_upper(s: Seq<char>) -> Seq<char> {
    s.map_values(|c: char| ascii_upper_char(c))
}

/// `s` with every `from` replaced by `to`.
pub open spec fn replace_all(s: Seq<char>, from: char, to: Seq<char>) -> Seq<char>
    decreases s.len(),
{
    if s.len() == 0 {
        seq![]
    } else {
        replace_all(s.drop_last(), from, to) + if s.last() == from {
            to
        } else {
            seq![s.last()]
        }
    }
}

/// `s` with every `.` replaced by `_`.
pub open spec fn dots_to_underscores(s: Seq<char>) -> Seq<char> {
    replace_all(s, '.', seq!['_'])
}

/// `c` with an ASCII uppercase letter mapped to lowercase.
pub open spec fn ascii_lower_char(c: char) -> char {
    if 'A' <= c && c <= 'Z' {
        ((c as u32) + 32) as char
    } else {
        c
    }
}

/// `s` with its ASCII uppercase letters mapped to lowercase.
pub open spec fn ascii_lower(s: Seq<char>) -> Seq<char> {
    s.map_values(|c: char| ascii_lower_char(c))
}

/// The Unicode lowercase mapping of a string.
pub uninterp spec fn unicode_lowercase(s: Seq<char>) -> Seq<char>;

/// `String::make_ascii_uppercase`: maps 'a'..='z' to 'A'..='Z' in place and
/// leaves every other character unchanged.
#[verifier::external_body]
pub(crate) fn make_ascii_uppercase(s: &mut String)
    ensures
        final(s)@ == ascii_upper(old(s)@),
{
    s.make_ascii_uppercase();
}

/// `str::replace` with a character pattern: every `from` becomes `to`,
/// every other character stays.
#[verifier::external_body]
fn replace_char(s: &str, from: char, to: &str) -> (r: String)
    ensures
        r@ == replace_all(s@, from, to@),
{
    s.replace(from, to)
}

/// `s` with every `.` replaced by `_`.
pub(crate) fn replace_dots(s: &str) -> (r: String)
    ensures
        r@ == dots_to_underscores(s@),
{
    proof {
        reveal_strlit("_");
        assert("_"@ =~= seq!['_']);
    }
    replace_char(s, '.', "_")
}

/// `str::to_lowercase`: the lowercase equivalent of `s` under Unicode's
/// Lowercase property. Its result depends on `s` alone; on an ASCII string
/// it maps 'A'..='Z' to 'a'..='z' and keeps every other character. Where a
/// non-ASCII character goes is not stated here.
#[verifier::external_body]
pub(crate) fn to_lowercase(s: &str) -> (r: String)
    ensures
        r@ == unicode_lowercase(s@),
        vstd::utf8::is_ascii_chars(s@) ==> r@ == ascii_lower(s@),
{
    s.to_lowercase()
}

} // verus!
