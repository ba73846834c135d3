//! Character-level helpers: string equality, decimal and hexadecimal
//! rendering, decimal parsing and the changelog escaping used in text replies.

use vstd::prelude::*;
use vstd::string::*;

verus! {

/// Appends one character to a string (`String::push` of std).
#[verifier::external_body]
pub(crate) fn push_char(s: &mut String, c: char)
    ensures
        final(s)@ == old(s)@.push(c),
{
    s.push(c);
}

/// Compares two strings character by character.
pub fn str_eq(a: &str, b: &str) -> (r: bool)
    ensures
        r == (a@ == b@),
{
    let n = a.unicode_len();
    let m = b.unicode_len();
    if n != m {
        return false;
    }
    let mut i: usize = 0;
    while i < n
        invariant
            n == a@.len(),
            m == b@.len(),
            n == m,
            i <= n,
            forall|j: int| 0 <= j < i ==> a@[j] == b@[j],
        decreases n - i,
    {
        if a.get_char(i) != b.get_char(i) {
            return false;
        }
        i += 1;
    }
    assert(a@ =~= b@);
    true
}

/// The character of a decimal digit.
pub open spec fn digit_char(d: nat) -> char {
    if d == 0 { '0' }
    else if d == 1 { '1' }
    else if d == 2 { '2' }
    else if d == 3 { '3' }
    else if d == 4 { '4' }
    else if d == 5 { '5' }
    else if d == 6 { '6' }
    else if d == 7 { '7' }
    else if d == 8 { '8' }
    else { '9' }
}

/// The decimal rendering of a natural number, without leading zeros.
pub open spec fn decimal_spec(n: nat) -> Seq<char>
    decreases n,
{
    if n < 10 {
        seq![digit_char(n)]
    } else {
        decimal_spec(n / 10).push(digit_char(n % 10))
    }
}

fn digit_of(d: u64) -> (c: char)
    requires
        d < 10,
    ensures
        c == digit_char(d as nat),
{
    if d == 0 { '0' }
    else if d == 1 { '1' }
    else if d == 2 { '2' }
    else if d == 3 { '3' }
    else if d == 4 { '4' }
    else if d == 5 { '5' }
    else if d == 6 { '6' }
    else if d == 7 { '7' }
    else if d == 8 { '8' }
    else { '9' }
}

/// Appends the decimal rendering of `n` to `out`.
pub fn push_decimal(out: &mut String, n: u64)
    ensures
        final(out)@ == old(out)@ + decimal_spec(n as nat),
    decreases n,
{
    if n >= 10 {
        push_decimal(out, n / 10);
    }
    push_char(out, digit_of(n % 10));
    proof {
        if n < 10 {
            assert(decimal_spec(n as nat) =~= seq![digit_char(n as nat)]);
        }
    }
}

/// The decimal rendering of `n`, as `u64::to_string` gives it.
pub fn decimal_string(n: u64) -> (r: String)
    ensures
        r@ == decimal_spec(n as nat),
{
    let mut out = String::new();
    push_decimal(&mut out, n);
    assert(out@ =~= decimal_spec(n as nat));
    out
}


/// The lowercase hexadecimal digit of a value below 16.
pub open spec fn hex_digit(d: nat) -> char {
    if d < 10 { digit_char(d) }
    else if d == 10 { 'a' }
    else if d == 11 { 'b' }
    else if d == 12 { 'c' }
    else if d == 13 { 'd' }
    else if d == 14 { 'e' }
    else { 'f' }
}

/// Lowercase hexadecimal rendering of bytes, two digits per byte, as the
/// `{:x}` format of a digest gives it.
pub open spec fn hex_lower_spec(b: Seq<u8>) -> Seq<char>
    decreases b.len(),
{
    if b.len() == 0 {
        seq![]
    } else {
        hex_lower_spec(b.drop_last()) + seq![
            hex_digit((b.last() / 16) as nat),
            hex_digit((b.last() % 16) as nat),
        ]
    }
}

fn hex_digit_of(d: u8) -> (c: char)
    requires
        d < 16,
    ensures
        c == hex_digit(d as nat),
{
    if d < 10 {
        digit_of(d as u64)
    } else if d == 10 { 'a' }
    else if d == 11 { 'b' }
    else if d == 12 { 'c' }
    else if d == 13 { 'd' }
    else if d == 14 { 'e' }
    else { 'f' }
}

/// Renders bytes as lowercase hexadecimal.
pub fn hex_lower(b: &[u8]) -> (r: String)
    ensures
        r@ == hex_lower_spec(b@),
        r@.len() == 2 * b@.len(),
{
    let mut out = String::new();
    let mut i: usize = 0;
    while i < b.len()
        invariant
            i <= b@.len(),
            out@ == hex_lower_spec(b@.take(i as int)),
            out@.len() == 2 * i,
        decreases b@.len() - i,
    {
        let byte = b[i];
        push_char(&mut out, hex_digit_of(byte / 16));
        push_char(&mut out, hex_digit_of(byte % 16));
        proof {
            let t = b@.take(i + 1);
            assert(t.drop_last() =~= b@.take(i as int));
            assert(t.last() == byte);
        }
        i += 1;
    }
    assert(b@.take(b@.len() as int) =~= b@);
    out
}

/// Whether a character is a lowercase hexadecimal digit.
pub open spec fn is_hex_lower(c: char) -> bool {
    ('0' <= c && c <= '9') || ('a' <= c && c <= 'f')
}

/// The value of a lowercase hexadecimal digit.
pub open spec fn hex_value(c: char) -> int {
    if '0' <= c && c <= '9' {
        (c as int) - ('0' as int)
    } else {
        (c as int) - ('a' as int) + 10
    }
}

proof fn lemma_hex_digit(d: nat)
    requires
        d < 16,
    ensures
        is_hex_lower(hex_digit(d)),
        hex_value(hex_digit(d)) == d,
{
}

/// Law: the hexadecimal rendering holds two lowercase digits per byte, the
/// high half first, and each pair reads back as its byte.
pub proof fn law_hex_pairs_decode(b: Seq<u8>)
    ensures
        hex_lower_spec(b).len() == 2 * b.len(),
        forall|i: int| 0 <= i < hex_lower_spec(b).len() ==> is_hex_lower(#[trigger] hex_lower_spec(b)[i]),
        forall|i: int|
            0 <= i < b.len() ==> hex_value(hex_lower_spec(b)[2 * i]) * 16 + hex_value(hex_lower_spec(b)[2 * i + 1])
                == #[trigger] b[i],
    decreases b.len(),
{
    if b.len() > 0 {
        let t = b.drop_last();
        law_hex_pairs_decode(t);
        let hi = (b.last() / 16) as nat;
        let lo = (b.last() % 16) as nat;
        lemma_hex_digit(hi);
        lemma_hex_digit(lo);
        let s = hex_lower_spec(b);
        let r = hex_lower_spec(t);
        assert(s == r + seq![hex_digit(hi), hex_digit(lo)]);
        assert forall|i: int| 0 <= i < s.len() implies is_hex_lower(#[trigger] s[i]) by {
            if i < r.len() {
                assert(s[i] == r[i]);
            }
        }
        assert forall|i: int| 0 <= i < b.len() implies hex_value(s[2 * i]) * 16 + hex_value(s[2 * i + 1])
            == #[trigger] b[i] by {
            if i < t.len() {
                assert(s[2 * i] == r[2 * i]);
                assert(s[2 * i + 1] == r[2 * i + 1]);
                assert(b[i] == t[i]);
            } else {
                assert(s[2 * i] == hex_digit(hi));
                assert(s[2 * i + 1] == hex_digit(lo));
                assert(b[i] == b.last());
            }
        }
    }
}

/// A changelog as text replies show it: carriage returns are dropped and each
/// line feed becomes the two characters `\` and `n`.
pub open spec fn escape_changelog_spec(s: Seq<char>) -> Seq<char>
    decreases s.len(),
{
    if s.len() == 0 {
        seq![]
    } else {
        let rest = escape_changelog_spec(s.drop_last());
        if s.last() == '\r' {
            rest
        } else if s.last() == '\n' {
            rest + seq!['\\', 'n']
        } else {
            rest.push(s.last())
        }
    }
}

pub(crate) proof fn lemma_escape_has_no_line_breaks(s: Seq<char>)
    ensures
        forall|i: int|
            0 <= i < escape_changelog_spec(s).len() ==> escape_changelog_spec(s)[i] != '\n'
                && escape_changelog_spec(s)[i] != '\r',
    decreases s.len(),
{
    if s.len() > 0 {
        let rest = escape_changelog_spec(s.drop_last());
        lemma_escape_has_no_line_breaks(s.drop_last());
        let r = escape_changelog_spec(s);
        assert forall|i: int| 0 <= i < r.len() implies r[i] != '\n' && r[i] != '\r' by {
            if i < rest.len() {
                assert(r[i] == rest[i]);
            }
        }
    }
}

/// A text with its carriage returns removed.
pub open spec fn without_cr(s: Seq<char>) -> Seq<char>
    decreases s.len(),
{
    if s.len() == 0 {
        seq![]
    } else if s.last() == '\r' {
        without_cr(s.drop_last())
    } else {
        without_cr(s.drop_last()).push(s.last())
    }
}

/// Reads an escaped text back: each two-character pair `\` `n` becomes a
/// line feed again (read from the end of the text).
pub open spec fn unescape_line_feeds(s: Seq<char>) -> Seq<char>
    decreases s.len(),
{
    if s.len() == 0 {
        seq![]
    } else if s.len() >= 2 && s[s.len() - 2] == '\\' && s.last() == 'n' {
        unescape_line_feeds(s.subrange(0, s.len() - 2)).push('\n')
    } else {
        unescape_line_feeds(s.drop_last()).push(s.last())
    }
}

/// Whether a text holds no backslash.
pub open spec fn no_backslash(s: Seq<char>) -> bool {
    forall|i: int| 0 <= i < s.len() ==> s[i] != '\\'
}

/// Law: escaping works character by character: a carriage return is dropped,
/// a line feed becomes `\` `n`, and every other character stays as it is.
pub proof fn law_escape_one_char(c: char)
    ensures
        escape_changelog_spec(seq![c]) == (if c == '\r' {
            Seq::<char>::empty()
        } else if c == '\n' {
            seq!['\\', 'n']
        } else {
            seq![c]
        }),
{
    let s = seq![c];
    assert(s.drop_last() =~= Seq::<char>::empty());
    assert(escape_changelog_spec(s.drop_last()) == Seq::<char>::empty());
    assert(s.last() == c);
    if c == '\n' {
        assert(Seq::<char>::empty() + seq!['\\', 'n'] =~= seq!['\\', 'n']);
    } else if c != '\r' {
        assert(Seq::<char>::empty().push(c) =~= seq![c]);
    }
}

/// Law: escaping two texts one after the other gives the escape of the whole:
/// nothing depends on neighbouring characters.
pub proof fn law_escape_concat(a: Seq<char>, b: Seq<char>)
    ensures
        escape_changelog_spec(a + b) == escape_changelog_spec(a) + escape_changelog_spec(b),
    decreases b.len(),
{
    if b.len() == 0 {
        assert(a + b =~= a);
        assert(escape_changelog_spec(a) + escape_changelog_spec(b) =~= escape_changelog_spec(a));
    } else {
        law_escape_concat(a, b.drop_last());
        assert((a + b).drop_last() =~= a + b.drop_last());
        assert((a + b).last() == b.last());
        let ea = escape_changelog_spec(a);
        let eb = escape_changelog_spec(b.drop_last());
        if b.last() == '\n' {
            assert(ea + eb + seq!['\\', 'n'] =~= ea + (eb + seq!['\\', 'n']));
        } else if b.last() != '\r' {
            assert((ea + eb).push(b.last()) =~= ea + eb.push(b.last()));
        }
    }
}

proof fn lemma_escape_roundtrip(s: Seq<char>)
    requires
        no_backslash(s),
    ensures
        unescape_line_feeds(escape_changelog_spec(s)) == without_cr(s),
        escape_changelog_spec(s).len() > 0 ==> escape_changelog_spec(s).last() != '\\',
    decreases s.len(),
{
    if s.len() > 0 {
        let t = s.drop_last();
        assert(no_backslash(t)) by {
            assert forall|i: int| 0 <= i < t.len() implies t[i] != '\\' by {
                assert(t[i] == s[i]);
            }
        }
        lemma_escape_roundtrip(t);
        let e = escape_changelog_spec(t);
        let c = s.last();
        assert(c == s[s.len() - 1]);
        if c == '\n' {
            let f = e + seq!['\\', 'n'];
            assert(f.subrange(0, f.len() - 2) =~= e);
            assert(f[f.len() - 2] == '\\' && f.last() == 'n');
        } else if c != '\r' {
            let f = e.push(c);
            assert(f.drop_last() =~= e);
            if f.len() >= 2 {
                assert(f[f.len() - 2] == e.last());
            }
        }
    }
}

/// Law: for a changelog without backslashes, reading the escaped text back
/// (each `\` `n` a line feed again) gives the changelog without its carriage
/// returns: no line feed is lost, added or moved.
pub proof fn law_escape_roundtrip(s: Seq<char>)
    requires
        no_backslash(s),
    ensures
        unescape_line_feeds(escape_changelog_spec(s)) == without_cr(s),
{
    lemma_escape_roundtrip(s);
}

/// Escapes a changelog for a text reply, as
/// `s.replace('\r', "").replace('\n', "\\n")` does.
pub fn escape_changelog(s: &str) -> (r: String)
    ensures
        r@ == escape_changelog_spec(s@),
        forall|i: int| 0 <= i < r@.len() ==> r@[i] != '\n' && r@[i] != '\r',
        no_backslash(s@) ==> unescape_line_feeds(r@) == without_cr(s@),
{
    let n = s.unicode_len();
    let mut out = String::new();
    let mut i: usize = 0;
    while i < n
        invariant
            n == s@.len(),
            i <= n,
            out@ == escape_changelog_spec(s@.take(i as int)),
        decreases n - i,
    {
        let c = s.get_char(i);
        if c == '\n' {
            push_char(&mut out, '\\');
            push_char(&mut out, 'n');
        } else if c != '\r' {
            push_char(&mut out, c);
        }
        proof {
            let t = s@.take(i + 1);
            assert(t.drop_last() =~= s@.take(i as int));
            assert(t.last() == c);
            if c == '\n' {
                assert(out@ =~= escape_changelog_spec(s@.take(i as int)) + seq!['\\', 'n']);
            }
        }
        i += 1;
    }
    assert(s@.take(n as int) =~= s@);
    proof {
        lemma_escape_has_no_line_breaks(s@);
        if no_backslash(s@) {
            law_escape_roundtrip(s@);
        }
    }
    out
}

/// How many line feeds a text holds.
pub open spec fn count_line_feeds(s: Seq<char>) -> nat
    decreases s.len(),
{
    if s.len() == 0 {
        0
    } else {
        count_line_feeds(s.drop_last()) + if s.last() == '\n' { 1nat } else { 0nat }
    }
}

/// The line feeds of a concatenation are those of its parts.
pub proof fn lemma_count_line_feeds_concat(a: Seq<char>, b: Seq<char>)
    ensures
        count_line_feeds(a + b) == count_line_feeds(a) + count_line_feeds(b),
    decreases b.len(),
{
    if b.len() > 0 {
        lemma_count_line_feeds_concat(a, b.drop_last());
        assert((a + b).drop_last() =~= a + b.drop_last());
        assert((a + b).last() == b.last());
    } else {
        assert(a + b =~= a);
    }
}

/// A text without line feeds counts none.
pub proof fn lemma_no_line_feeds(s: Seq<char>)
    requires
        forall|i: int| 0 <= i < s.len() ==> s[i] != '\n',
    ensures
        count_line_feeds(s) == 0,
    decreases s.len(),
{
    if s.len() > 0 {
        lemma_no_line_feeds(s.drop_last());
        assert(s.last() == s[s.len() - 1]);
    }
}

/// Whether a character is an ASCII decimal digit.
pub open spec fn is_digit(c: char) -> bool {
    '0' <= c && c <= '9'
}

/// The value of a sequence of decimal digits.
pub open spec fn digits_value(s: Seq<char>) -> nat
    decreases s.len(),
{
    if s.len() == 0 {
        0
    } else {
        digits_value(s.drop_last()) * 10 + ((s.last() as nat) - ('0' as nat)) as nat
    }
}

/// The text after an optional leading `+`.
pub open spec fn unsigned_digits(s: Seq<char>) -> Seq<char> {
    if s.len() > 0 && s[0] == '+' { s.drop_first() } else { s }
}

/// Whether every character is a decimal digit.
pub open spec fn all_digits(d: Seq<char>) -> bool {
    forall|i: int| 0 <= i < d.len() ==> is_digit(#[trigger] d[i])
}

/// What `u16::from_str` accepts: an optional `+`, then one or more decimal
/// digits whose value fits in a `u16`.
pub open spec fn parse_u16_spec(s: Seq<char>) -> Option<u16> {
    let d = unsigned_digits(s);
    if d.len() > 0 && all_digits(d) && digits_value(d) <= u16::MAX {
        Some(digits_value(d) as u16)
    } else {
        None
    }
}

/// Parses a port number, as `str::parse::<u16>` does.
pub fn parse_u16(s: &str) -> (r: Option<u16>)
    ensures
        r == parse_u16_spec(s@),
{
    let n = s.unicode_len();
    let mut start: usize = 0;
    if n > 0 && s.get_char(0) == '+' {
        start = 1;
    }
    let ghost d = unsigned_digits(s@);
    if start == n {
        return None;
    }
    // `acc` is the value read so far, held at 65536 once it exceeds a u16.
    let mut acc: u32 = 0;
    let mut i: usize = start;
    while i < n
        invariant
            n == s@.len(),
            start <= i <= n,
            start == 0 || start == 1,
            d == s@.subrange(start as int, n as int),
            d == unsigned_digits(s@),
            forall|j: int| 0 <= j < i - start ==> is_digit(#[trigger] d[j]),
            acc == (if digits_value(d.take(i - start)) > 65535 { 65536 } else {
                digits_value(d.take(i - start))
            }),
        decreases n - i,
    {
        let c = s.get_char(i);
        if !('0' <= c && c <= '9') {
            proof {
                let k = i - start;
                assert(!is_digit(d[k]));
                assert(!all_digits(d));
            }
            return None;
        }
        let v: u32 = (c as u32) - ('0' as u32);
        proof {
            let t = d.take(i + 1 - start);
            assert(t.drop_last() =~= d.take(i - start));
            assert(t.last() == c);
            assert(digits_value(t) == digits_value(d.take(i - start)) * 10 + v);
            assert(digits_value(d.take(i - start)) * 10 >= 0) by (nonlinear_arith);
            if digits_value(d.take(i - start)) > 65535 {
                assert(digits_value(d.take(i - start)) * 10 > 65535) by (nonlinear_arith)
                    requires digits_value(d.take(i - start)) > 65535;
            }
        }
        let next: u32 = acc * 10 + v;
        acc = if next > 65535 { 65536 } else { next };
        i += 1;
    }
    assert(d.take(n - start) =~= d);
    if acc > 65535 {
        None
    } else {
        Some(acc as u16)
    }
}

proof fn lemma_digit_char(d: nat)
    requires
        d < 10,
    ensures
        is_digit(digit_char(d)),
        (digit_char(d) as nat) - ('0' as nat) == d,
{
}

/// The decimal rendering of a number holds only digits and is never empty.
pub(crate) proof fn lemma_decimal_digits(n: nat)
    ensures
        decimal_spec(n).len() > 0,
        forall|i: int| 0 <= i < decimal_spec(n).len() ==> is_digit(#[trigger] decimal_spec(n)[i]),
        digits_value(decimal_spec(n)) == n,
    decreases n,
{
    lemma_digit_char(n % 10);
    if n >= 10 {
        lemma_decimal_digits(n / 10);
        let s = decimal_spec(n);
        assert(s.drop_last() =~= decimal_spec(n / 10));
        assert(s.last() == digit_char(n % 10));
        assert(digits_value(s) == n / 10 * 10 + n % 10);
    } else {
        let s = decimal_spec(n);
        assert(s.drop_last() =~= Seq::<char>::empty());
        assert(s.last() == digit_char(n));
        assert(digits_value(s) == digits_value(s.drop_last()) * 10 + ((s.last() as nat) - ('0' as nat)) as nat);
    }
}

/// Law: parsing the decimal rendering of a port number gives the number back.
pub proof fn law_port_roundtrip(n: u16)
    ensures
        parse_u16_spec(decimal_spec(n as nat)) == Some(n),
{
    lemma_decimal_digits(n as nat);
    let s = decimal_spec(n as nat);
    assert(s[0] != '+') by {
        assert(is_digit(s[0]));
    }
    assert(unsigned_digits(s) == s);
    assert(all_digits(s));
}

/// Law: the decimal rendering of a number is its canonical one: never empty,
/// digits only, reading back as the number, and starting with `0` only for
/// zero itself, which renders as the single digit `0`.
pub proof fn law_decimal_canonical(n: nat)
    ensures
        decimal_spec(n).len() > 0,
        all_digits(decimal_spec(n)),
        digits_value(decimal_spec(n)) == n,
        decimal_spec(n)[0] == '0' <==> n == 0,
        n == 0 ==> decimal_spec(n) == seq!['0'],
    decreases n,
{
    lemma_decimal_digits(n);
    if n >= 10 {
        law_decimal_canonical(n / 10);
        assert(decimal_spec(n)[0] == decimal_spec(n / 10)[0]);
    } else {
        assert(decimal_spec(n) == seq![digit_char(n)]);
    }
}

} // verus!
