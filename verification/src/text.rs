//! Characters and strings: hex, decimal, whitespace, UTF-8 and the LIKE
//! pattern a username search is matched with.

use vstd::prelude::*;

verus! {

broadcast use vstd::string::group_string_axioms;

// Hex //

/// The lower-case hex digit of a nibble.
pub open spec fn lower_hex_digit(v: int) -> char {
    if v < 10 {
        (48 + v) as char
    } else {
        (87 + v) as char
    }
}

/// Bytes written as lower-case hex, two digits per byte, high nibble first.
pub open spec fn hex_lower(bytes: Seq<u8>) -> Seq<char> {
    Seq::new(
        2 * bytes.len(),
        |i: int|
            if i % 2 == 0 {
                lower_hex_digit((bytes[i / 2] / 16) as int)
            } else {
                lower_hex_digit((bytes[i / 2] % 16) as int)
            },
    )
}

/// The value of a hex digit of either case.
pub open spec fn hex_value(c: char) -> Option<int> {
    if '0' <= c && c <= '9' {
        Some(c as int - 48)
    } else if 'a' <= c && c <= 'f' {
        Some(c as int - 87)
    } else if 'A' <= c && c <= 'F' {
        Some(c as int - 55)
    } else {
        None
    }
}

/// Hex text read back as bytes: `None` unless the text is an even number of
/// hex digits of either case.
pub open spec fn hex_decoded(s: Seq<char>) -> Option<Seq<u8>> {
    if s.len() % 2 == 0 && (forall|i: int| 0 <= i < s.len() ==> (#[trigger] hex_value(s[i])) is Some) {
        Some(
            Seq::new(
                s.len() / 2,
                |j: int| (16 * hex_value(s[2 * j])->0 + hex_value(s[2 * j + 1])->0) as u8,
            ),
        )
    } else {
        None
    }
}

/// Encodes bytes as lower-case hex text.
///
/// Calls `hex::encode`, which writes each byte as two lower-case digits, high
/// nibble first.
#[verifier::external_body]
pub(crate) fn hex_encode(bytes: &[u8]) -> (s: String)
    ensures
        s@ == hex_lower(bytes@),
{
    hex::encode(bytes)
}

/// Decodes hex text into bytes.
///
/// Calls `hex::decode`, which fails on an odd length or on any character that
/// is not a hex digit of either case, and otherwise reads each pair of digits
/// as one byte.
#[verifier::external_body]
pub(crate) fn hex_decode(s: &str) -> (r: Option<Vec<u8>>)
    ensures
        match r {
            Some(v) => hex_decoded(s@) == Some(v@),
            None => hex_decoded(s@) is None,
        },
{
    hex::decode(s).ok()
}

/// Hex written by `hex_lower` reads back as the bytes it was written from.
pub proof fn law_hex_round_trip(bytes: Seq<u8>)
    ensures
        hex_decoded(hex_lower(bytes)) == Some(bytes),
{
    let s = hex_lower(bytes);
    assert forall|i: int| 0 <= i < s.len() implies (#[trigger] hex_value(s[i])) is Some
        && hex_value(s[i])->0 == (if i % 2 == 0 { bytes[i / 2] / 16 } else { bytes[i / 2] % 16 }) by {
    }
    let d = hex_decoded(s)->0;
    assert(hex_decoded(s) is Some);
    assert forall|j: int| 0 <= j < bytes.len() implies d[j] == bytes[j] by {
        assert(s[2 * j] == lower_hex_digit((bytes[j] / 16) as int));
        assert(s[2 * j + 1] == lower_hex_digit((bytes[j] % 16) as int));
        assert((2 * j) / 2 == j);
        assert((2 * j + 1) / 2 == j);
        assert(hex_value(s[2 * j]) is Some);
        assert(hex_value(s[2 * j + 1]) is Some);
    }
    assert(d =~= bytes);
}

// Decimal //

/// A natural number written in decimal, with no sign and no leading zero.
pub open spec fn decimal(n: nat) -> Seq<char>
    decreases n,
{
    if n < 10 {
        seq![(48 + n) as char]
    } else {
        decimal(n / 10).push((48 + n % 10) as char)
    }
}

/// Writes a number in decimal.
///
/// Calls `u64::to_string`, whose `Display` writes the digits with no sign,
/// padding or leading zero.
#[verifier::external_body]
pub(crate) fn decimal_string(n: u64) -> (s: String)
    ensures
        s@ == decimal(n as nat),
{
    n.to_string()
}

// Whitespace //

/// The Unicode `White_Space` property, which `char::is_whitespace` reports.
pub open spec fn white_space(c: char) -> bool {
    ||| '\u{9}' <= c && c <= '\u{d}'
    ||| c == ' '
    ||| c == '\u{85}'
    ||| c == '\u{a0}'
    ||| c == '\u{1680}'
    ||| '\u{2000}' <= c && c <= '\u{200a}'
    ||| c == '\u{2028}'
    ||| c == '\u{2029}'
    ||| c == '\u{202f}'
    ||| c == '\u{205f}'
    ||| c == '\u{3000}'
}

/// Calls `char::is_whitespace`, which reports the Unicode `White_Space`
/// property.
#[verifier::external_body]
fn char_is_whitespace(c: char) -> (r: bool)
    ensures
        r == white_space(c),
{
    c.is_whitespace()
}

/// Whether every character is whitespace, which is when trimming the text
/// leaves it empty.
pub open spec fn blank(s: Seq<char>) -> bool {
    forall|i: int| 0 <= i < s.len() ==> white_space(#[trigger] s[i])
}

/// Reports whether a text holds nothing but whitespace (the empty text
/// included), so that `trim` would leave it empty.
pub fn is_blank(s: &str) -> (r: bool)
    ensures
        r == blank(s@),
{
    let chars = chars_of(s);
    let mut i: usize = 0;
    while i < chars.len()
        invariant
            i <= chars.len(),
            chars@ == s@,
            forall|j: int| 0 <= j < i ==> white_space(#[trigger] s@[j]),
        decreases chars.len() - i,
    {
        if !char_is_whitespace(chars[i]) {
            return false;
        }
        i = i + 1;
    }
    true
}

// Characters //

/// The characters of a text, in order.
pub fn chars_of(s: &str) -> (v: Vec<char>)
    ensures
        v@ == s@,
{
    let mut v: Vec<char> = Vec::new();
    for c in it: s.chars()
        invariant
            it.seq() == s@,
            v@ == it.seq().take(it.index() as int),
    {
        v.push(c);
    }
    assert(v@ =~= s@);
    v
}

/// Builds a text from its characters.
///
/// Calls `FromIterator<&char>` for `String`, which appends the characters in order.
#[verifier::external_body]
pub(crate) fn string_from_chars(chars: &[char]) -> (s: String)
    ensures
        s@ == chars@,
{
    chars.iter().collect()
}

/// Whether two texts are the same characters.
pub fn same_text(a: &str, b: &str) -> (r: bool)
    ensures
        r == (a@ == b@),
{
    let x = chars_of(a);
    let y = chars_of(b);
    if x.len() != y.len() {
        return false;
    }
    let mut i: usize = 0;
    while i < x.len()
        invariant
            i <= x.len(),
            x.len() == y.len(),
            x@ == a@,
            y@ == b@,
            forall|j: int| 0 <= j < i ==> x@[j] == y@[j],
        decreases x.len() - i,
    {
        if x[i] != y[i] {
            return false;
        }
        i = i + 1;
    }
    assert(a@ =~= b@);
    true
}

// UTF-8 //

/// What `std::str::from_utf8` makes of a run of bytes.
#[derive(Debug, Clone, Copy, PartialEq, Eq, Structural)]
pub enum Utf8Verdict {
    /// The bytes are UTF-8.
    Valid,
    /// The bytes are UTF-8 but for a sequence cut short at the end.
    Truncated,
    /// Some byte is not UTF-8.
    Invalid,
}

/// What `std::str::from_utf8` reports of a run of bytes: `Valid` on UTF-8;
/// `Truncated` when the input ends in the middle of a sequence that could
/// still become valid, so that some further bytes would make it UTF-8;
/// `Invalid` otherwise.
pub open spec fn from_utf8_verdict(bytes: Seq<u8>) -> Utf8Verdict {
    if vstd::utf8::valid_utf8(bytes) {
        Utf8Verdict::Valid
    } else if exists|more: Seq<u8>| #[trigger] vstd::utf8::valid_utf8(bytes + more) {
        Utf8Verdict::Truncated
    } else {
        Utf8Verdict::Invalid
    }
}

/// Runs `std::str::from_utf8`, telling apart a cut-short final sequence (its
/// error has no `error_len`) from any other failure.
///
/// `from_utf8` accepts exactly UTF-8 as vstd defines it (no overlong forms,
/// no surrogates, nothing past U+10FFFF). Its documentation of `error_len`
/// says `None` means the end of the input was reached unexpectedly, in a
/// sequence that appending more bytes could complete; any other failure is a
/// byte that no continuation makes valid.
#[verifier::external_body]
pub(crate) fn utf8_verdict(bytes: &[u8]) -> (r: Utf8Verdict)
    ensures
        r == from_utf8_verdict(bytes@),
{
    match std::str::from_utf8(bytes) {
        Ok(_) => Utf8Verdict::Valid,
        Err(e) => match e.error_len() {
            None => Utf8Verdict::Truncated,
            Some(_) => Utf8Verdict::Invalid,
        },
    }
}

// LIKE patterns //

/// One character as a LIKE pattern matches it literally, with `\` as escape.
pub open spec fn escape_like_char(c: char) -> Seq<char> {
    if c == '\\' || c == '%' || c == '_' {
        seq!['\\', c]
    } else {
        seq![c]
    }
}

/// A text with every `\`, `%` and `_` escaped by a `\`.
pub open spec fn escape_like(s: Seq<char>) -> Seq<char>
    decreases s.len(),
{
    if s.len() == 0 {
        Seq::empty()
    } else {
        escape_like(s.drop_last()) + escape_like_char(s.last())
    }
}

/// A LIKE pattern read back: `\` takes the next character literally.
pub open spec fn unescape_like(p: Seq<char>) -> Seq<char>
    decreases p.len(),
{
    if p.len() == 0 {
        Seq::empty()
    } else if p[0] == '\\' && p.len() >= 2 {
        seq![p[1]] + unescape_like(p.subrange(2, p.len() as int))
    } else {
        seq![p[0]] + unescape_like(p.subrange(1, p.len() as int))
    }
}

/// The LIKE pattern matching every username that starts with `prefix`: the
/// prefix escaped, then `%`.
pub open spec fn prefix_pattern(prefix: Seq<char>) -> Seq<char> {
    escape_like(prefix).push('%')
}

/// Builds the LIKE pattern (escape `\`) that matches the usernames starting
/// with `prefix`.
pub fn username_prefix_pattern(prefix: &str) -> (r: String)
    ensures
        r@ == prefix_pattern(prefix@),
{
    let chars = chars_of(prefix);
    let mut out: Vec<char> = Vec::new();
    let mut i: usize = 0;
    while i < chars.len()
        invariant
            i <= chars.len(),
            chars@ == prefix@,
            out@ == escape_like(prefix@.take(i as int)),
        decreases chars.len() - i,
    {
        let c = chars[i];
        proof {
            assert(prefix@.take(i as int + 1).drop_last() =~= prefix@.take(i as int));
        }
        if c == '\\' || c == '%' || c == '_' {
            out.push('\\');
        }
        out.push(c);
        proof {
            assert(out@ =~= escape_like(prefix@.take(i as int + 1)));
        }
        i = i + 1;
    }
    out.push('%');
    proof {
        assert(prefix@.take(chars@.len() as int) =~= prefix@);
    }
    string_from_chars(&out)
}

proof fn lemma_unescape_append(a: Seq<char>, c: char)
    ensures
        unescape_like(escape_like(a) + escape_like_char(c)) == unescape_like(escape_like(a)) + seq![c],
    decreases a.len(),
{
    if a.len() == 0 {
        assert(escape_like(a) + escape_like_char(c) =~= escape_like_char(c));
        if c == '\\' || c == '%' || c == '_' {
            assert(escape_like_char(c).subrange(2, 2) =~= Seq::<char>::empty());
        } else {
            assert(escape_like_char(c).subrange(1, 1) =~= Seq::<char>::empty());
        }
        assert(unescape_like(Seq::<char>::empty()) =~= Seq::<char>::empty());
    } else {
        let first = a[0];
        let rest = a.subrange(1, a.len() as int);
        lemma_escape_split(a);
        lemma_unescape_append(rest, c);
        let e1 = escape_like_char(first);
        let whole = e1 + escape_like(rest) + escape_like_char(c);
        assert(escape_like(a) + escape_like_char(c) =~= whole);
        if first == '\\' || first == '%' || first == '_' {
            assert(whole.subrange(2, whole.len() as int) =~= escape_like(rest) + escape_like_char(c));
            assert(escape_like(a).subrange(2, escape_like(a).len() as int) =~= escape_like(rest));
        } else {
            assert(whole.subrange(1, whole.len() as int) =~= escape_like(rest) + escape_like_char(c));
            assert(escape_like(a).subrange(1, escape_like(a).len() as int) =~= escape_like(rest));
        }
    }
}

proof fn lemma_escape_split(a: Seq<char>)
    requires
        a.len() > 0,
    ensures
        escape_like(a) == escape_like_char(a[0]) + escape_like(a.subrange(1, a.len() as int)),
    decreases a.len(),
{
    if a.len() == 1 {
        assert(a.drop_last() =~= Seq::<char>::empty());
        assert(a.subrange(1, 1) =~= Seq::<char>::empty());
        assert(escape_like_char(a[0]) + Seq::<char>::empty() =~= escape_like_char(a[0]));
    } else {
        let init = a.drop_last();
        lemma_escape_split(init);
        assert(init.subrange(1, init.len() as int) =~= a.subrange(1, a.len() as int).drop_last());
        assert(a.subrange(1, a.len() as int).last() == a.last());
        assert(escape_like(a) =~= escape_like_char(a[0]) + escape_like(a.subrange(1, a.len() as int)));
    }
}

/// Escaping loses nothing: reading an escaped text back as a LIKE pattern
/// gives the text, so the pattern matches the username prefix literally.
pub proof fn law_like_escape_round_trip(s: Seq<char>)
    ensures
        unescape_like(escape_like(s)) == s,
    decreases s.len(),
{
    if s.len() == 0 {
    } else {
        let init = s.drop_last();
        law_like_escape_round_trip(init);
        lemma_unescape_append(init, s.last());
        assert(init + seq![s.last()] =~= s);
    }
}

/// A text without its leading whitespace.
pub open spec fn trim_start(s: Seq<char>) -> Seq<char>
    decreases s.len(),
{
    if s.len() > 0 && white_space(s[0]) {
        trim_start(s.skip(1))
    } else {
        s
    }
}

/// A text without its trailing whitespace.
pub open spec fn trim_end(s: Seq<char>) -> Seq<char>
    decreases s.len(),
{
    if s.len() > 0 && white_space(s.last()) {
        trim_end(s.drop_last())
    } else {
        s
    }
}

/// A text without whitespace at either end, as `str::trim` leaves it.
pub open spec fn trimmed(s: Seq<char>) -> Seq<char> {
    trim_end(trim_start(s))
}

/// The text with whitespace removed from both ends.
pub fn trim_text(s: &str) -> (r: String)
    ensures
        r@ == trimmed(s@),
{
    let chars = chars_of(s);
    let mut i: usize = 0;
    assert(s@.skip(0) =~= s@);
    while i < chars.len() && char_is_whitespace(chars[i])
        invariant
            i <= chars@.len(),
            chars@ == s@,
            trim_start(s@) == trim_start(s@.skip(i as int)),
        decreases chars.len() - i,
    {
        proof {
            let t = s@.skip(i as int);
            assert(t.skip(1) =~= s@.skip(i as int + 1));
        }
        i = i + 1;
    }
    let ghost front = s@.skip(i as int);
    assert(trim_start(s@) == front) by {
        if i < chars.len() {
            assert(front[0] == chars@[i as int]);
        } else {
            assert(front.len() == 0);
        }
    }
    let mut j: usize = chars.len();
    assert(front.take(j - i) =~= front);
    while j > i && char_is_whitespace(chars[j - 1])
        invariant
            i <= j <= chars@.len(),
            chars@ == s@,
            front == s@.skip(i as int),
            trim_end(front) == trim_end(front.take(j - i)),
        decreases j,
    {
        proof {
            let t = front.take(j - i);
            assert(t.last() == chars@[j - 1]);
            assert(t.drop_last() =~= front.take(j - 1 - i));
        }
        j = j - 1;
    }
    assert(trim_end(front) == front.take(j - i)) by {
        if j > i {
            assert(front.take(j - i).last() == chars@[j - 1]);
        } else {
            assert(front.take(j - i).len() == 0);
        }
    }
    let mut kept: Vec<char> = Vec::new();
    let mut k: usize = i;
    while k < j
        invariant
            i <= k <= j <= chars@.len(),
            chars@ == s@,
            kept@ == s@.subrange(i as int, k as int),
        decreases j - k,
    {
        kept.push(chars[k]);
        proof {
            assert(kept@ =~= s@.subrange(i as int, k as int + 1));
        }
        k = k + 1;
    }
    assert(kept@ =~= front.take(j - i));
    string_from_chars(kept.as_slice())
}

/// Appends a text's characters to a buffer, in order.
pub(crate) fn append_text(out: &mut Vec<char>, s: &str)
    ensures
        final(out)@ == old(out)@ + s@,
{
    let chars = chars_of(s);
    let mut i: usize = 0;
    while i < chars.len()
        invariant
            i <= chars@.len(),
            chars@ == s@,
            out@ == old(out)@ + s@.take(i as int),
        decreases chars.len() - i,
    {
        out.push(chars[i]);
        proof {
            assert(s@.take(i as int + 1) =~= s@.take(i as int).push(s@[i as int]));
        }
        i = i + 1;
    }
    assert(s@.take(s@.len() as int) =~= s@);
}

// Bytes //

/// Appends bytes to a buffer, in order.
pub(crate) fn append_bytes(out: &mut Vec<u8>, more: &[u8])
    ensures
        final(out)@ == old(out)@ + more@,
{
    let mut i: usize = 0;
    while i < more.len()
        invariant
            i <= more@.len(),
            out@ == old(out)@ + more@.take(i as int),
        decreases more.len() - i,
    {
        out.push(more[i]);
        proof {
            assert(more@.take(i as int + 1) =~= more@.take(i as int).push(more@[i as int]));
        }
        i = i + 1;
    }
    assert(more@.take(more@.len() as int) =~= more@);
}

} // verus!
