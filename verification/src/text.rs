//! Byte strings: the small vocabulary of scanning, splitting and decimal
//! numbers that the textual wire formats are written in.

use vstd::prelude::*;
use vstd::slice::slice_subrange;
use vstd::string::*;

verus! {

/// ASCII white space: blank, tab, line feed, vertical tab, form feed and
/// carriage return.
pub open spec fn is_space(b: u8) -> bool {
    b == 32 || (9 <= b && b <= 13)
}

/// An ASCII decimal digit.
pub open spec fn is_digit(b: u8) -> bool {
    48 <= b && b <= 57
}

/// The bytes of a text of ASCII characters.
pub open spec fn ascii(chars: Seq<char>) -> Seq<u8> {
    Seq::new(chars.len(), |i: int| chars[i] as u8)
}

/// The bytes of an ASCII string.
pub fn ascii_bytes(s: &str) -> (b: &[u8])
    requires
        is_ascii(s),
    ensures
        b@ == ascii(s@),
{
    let b = s.as_bytes();
    proof {
        is_ascii_spec_bytes(s);
        assert(b@ =~= ascii(s@));
    }
    b
}

/// What a scan stops at.
#[derive(Debug, Clone, Copy, PartialEq, Eq, Structural)]
pub enum Stop {
    /// The given byte.
    Byte(u8),
    /// Any white space.
    Space,
    /// Anything but white space.
    Text,
}

impl Stop {
    pub open spec fn hit(self, b: u8) -> bool {
        match self {
            Stop::Byte(x) => b == x,
            Stop::Space => is_space(b),
            Stop::Text => !is_space(b),
        }
    }

    pub fn is_hit(&self, b: u8) -> (r: bool)
        ensures
            r == self.hit(b),
    {
        match self {
            Stop::Byte(x) => b == *x,
            Stop::Space => b == 32 || (9 <= b && b <= 13),
            Stop::Text => !(b == 32 || (9 <= b && b <= 13)),
        }
    }
}

/// The first index at or after `from` whose byte `stop` hits, or the
/// length of `s` if there is none.
pub open spec fn scan(s: Seq<u8>, from: int, stop: Stop) -> int
    decreases s.len() - from,
{
    if from < 0 || from >= s.len() {
        s.len() as int
    } else if stop.hit(s[from]) {
        from
    } else {
        scan(s, from + 1, stop)
    }
}

/// A scan ends where the first hit is.
pub proof fn lemma_scan_is(s: Seq<u8>, from: int, stop: Stop, k: int)
    requires
        0 <= from <= k <= s.len(),
        forall|j: int| from <= j < k ==> !stop.hit(#[trigger] s[j]),
        k == s.len() || stop.hit(s[k]),
    ensures
        scan(s, from, stop) == k,
    decreases k - from,
{
    if from < k {
        assert(!stop.hit(s[from]));
        lemma_scan_is(s, from + 1, stop, k);
    }
}

/// Where a scan ends there is a hit or the end, and no hit before.
pub proof fn lemma_scan_props(s: Seq<u8>, from: int, stop: Stop)
    requires
        0 <= from <= s.len(),
    ensures
        from <= scan(s, from, stop) <= s.len(),
        forall|j: int| from <= j < scan(s, from, stop) ==> !stop.hit(#[trigger] s[j]),
        scan(s, from, stop) == s.len() || stop.hit(s[scan(s, from, stop)]),
    decreases s.len() - from,
{
    if from < s.len() && !stop.hit(s[from]) {
        lemma_scan_props(s, from + 1, stop);
    }
}

/// Scans `s` from `from` for the first byte that `stop` hits.
pub fn scan_to(s: &[u8], from: usize, stop: Stop) -> (k: usize)
    requires
        from <= s@.len(),
    ensures
        k == scan(s@, from as int, stop),
        from <= k <= s@.len(),
{
    let mut i: usize = from;
    while i < s.len() && !stop.is_hit(s[i])
        invariant
            from <= i <= s@.len(),
            scan(s@, from as int, stop) == scan(s@, i as int, stop),
        decreases s@.len() - i,
    {
        i = i + 1;
    }
    i
}

/// The end of the text in the first `to` bytes of `s`: what is left when
/// trailing white space is cut.
pub open spec fn text_end(s: Seq<u8>, to: int) -> int
    decreases to,
{
    if to <= 0 || to > s.len() {
        0
    } else if is_space(s[to - 1]) {
        text_end(s, to - 1)
    } else {
        to
    }
}

/// `s` without white space at either end.
pub open spec fn trimmed(s: Seq<u8>) -> Seq<u8> {
    let a = scan(s, 0, Stop::Text);
    let e = text_end(s, s.len() as int);
    if e <= a {
        Seq::empty()
    } else {
        s.subrange(a, e)
    }
}

/// Text that starts and ends with something other than white space is its
/// own trimmed form, whatever white space follows it.
pub proof fn lemma_trimmed_is(s: Seq<u8>, tail: Seq<u8>)
    requires
        s.len() > 0,
        !is_space(s[0]),
        !is_space(s.last()),
        forall|i: int| 0 <= i < tail.len() ==> is_space(#[trigger] tail[i]),
    ensures
        trimmed(s + tail) == s,
{
    let t = s + tail;
    lemma_scan_is(t, 0, Stop::Text, 0);
    lemma_text_end_is(t, t.len() as int, s.len() as int);
    assert(t.subrange(0, s.len() as int) =~= s);
}

/// Cutting trailing white space ends behind the last byte of text.
pub proof fn lemma_text_end_is(s: Seq<u8>, to: int, e: int)
    requires
        0 < e <= to <= s.len(),
        !is_space(s[e - 1]),
        forall|i: int| e <= i < to ==> is_space(#[trigger] s[i]),
    ensures
        text_end(s, to) == e,
    decreases to - e,
{
    if e < to {
        assert(is_space(s[to - 1]));
        lemma_text_end_is(s, to - 1, e);
    }
}

/// Cuts white space off both ends of `s`.
pub fn trim<'a>(s: &'a [u8]) -> (t: &'a [u8])
    ensures
        t@ == trimmed(s@),
{
    let a = scan_to(s, 0, Stop::Text);
    let mut e: usize = s.len();
    while e > 0 && Stop::Space.is_hit(s[e - 1])
        invariant
            e <= s@.len(),
            text_end(s@, s@.len() as int) == text_end(s@, e as int),
        decreases e,
    {
        e = e - 1;
    }
    if e <= a {
        let t = slice_subrange(s, 0, 0);
        assert(t@ =~= Seq::<u8>::empty());
        t
    } else {
        slice_subrange(s, a, e)
    }
}

/// The first word of `s`: the first run of bytes that are not white space.
/// Empty when `s` holds no word.
pub open spec fn first_word(s: Seq<u8>) -> Seq<u8> {
    let a = scan(s, 0, Stop::Text);
    s.subrange(a, scan(s, a, Stop::Space))
}

/// What follows the first word of `s`.
pub open spec fn after_word(s: Seq<u8>) -> Seq<u8> {
    let a = scan(s, 0, Stop::Text);
    s.skip(scan(s, a, Stop::Space))
}

/// The word of `s` with index `n`, counting from zero. Empty when `s`
/// holds no more than `n` words.
pub open spec fn nth_word(s: Seq<u8>, n: nat) -> Seq<u8>
    decreases n,
{
    if n == 0 {
        first_word(s)
    } else {
        nth_word(after_word(s), (n - 1) as nat)
    }
}

/// A run of bytes without white space.
pub open spec fn is_token(w: Seq<u8>) -> bool {
    forall|i: int| 0 <= i < w.len() ==> !is_space(#[trigger] w[i])
}

/// A token at the head of a text, followed by white space or nothing, is
/// its first word.
pub proof fn lemma_first_word_is(w: Seq<u8>, rest: Seq<u8>)
    requires
        w.len() > 0,
        is_token(w),
        rest.len() == 0 || is_space(rest[0]),
    ensures
        first_word(w + rest) == w,
        after_word(w + rest) == rest,
{
    let s = w + rest;
    assert(!is_space(s[0])) by {
        assert(s[0] == w[0]);
    }
    lemma_scan_is(s, 0, Stop::Text, 0);
    assert forall|j: int| 0 <= j < w.len() implies !Stop::Space.hit(#[trigger] s[j]) by {
        assert(s[j] == w[j]);
    }
    if rest.len() > 0 {
        assert(s[w.len() as int] == rest[0]);
    }
    lemma_scan_is(s, 0, Stop::Space, w.len() as int);
    assert(s.subrange(0, w.len() as int) =~= w);
    assert(s.skip(w.len() as int) =~= rest);
}

/// One blank before a text does not change its words.
pub proof fn lemma_word_after_blank(rest: Seq<u8>)
    ensures
        first_word(seq![32u8] + rest) == first_word(rest),
        after_word(seq![32u8] + rest) == after_word(rest),
{
    let s = seq![32u8] + rest;
    assert(s.skip(1) =~= rest);
    assert(is_space(s[0]));
    lemma_scan_shift(rest, 0, Stop::Text);
    let a = scan(rest, 0, Stop::Text);
    lemma_scan_props(rest, 0, Stop::Text);
    lemma_scan_shift(rest, a, Stop::Space);
    lemma_scan_props(rest, a, Stop::Space);
    assert(scan(s, 0, Stop::Text) == scan(s, 1, Stop::Text));
    assert(s.subrange(a + 1, scan(rest, a, Stop::Space) + 1) =~= rest.subrange(
        a,
        scan(rest, a, Stop::Space),
    ));
    assert(s.skip(scan(rest, a, Stop::Space) + 1) =~= rest.skip(scan(rest, a, Stop::Space)));
}

/// A scan of a text behind one more byte ends one index later.
pub proof fn lemma_scan_shift(rest: Seq<u8>, from: int, stop: Stop)
    requires
        0 <= from <= rest.len(),
    ensures
        forall|b: u8| scan(#[trigger] (seq![b] + rest), from + 1, stop) == scan(rest, from, stop) + 1,
    decreases rest.len() - from,
{
    assert forall|b: u8| scan(#[trigger] (seq![b] + rest), from + 1, stop) == scan(
        rest,
        from,
        stop,
    ) + 1 by {
        let s = seq![b] + rest;
        lemma_scan_props(rest, from, stop);
        let k = scan(rest, from, stop);
        assert forall|j: int| from + 1 <= j < k + 1 implies !stop.hit(#[trigger] s[j]) by {
            assert(s[j] == rest[j - 1]);
        }
        if k < rest.len() {
            assert(s[k + 1] == rest[k]);
        }
        lemma_scan_is(s, from + 1, stop, k + 1);
    }
}

/// Splits the first word off `s`.
pub fn split_word<'a>(s: &'a [u8]) -> (r: (&'a [u8], &'a [u8]))
    ensures
        r.0@ == first_word(s@),
        r.1@ == after_word(s@),
{
    let a = scan_to(s, 0, Stop::Text);
    let e = scan_to(s, a, Stop::Space);
    (slice_subrange(s, a, e), slice_subrange(s, e, s.len()))
}

/// The word of `s` with index `n`, empty when there is none.
pub fn word_at<'a>(s: &'a [u8], n: usize) -> (w: &'a [u8])
    ensures
        w@ == nth_word(s@, n as nat),
{
    let mut cur: &[u8] = s;
    let mut i: usize = 0;
    while i < n
        invariant
            i <= n,
            nth_word(s@, n as nat) == nth_word(cur@, (n - i) as nat),
        decreases n - i,
    {
        let (_, rest) = split_word(cur);
        cur = rest;
        i = i + 1;
    }
    let (w, _) = split_word(cur);
    w
}

/// The field of `s` with index `n` when `s` is cut at every `sep`. `None`
/// when `s` has no more than `n` fields.
pub open spec fn field(s: Seq<u8>, sep: u8, n: nat) -> Option<Seq<u8>>
    decreases n,
{
    let k = scan(s, 0, Stop::Byte(sep));
    if n == 0 {
        Some(s.take(k))
    } else if k >= s.len() {
        None
    } else {
        field(s.skip(k + 1), sep, (n - 1) as nat)
    }
}

/// A text without `sep`, followed by `sep` or nothing, is the first field.
pub proof fn lemma_first_field_is(w: Seq<u8>, sep: u8, rest: Seq<u8>)
    requires
        forall|i: int| 0 <= i < w.len() ==> #[trigger] w[i] != sep,
        rest.len() == 0 || rest[0] == sep,
    ensures
        scan(w + rest, 0, Stop::Byte(sep)) == w.len(),
        field(w + rest, sep, 0) == Some(w),
{
    let s = w + rest;
    assert forall|j: int| 0 <= j < w.len() implies !Stop::Byte(sep).hit(#[trigger] s[j]) by {
        assert(s[j] == w[j]);
    }
    if rest.len() > 0 {
        assert(s[w.len() as int] == rest[0]);
    }
    lemma_scan_is(s, 0, Stop::Byte(sep), w.len() as int);
    assert(s.take(w.len() as int) =~= w);
}

/// Behind a first field and its separator the fields count on from one.
pub proof fn lemma_next_field(w: Seq<u8>, sep: u8, rest: Seq<u8>, n: nat)
    requires
        forall|i: int| 0 <= i < w.len() ==> #[trigger] w[i] != sep,
        n > 0,
    ensures
        field(w + seq![sep] + rest, sep, n) == field(rest, sep, (n - 1) as nat),
{
    let s = w + seq![sep] + rest;
    assert(s =~= w + (seq![sep] + rest));
    lemma_first_field_is(w, sep, seq![sep] + rest);
    assert(s.skip(w.len() as int + 1) =~= rest);
}

/// The field of `s` with index `n` when `s` is cut at every `sep`.
pub fn field_at<'a>(s: &'a [u8], sep: u8, n: usize) -> (f: Option<&'a [u8]>)
    ensures
        match field(s@, sep, n as nat) {
            Some(x) => f.is_some() && f.unwrap()@ == x,
            None => f.is_none(),
        },
{
    let mut cur: &[u8] = s;
    let mut i: usize = 0;
    while i < n
        invariant
            i <= n,
            field(s@, sep, n as nat) == field(cur@, sep, (n - i) as nat),
        decreases n - i,
    {
        let k = scan_to(cur, 0, Stop::Byte(sep));
        if k >= cur.len() {
            return None;
        }
        cur = slice_subrange(cur, k + 1, cur.len());
        i = i + 1;
    }
    let k = scan_to(cur, 0, Stop::Byte(sep));
    Some(slice_subrange(cur, 0, k))
}

/// Whether `needle` stands in `hay` at index `i`.
pub open spec fn occurs_at(hay: Seq<u8>, needle: Seq<u8>, i: int) -> bool {
    0 <= i && i + needle.len() <= hay.len() && hay.subrange(i, i + needle.len()) == needle
}

/// Whether `s` begins with `prefix`.
pub open spec fn starts_with(s: Seq<u8>, prefix: Seq<u8>) -> bool {
    occurs_at(s, prefix, 0)
}

/// Whether `needle` stands anywhere in `hay`.
pub open spec fn contains(hay: Seq<u8>, needle: Seq<u8>) -> bool {
    exists|i: int| occurs_at(hay, needle, i)
}

/// Whether two byte strings are the same.
pub fn same_bytes(a: &[u8], b: &[u8]) -> (r: bool)
    ensures
        r == (a@ == b@),
{
    if a.len() != b.len() {
        return false;
    }
    let mut i: usize = 0;
    while i < a.len()
        invariant
            i <= a@.len(),
            a@.len() == b@.len(),
            forall|j: int| 0 <= j < i ==> a@[j] == b@[j],
        decreases a@.len() - i,
    {
        if a[i] != b[i] {
            return false;
        }
        i = i + 1;
    }
    assert(a@ =~= b@);
    true
}

/// Whether `needle` stands in `hay` at index `i`.
pub fn found_at(hay: &[u8], needle: &[u8], i: usize) -> (r: bool)
    ensures
        r == occurs_at(hay@, needle@, i as int),
{
    if i > hay.len() || needle.len() > hay.len() - i {
        return false;
    }
    same_bytes(slice_subrange(hay, i, i + needle.len()), needle)
}

/// Whether `s` begins with `prefix`.
pub fn has_prefix(s: &[u8], prefix: &[u8]) -> (r: bool)
    ensures
        r == starts_with(s@, prefix@),
{
    found_at(s, prefix, 0)
}

/// Whether `needle` stands anywhere in `hay`.
pub fn has_part(hay: &[u8], needle: &[u8]) -> (r: bool)
    ensures
        r == contains(hay@, needle@),
{
    if needle.len() > hay.len() {
        assert forall|i: int| !occurs_at(hay@, needle@, i) by {}
        return false;
    }
    let last: usize = hay.len() - needle.len();
    let mut i: usize = 0;
    while i < last
        invariant
            i <= last,
            last == hay@.len() - needle@.len(),
            forall|j: int| 0 <= j < i ==> !occurs_at(hay@, needle@, j),
        decreases last - i,
    {
        if found_at(hay, needle, i) {
            return true;
        }
        i = i + 1;
    }
    let r = found_at(hay, needle, last);
    if !r {
        assert forall|j: int| !occurs_at(hay@, needle@, j) by {}
    }
    r
}

/// The number that a byte stands for as a decimal digit, zero for any
/// other byte.
pub open spec fn digit_value(b: u8) -> nat {
    if is_digit(b) {
        (b - 48) as nat
    } else {
        0
    }
}

/// Whether `s` holds nothing but decimal digits.
pub open spec fn all_digits(s: Seq<u8>) -> bool {
    forall|i: int| 0 <= i < s.len() ==> is_digit(#[trigger] s[i])
}

/// The number that the digits of `s` spell out.
pub open spec fn digits_value(s: Seq<u8>) -> nat
    decreases s.len(),
{
    if s.len() == 0 {
        0
    } else {
        digits_value(s.drop_last()) * 10 + digit_value(s.last())
    }
}

/// The number that `s` spells out in digits, if it has at least one
/// digit, nothing else, and the number is no more than `max`.
pub open spec fn parse_digits(s: Seq<u8>, max: nat) -> Option<nat> {
    if s.len() > 0 && all_digits(s) && digits_value(s) <= max {
        Some(digits_value(s))
    } else {
        None
    }
}

/// An unsigned decimal number as it is written in text: digits, with one
/// `+` before them if the writer liked.
pub open spec fn parse_number(s: Seq<u8>, max: nat) -> Option<nat> {
    if s.len() > 0 && s[0] == 43 {
        parse_digits(s.skip(1), max)
    } else {
        parse_digits(s, max)
    }
}

/// The decimal digits of `v`, without leading zeros.
pub open spec fn decimal_digits(v: nat) -> Seq<u8>
    decreases v,
{
    if v < 10 {
        seq![(48 + v) as u8]
    } else {
        decimal_digits(v / 10).push((48 + v % 10) as u8)
    }
}

/// A longer run of digits spells out no smaller a number than its prefix.
pub proof fn lemma_digits_value_grows(s: Seq<u8>, n: int)
    requires
        0 <= n <= s.len(),
    ensures
        digits_value(s.take(n)) <= digits_value(s),
    decreases s.len() - n,
{
    if n < s.len() {
        lemma_digits_value_grows(s, n + 1);
        assert(s.take(n + 1).drop_last() =~= s.take(n));
    } else {
        assert(s.take(n) =~= s);
    }
}

/// What the decimal digits of a number look like, and that they spell
/// the number out.
pub proof fn lemma_decimal_digits(v: nat)
    ensures
        decimal_digits(v).len() >= 1,
        all_digits(decimal_digits(v)),
        digits_value(decimal_digits(v)) == v,
        decimal_digits(v).len() > 1 ==> decimal_digits(v)[0] != 48,
        v < 10 ==> decimal_digits(v).len() == 1,
        10 <= v < 100 ==> decimal_digits(v).len() == 2,
        100 <= v < 1000 ==> decimal_digits(v).len() == 3,
    decreases v,
{
    if v >= 10 {
        lemma_decimal_digits(v / 10);
        let d = decimal_digits(v / 10);
        let s = decimal_digits(v);
        assert(s.drop_last() =~= d);
        assert(s[0] == d[0]);
        if d.len() == 1 {
            assert(d[0] != 48) by {
                assert(digits_value(d.drop_last()) == 0);
            }
        }
    } else {
        let s = decimal_digits(v);
        assert(digits_value(s.drop_last()) == 0);
    }
}

/// Digits written and read back give the number they were written from.
pub proof fn lemma_decimal_roundtrip(v: nat, max: nat)
    requires
        v <= max,
    ensures
        parse_number(decimal_digits(v), max) == Some(v),
        parse_digits(decimal_digits(v), max) == Some(v),
{
    lemma_decimal_digits(v);
}

/// Reads `s` as a run of decimal digits that spell out no more than `max`.
pub fn read_digits(s: &[u8], max: u32) -> (r: Option<u32>)
    ensures
        r == match parse_digits(s@, max as nat) {
            Some(v) => Some(v as u32),
            None => None,
        },
{
    if s.len() == 0 {
        return None;
    }
    let mut acc: u64 = 0;
    let mut i: usize = 0;
    while i < s.len()
        invariant
            i <= s@.len(),
            acc == digits_value(s@.take(i as int)),
            acc <= max,
            all_digits(s@.take(i as int)),
        decreases s@.len() - i,
    {
        let b = s[i];
        if b < 48 || b > 57 {
            assert(!is_digit(s@[i as int]));
            return None;
        }
        proof {
            assert(s@.take(i as int + 1).drop_last() =~= s@.take(i as int));
            assert(s@.take(i as int + 1).last() == b);
        }
        let next: u64 = acc * 10 + (b - 48) as u64;
        if next > max as u64 {
            proof {
                lemma_digits_value_grows(s@, i as int + 1);
            }
            return None;
        }
        acc = next;
        i = i + 1;
    }
    assert(s@.take(s@.len() as int) =~= s@);
    Some(acc as u32)
}

/// Reads `s` as an unsigned decimal number of no more than `max`.
pub fn read_number(s: &[u8], max: u32) -> (r: Option<u32>)
    ensures
        r == match parse_number(s@, max as nat) {
            Some(v) => Some(v as u32),
            None => None,
        },
{
    if s.len() > 0 && s[0] == 43 {
        let rest = slice_subrange(s, 1, s.len());
        assert(rest@ =~= s@.skip(1));
        read_digits(rest, max)
    } else {
        read_digits(s, max)
    }
}

/// Appends the decimal digits of `v` to `out`.
pub fn push_decimal(out: &mut Vec<u8>, v: u64)
    ensures
        final(out)@ == old(out)@ + decimal_digits(v as nat),
    decreases v,
{
    if v >= 10 {
        push_decimal(out, v / 10);
    }
    out.push(48 + (v % 10) as u8);
    proof {
        if v >= 10 {
            assert(final(out)@ =~= old(out)@ + decimal_digits(v as nat));
        } else {
            assert(final(out)@ =~= old(out)@ + decimal_digits(v as nat));
        }
    }
}

/// Appends `s` to `out`.
pub fn push_bytes(out: &mut Vec<u8>, s: &[u8])
    ensures
        final(out)@ == old(out)@ + s@,
{
    out.extend_from_slice(s);
}

/// Whether every byte of `s` is an ASCII character.
pub open spec fn is_ascii_text(s: Seq<u8>) -> bool {
    forall|i: int| 0 <= i < s.len() ==> #[trigger] s[i] < 128
}

/// The characters of a text of ASCII bytes.
pub open spec fn chars_of(s: Seq<u8>) -> Seq<char> {
    Seq::new(s.len(), |i: int| s[i] as char)
}

/// The text that `String::from_utf8_lossy` makes of bytes: the text that
/// the bytes encode in UTF-8, with the replacement character in the place
/// of what is not UTF-8.
pub uninterp spec fn lossy_text(bytes: Seq<u8>) -> Seq<char>;

/// `String::from_utf8_lossy`, as an owned string: the text of `bytes`.
/// ASCII bytes are their own characters.
#[verifier::external_body]
pub(crate) fn text_of(bytes: &[u8]) -> (s: String)
    ensures
        s@ == lossy_text(bytes@),
        is_ascii_text(bytes@) ==> s@ == chars_of(bytes@),
{
    String::from_utf8_lossy(bytes).into_owned()
}

/// The digits of a number are ASCII text.
pub proof fn lemma_digits_are_ascii(v: nat)
    ensures
        is_ascii_text(decimal_digits(v)),
{
    lemma_decimal_digits(v);
    assert forall|i: int| 0 <= i < decimal_digits(v).len() implies #[trigger] decimal_digits(v)[i]
        < 128 by {
        assert(is_digit(decimal_digits(v)[i]));
    }
}

} // verus!
