//! What announcing and reading a session description add up to.

use crate::net::{dotted, lemma_dotted_roundtrip, Ipv4Addr};
use crate::sap::{announced_stream, is_deletion, lemma_sap_roundtrip, sap_packet};
use crate::sdp::{
    assumed, connection_line, crlf, described, media_line, name_line, origin_line, ptime_line,
    refclk_line, rtpmap_line, sdp_text, three_digits, with_line, with_lines, StreamRecord,
};
use crate::text::{
    all_digits, ascii, decimal_digits, field, first_word, after_word, is_digit, is_space,
    is_token, lemma_decimal_digits, lemma_decimal_roundtrip, lemma_first_field_is,
    lemma_first_word_is, lemma_next_field, lemma_scan_is, lemma_trimmed_is,
    lemma_word_after_blank, nth_word, occurs_at, starts_with, Stop,
};
use vstd::prelude::*;
use vstd::string::*;

verus! {

/// Text that can stand on one line: no line feed in it, and something
/// other than white space at both ends.
pub open spec fn is_line(s: Seq<u8>) -> bool {
    &&& s.len() > 0
    &&& !is_space(s[0])
    &&& !is_space(s.last())
    &&& forall|i: int| 0 <= i < s.len() ==> #[trigger] s[i] != 10
}

/// A line and its line break are read as that line, and reading goes on
/// behind them.
pub proof fn lemma_line_step(acc: StreamRecord, line: Seq<u8>, rest: Seq<u8>)
    requires
        is_line(line),
    ensures
        with_lines(acc, line + crlf() + rest) == with_lines(with_line(acc, line), rest),
{
    let text = line + crlf() + rest;
    let n = line.len() as int + 1;
    assert forall|j: int| 0 <= j < n implies !Stop::Byte(10).hit(#[trigger] text[j]) by {
        if j < line.len() {
            assert(text[j] == line[j]);
        }
    }
    assert(text[n] == 10);
    lemma_scan_is(text, 0, Stop::Byte(10), n);
    assert(text.take(n) =~= line + seq![13u8]);
    lemma_trimmed_is(line, seq![13u8]);
    assert(text.skip(n + 1) =~= rest);
    if rest.len() == 0 {
        assert(with_lines(with_line(acc, line), rest) == with_line(acc, line));
    }
}

/// A text that differs from `prefix` within the length of `prefix` does
/// not start with it.
proof fn lemma_not_prefix(line: Seq<u8>, prefix: Seq<u8>, i: int)
    requires
        0 <= i < prefix.len(),
        i >= line.len() || line[i] != prefix[i],
    ensures
        !starts_with(line, prefix),
{
    if prefix.len() <= line.len() {
        assert(line.subrange(0, prefix.len() as int)[i] == line[i]);
    }
}

/// A text behind a prefix starts with it, and what is left when the prefix
/// is skipped is the text.
proof fn lemma_prefixed(prefix: Seq<u8>, rest: Seq<u8>)
    ensures
        starts_with(prefix + rest, prefix),
        (prefix + rest).skip(prefix.len() as int) == rest,
{
    assert((prefix + rest).subrange(0, prefix.len() as int) =~= prefix);
    assert((prefix + rest).skip(prefix.len() as int) =~= rest);
}

/// Behind a word and one blank the words count on from one.
proof fn lemma_word_step(w: Seq<u8>, rest: Seq<u8>, n: nat)
    requires
        w.len() > 0,
        is_token(w),
    ensures
        nth_word(w + seq![32u8] + rest, 0) == w,
        nth_word(w + seq![32u8] + rest, n + 1) == nth_word(rest, n),
{
    reveal_with_fuel(nth_word, 3);
    let s = w + seq![32u8] + rest;
    assert(s =~= w + (seq![32u8] + rest));
    lemma_first_word_is(w, seq![32u8] + rest);
    lemma_word_after_blank(rest);
    assert(nth_word(s, 1) == first_word(after_word(s)));
    if n > 0 {
        assert(nth_word(s, n + 1) == nth_word(after_word(s), n));
        assert(nth_word(after_word(s), n) == nth_word(after_word(after_word(s)), (n - 1) as nat));
        assert(nth_word(rest, n) == nth_word(after_word(rest), (n - 1) as nat));
    }
}

/// The digits of a number are a token without dot or slash.
proof fn lemma_digits_plain(v: nat)
    ensures
        decimal_digits(v).len() > 0,
        is_token(decimal_digits(v)),
        all_digits(decimal_digits(v)),
        forall|i: int|
            0 <= i < decimal_digits(v).len() ==> {
                &&& (#[trigger] decimal_digits(v)[i]) != 10
                &&& decimal_digits(v)[i] != 46
                &&& decimal_digits(v)[i] != 47
                &&& decimal_digits(v)[i] != 76
            },
{
    lemma_decimal_digits(v);
    let d = decimal_digits(v);
    assert forall|i: int| 0 <= i < d.len() implies !is_space(#[trigger] d[i]) by {
        assert(is_digit(d[i]));
    }
    assert forall|i: int| 0 <= i < d.len() implies {
        &&& (#[trigger] d[i]) != 10
        &&& d[i] != 46
        &&& d[i] != 47
        &&& d[i] != 76
    } by {
        assert(is_digit(d[i]));
    }
}

/// Lines that say nothing of the stream leave the record as it is.
pub proof fn lemma_silent_lines(acc: StreamRecord)
    ensures
        is_line(ascii("v=0"@)),
        is_line(ascii("t=0 0"@)),
        is_line(ascii("a=mediaclk:direct=0"@)),
        is_line(refclk_line()),
        with_line(acc, ascii("v=0"@)) == acc,
        with_line(acc, ascii("t=0 0"@)) == acc,
        with_line(acc, ascii("a=mediaclk:direct=0"@)) == acc,
        with_line(acc, refclk_line()) == acc,
{
    reveal_strlit("v=0");
    reveal_strlit("t=0 0");
    reveal_strlit("a=mediaclk:direct=0");
    reveal_strlit("a=ts-refclk:ptp=IEEE1588-2008:");
    reveal_strlit("00-00-00-00-00-00-00-00:0");
    reveal_strlit("s=");
    reveal_strlit("o=");
    reveal_strlit("c=");
    reveal_strlit("m=audio ");
    reveal_strlit("a=rtpmap:");
    reveal_strlit("a=ptime:");
    let v = ascii("v=0"@);
    let t = ascii("t=0 0"@);
    let k = ascii("a=mediaclk:direct=0"@);
    let c = refclk_line();
    lemma_not_prefix(v, ascii("s="@), 0);
    lemma_not_prefix(v, ascii("o="@), 0);
    lemma_not_prefix(v, ascii("c="@), 0);
    lemma_not_prefix(v, ascii("m=audio "@), 0);
    lemma_not_prefix(v, ascii("a=rtpmap:"@), 0);
    lemma_not_prefix(v, ascii("a=ptime:"@), 0);
    lemma_not_prefix(t, ascii("s="@), 0);
    lemma_not_prefix(t, ascii("o="@), 0);
    lemma_not_prefix(t, ascii("c="@), 0);
    lemma_not_prefix(t, ascii("m=audio "@), 0);
    lemma_not_prefix(t, ascii("a=rtpmap:"@), 0);
    lemma_not_prefix(t, ascii("a=ptime:"@), 0);
    lemma_not_prefix(k, ascii("s="@), 0);
    lemma_not_prefix(k, ascii("o="@), 0);
    lemma_not_prefix(k, ascii("c="@), 0);
    lemma_not_prefix(k, ascii("m=audio "@), 0);
    lemma_not_prefix(k, ascii("a=rtpmap:"@), 2);
    lemma_not_prefix(k, ascii("a=ptime:"@), 2);
    lemma_not_prefix(c, ascii("s="@), 0);
    lemma_not_prefix(c, ascii("o="@), 0);
    lemma_not_prefix(c, ascii("c="@), 0);
    lemma_not_prefix(c, ascii("m=audio "@), 0);
    lemma_not_prefix(c, ascii("a=rtpmap:"@), 2);
    lemma_not_prefix(c, ascii("a=ptime:"@), 2);
}

/// The name line gives the record its name.
pub proof fn lemma_name_line(acc: StreamRecord, r: StreamRecord)
    requires
        r.name.len() > 0,
        !is_space(r.name.last()),
        forall|i: int| 0 <= i < r.name.len() ==> #[trigger] r.name[i] != 10,
    ensures
        is_line(name_line(r)),
        with_line(acc, name_line(r)) == (StreamRecord { name: r.name, ..acc }),
{
    reveal_strlit("s=");
    let p = ascii("s="@);
    let line = name_line(r);
    lemma_prefixed(p, r.name);
    assert forall|i: int| 0 <= i < line.len() implies #[trigger] line[i] != 10 by {
        if i >= 2 {
            assert(line[i] == r.name[i - 2]);
        }
    }
    assert(line.last() == r.name.last());
}

/// The origin line gives the record its session and its origin.
pub proof fn lemma_origin_line(acc: StreamRecord, r: StreamRecord, version: u64)
    requires
        r.session_id.len() > 0,
        is_token(r.session_id),
        r.origin.len() > 0,
        is_token(r.origin),
    ensures
        is_line(origin_line(r, version)),
        with_line(acc, origin_line(r, version)) == (StreamRecord {
            session_id: seq![45u8, 95u8] + r.session_id,
            origin: r.origin,
            ..acc
        }),
{
    reveal_strlit("s=");
    reveal_strlit("o=");
    reveal_strlit("o=- ");
    reveal_strlit(" IN IP4 ");
    let line = origin_line(r, version);
    let sp = seq![32u8];
    let digits = decimal_digits(version as nat);
    lemma_digits_plain(version as nat);
    let w0 = seq![45u8];
    let w3 = seq![73u8, 78u8];
    let w4 = seq![73u8, 80u8, 52u8];
    let r4 = w4 + sp + r.origin;
    let r3 = w3 + sp + r4;
    let r2 = digits + sp + r3;
    let r1 = r.session_id + sp + r2;
    let rest = w0 + sp + r1;
    assert(line =~= ascii("o="@) + rest);
    lemma_prefixed(ascii("o="@), rest);
    lemma_not_prefix(line, ascii("s="@), 0);
    assert(is_token(w0));
    assert(is_token(w3));
    assert(is_token(w4));
    lemma_word_step(w0, r1, 0);
    lemma_word_step(w0, r1, 4);
    lemma_word_step(r.session_id, r2, 0);
    lemma_word_step(r.session_id, r2, 3);
    lemma_word_step(digits, r3, 2);
    lemma_word_step(w3, r4, 1);
    lemma_word_step(w4, r.origin, 0);
    lemma_first_word_is(r.origin, Seq::<u8>::empty());
    assert(r.origin + Seq::<u8>::empty() =~= r.origin);
    assert(nth_word(rest, 5) == r.origin);
    assert(nth_word(rest, 0) == w0);
    assert(nth_word(rest, 1) == r.session_id);
    assert(w0 + seq![95u8] + r.session_id =~= seq![45u8, 95u8] + r.session_id);
    assert forall|i: int| 0 <= i < line.len() implies #[trigger] line[i] != 10 by {
        let a = 4int;
        let b = a + r.session_id.len();
        let c = b + 1 + digits.len();
        let d = c + 8;
        if i < a {
        } else if i < b {
            assert(line[i] == r.session_id[i - a]);
        } else if i == b {
        } else if i < c {
            assert(line[i] == digits[i - b - 1]);
        } else if i < d {
            assert(line[i] == ascii(" IN IP4 "@)[i - c]);
        } else {
            assert(line[i] == r.origin[i - d]);
        }
    }
    assert(line.last() == r.origin.last());
}

/// The connection line gives the record its group address.
pub proof fn lemma_connection_line(acc: StreamRecord, r: StreamRecord)
    ensures
        is_line(connection_line(r)),
        with_line(acc, connection_line(r)) == (StreamRecord {
            multicast_addr: r.multicast_addr,
            ..acc
        }),
{
    reveal_strlit("s=");
    reveal_strlit("o=");
    reveal_strlit("c=");
    reveal_strlit("c=IN IP4 ");
    reveal_strlit("/64");
    let line = connection_line(r);
    let sp = seq![32u8];
    let quad = dotted(r.multicast_addr);
    lemma_dotted_roundtrip(r.multicast_addr);
    let w0 = seq![73u8, 78u8];
    let w1 = seq![73u8, 80u8, 52u8];
    let tail = ascii("/64"@);
    let word = quad + tail;
    let r1 = w1 + sp + word;
    let rest = w0 + sp + r1;
    assert(line =~= ascii("c="@) + rest);
    lemma_prefixed(ascii("c="@), rest);
    lemma_not_prefix(line, ascii("s="@), 0);
    lemma_not_prefix(line, ascii("o="@), 0);
    assert(is_token(w0));
    assert(is_token(w1));
    assert(is_token(word)) by {
        assert forall|i: int| 0 <= i < word.len() implies !is_space(#[trigger] word[i]) by {
            if i < quad.len() {
                assert(word[i] == quad[i]);
            } else {
                assert(word[i] == tail[i - quad.len()]);
            }
        }
    }
    lemma_word_step(w0, r1, 1);
    lemma_word_step(w1, word, 0);
    lemma_first_word_is(word, Seq::<u8>::empty());
    assert(word + Seq::<u8>::empty() =~= word);
    assert(nth_word(rest, 2) == word);
    lemma_first_field_is(quad, 47, tail);
    assert(word.take(quad.len() as int) =~= quad);
    assert forall|i: int| 0 <= i < line.len() implies #[trigger] line[i] != 10 by {
        if i < 9 {
        } else if i < 9 + quad.len() {
            assert(line[i] == quad[i - 9]);
            assert(!is_space(quad[i - 9]));
        } else {
            assert(line[i] == tail[i - 9 - quad.len()]);
        }
    }
    assert(line.last() == tail[2]);
}

/// The media line gives the record its port.
pub proof fn lemma_media_line(acc: StreamRecord, r: StreamRecord)
    ensures
        is_line(media_line(r)),
        with_line(acc, media_line(r)) == (StreamRecord { port: r.port, ..acc }),
{
    reveal_strlit("s=");
    reveal_strlit("o=");
    reveal_strlit("c=");
    reveal_strlit("m=audio ");
    reveal_strlit(" RTP/AVP 97");
    let line = media_line(r);
    let digits = decimal_digits(r.port as nat);
    let tail = ascii(" RTP/AVP 97"@);
    lemma_digits_plain(r.port as nat);
    lemma_decimal_roundtrip(r.port as nat, 65535);
    let rest = digits + tail;
    assert(line =~= ascii("m=audio "@) + rest);
    lemma_prefixed(ascii("m=audio "@), rest);
    lemma_not_prefix(line, ascii("s="@), 0);
    lemma_not_prefix(line, ascii("o="@), 0);
    lemma_not_prefix(line, ascii("c="@), 0);
    lemma_first_word_is(digits, tail);
    assert forall|i: int| 0 <= i < line.len() implies #[trigger] line[i] != 10 by {
        if i < 8 {
        } else if i < 8 + digits.len() {
            assert(line[i] == digits[i - 8]);
        } else {
            assert(line[i] == tail[i - 8 - digits.len()]);
        }
    }
    assert(line.last() == tail[10]);
}

/// The packet time line gives the record its packet time.
#[verifier::rlimit(40)]
pub proof fn lemma_ptime_line(acc: StreamRecord, r: StreamRecord)
    ensures
        is_line(ptime_line(r)),
        with_line(acc, ptime_line(r)) == (StreamRecord { ptime_us: r.ptime_us, ..acc }),
{
    reveal_strlit("s=");
    reveal_strlit("o=");
    reveal_strlit("c=");
    reveal_strlit("m=audio ");
    reveal_strlit("a=rtpmap:");
    reveal_strlit("a=ptime:");
    let line = ptime_line(r);
    let ms = r.ptime_us as nat / 1000;
    let part = r.ptime_us as nat % 1000;
    let digits = decimal_digits(ms);
    let frac = three_digits(part);
    lemma_digits_plain(ms);
    lemma_decimal_digits(ms);
    let rest = digits + seq![46u8] + frac;
    assert(line =~= ascii("a=ptime:"@) + rest);
    lemma_prefixed(ascii("a=ptime:"@), rest);
    lemma_not_prefix(line, ascii("s="@), 0);
    lemma_not_prefix(line, ascii("o="@), 0);
    lemma_not_prefix(line, ascii("c="@), 0);
    lemma_not_prefix(line, ascii("m=audio "@), 0);
    lemma_not_prefix(line, ascii("a=rtpmap:"@), 2);
    assert(rest =~= digits + (seq![46u8] + frac));
    lemma_first_field_is(digits, 46, seq![46u8] + frac);
    assert(rest.take(digits.len() as int) =~= digits);
    assert(rest.skip(digits.len() as int + 1) =~= frac);
    assert(all_digits(frac));
    assert(crate::sdp::thousandths(frac) == part);
    assert(ms * 1000 + part == r.ptime_us);
    assert(crate::sdp::parse_millis(rest) == Some(r.ptime_us as nat));
    assert forall|i: int| 0 <= i < line.len() implies #[trigger] line[i] != 10 by {
        if i < 8 {
        } else if i < 8 + digits.len() {
            assert(line[i] == digits[i - 8]);
        } else if i == 8 + digits.len() {
        } else {
            assert(line[i] == frac[i - 9 - digits.len()]);
        }
    }
    assert(line.last() == frac[2]);
}

/// The format line gives the record its sample rate, channel count and
/// sample width.
pub proof fn lemma_rtpmap_line(acc: StreamRecord, r: StreamRecord)
    requires
        r.bits_per_sample == 16 || r.bits_per_sample == 24,
    ensures
        is_line(rtpmap_line(r)),
        with_line(acc, rtpmap_line(r)) == (StreamRecord {
            sample_rate: r.sample_rate,
            channels: r.channels,
            bits_per_sample: r.bits_per_sample,
            ..acc
        }),
{
    reveal_strlit("s=");
    reveal_strlit("o=");
    reveal_strlit("c=");
    reveal_strlit("m=audio ");
    reveal_strlit("a=rtpmap:");
    reveal_strlit("a=rtpmap:97 L");
    reveal_strlit("L24/");
    reveal_strlit("L16/");
    reveal_strlit("L24");
    reveal_with_fuel(decimal_digits, 3);
    let line = rtpmap_line(r);
    let head = ascii("a=rtpmap:97 L"@);
    let bits = decimal_digits(r.bits_per_sample as nat);
    let rate = decimal_digits(r.sample_rate as nat);
    let ch = decimal_digits(r.channels as nat);
    let slash = seq![47u8];
    lemma_digits_plain(r.sample_rate as nat);
    lemma_digits_plain(r.channels as nat);
    lemma_decimal_roundtrip(r.sample_rate as nat, 0xffff_ffff);
    lemma_decimal_roundtrip(r.channels as nat, 255);
    assert(bits =~= if r.bits_per_sample == 24 { seq![50u8, 52u8] } else { seq![49u8, 54u8] });
    let w0 = head + bits;
    let rest1 = rate + slash + ch;
    assert(line =~= w0 + slash + rest1);
    assert(w0.len() == 15);
    assert forall|i: int| 0 <= i < w0.len() implies #[trigger] w0[i] != 47 by {
        if i < 13 {
            assert(w0[i] == head[i]);
        } else {
            assert(w0[i] == bits[i - 13]);
        }
    }
    // the fields between the slashes
    lemma_next_field(w0, 47, rest1, 1);
    lemma_next_field(w0, 47, rest1, 2);
    assert(rest1 =~= rate + (slash + ch));
    lemma_first_field_is(rate, 47, slash + ch);
    lemma_next_field(rate, 47, ch, 1);
    lemma_first_field_is(ch, 47, Seq::<u8>::empty());
    assert(ch + Seq::<u8>::empty() =~= ch);
    assert(field(line, 47, 1) == Some(rate));
    assert(field(line, 47, 2) == Some(ch));
    // what every byte of the line is
    assert forall|i: int| 15 <= i < line.len() implies (#[trigger] line[i] == 47 || is_digit(
        line[i],
    )) by {
        if i == 15 {
        } else if i < 16 + rate.len() {
            assert(line[i] == rate[i - 16]);
        } else if i == 16 + rate.len() {
        } else {
            assert(line[i] == ch[i - 17 - rate.len()]);
        }
    }
    assert forall|i: int| 0 <= i < 15 implies #[trigger] line[i] == w0[i] by {}
    assert forall|i: int| 0 <= i < line.len() implies #[trigger] line[i] != 10 by {
        if i < 15 {
            assert(line[i] == w0[i]);
            if i < 13 {
                assert(w0[i] == head[i]);
            } else {
                assert(w0[i] == bits[i - 13]);
            }
        } else {
            assert(line[i] == 47 || is_digit(line[i]));
        }
    }
    assert(line.last() == ch.last());
    assert(is_digit(ch.last()));
    // the prefix tests
    lemma_not_prefix(line, ascii("s="@), 0);
    lemma_not_prefix(line, ascii("o="@), 0);
    lemma_not_prefix(line, ascii("c="@), 0);
    lemma_not_prefix(line, ascii("m=audio "@), 0);
    assert(line.subrange(0, 9) =~= ascii("a=rtpmap:"@)) by {
        assert forall|i: int| 0 <= i < 9 implies line.subrange(0, 9)[i] == ascii("a=rtpmap:"@)[i] by {
            assert(line[i] == w0[i]);
            assert(w0[i] == head[i]);
        }
    }
    assert(starts_with(line, ascii("a=rtpmap:"@)));
    // the sample width
    assert(line[12] == 76 && line[13] == bits[0] && line[14] == bits[1] && line[15] == 47) by {
        assert(line[12] == w0[12] && w0[12] == head[12]);
        assert(line[13] == w0[13] && w0[13] == bits[0]);
        assert(line[14] == w0[14] && w0[14] == bits[1]);
    }
    if r.bits_per_sample == 24 {
        assert(line.subrange(12, 16) =~= ascii("L24/"@));
        assert(occurs_at(line, ascii("L24/"@), 12));
        assert(line.subrange(12, 15) =~= ascii("L24"@));
        assert(occurs_at(line, ascii("L24"@), 12));
    } else {
        assert(line.subrange(12, 16) =~= ascii("L16/"@));
        assert(occurs_at(line, ascii("L16/"@), 12));
        assert forall|i: int| !occurs_at(line, ascii("L24"@), i) by {
            if 0 <= i && i + 3 <= line.len() {
                let part = line.subrange(i, i + 3);
                assert(part[0] == line[i]);
                assert(part[1] == line[i + 1]);
                if i < 12 {
                    assert(line[i] == w0[i] && w0[i] == head[i]);
                } else if i == 12 {
                } else if i < 15 {
                    assert(line[i] == w0[i] && w0[i] == bits[i - 13]);
                } else {
                    assert(line[i] == 47 || is_digit(line[i]));
                }
                assert(part != ascii("L24"@));
            }
        }
    }
}

impl StreamRecord {
    /// A record that a description can carry: the name is one line of
    /// text that does not end in white space, session and origin are
    /// single words, and the samples are 16 or 24 bits wide.
    pub open spec fn is_announceable(self) -> bool {
        &&& self.name.len() > 0
        &&& !is_space(self.name.last())
        &&& forall|i: int| 0 <= i < self.name.len() ==> #[trigger] self.name[i] != 10
        &&& self.session_id.len() > 0
        &&& is_token(self.session_id)
        &&& self.origin.len() > 0
        &&& is_token(self.origin)
        &&& (self.bits_per_sample == 16 || self.bits_per_sample == 24)
    }
}

/// What a reader makes of the announcement of `r`: the record itself but
/// for the session identifier, which gains the user name `-` in front,
/// the direction, which a reader takes to be `Send`, and the description
/// it was read from.
pub open spec fn read_back(r: StreamRecord, version: u64) -> StreamRecord {
    StreamRecord {
        session_id: seq![45u8, 95u8] + r.session_id,
        direction: crate::sdp::StreamDirection::Send,
        sdp: sdp_text(r, version),
        ..r
    }
}

/// The lines of the description of `r`, each with what follows it.
pub open spec fn lines_text(r: StreamRecord, version: u64) -> Seq<u8> {
    ascii("v=0"@) + crlf() + (origin_line(r, version) + crlf() + (name_line(r) + crlf() + (
    connection_line(r) + crlf() + (ascii("t=0 0"@) + crlf() + (media_line(r) + crlf() + (
    rtpmap_line(r) + crlf() + (ptime_line(r) + crlf() + (refclk_line() + crlf() + (ascii(
        "a=mediaclk:direct=0"@,
    ) + crlf() + Seq::<u8>::empty())))))))))
}

/// Joining three texts gives the same text however they are bracketed.
proof fn lemma_regroup(p: Seq<u8>, l: Seq<u8>, t: Seq<u8>)
    ensures
        (p + l) + t == p + (l + t),
{
    assert((p + l) + t =~= p + (l + t));
}

/// The description is its lines one after the other.
pub proof fn lemma_text_is_lines(r: StreamRecord, version: u64)
    ensures
        sdp_text(r, version) == lines_text(r, version),
{
    let l0 = ascii("v=0"@) + crlf();
    let l1 = origin_line(r, version) + crlf();
    let l2 = name_line(r) + crlf();
    let l3 = connection_line(r) + crlf();
    let l4 = ascii("t=0 0"@) + crlf();
    let l5 = media_line(r) + crlf();
    let l6 = rtpmap_line(r) + crlf();
    let l7 = ptime_line(r) + crlf();
    let l8 = refclk_line() + crlf();
    let l9 = ascii("a=mediaclk:direct=0"@) + crlf();
    let end = Seq::<u8>::empty();
    let t9 = l9 + end;
    let t8 = l8 + t9;
    let t7 = l7 + t8;
    let t6 = l6 + t7;
    let t5 = l5 + t6;
    let t4 = l4 + t5;
    let t3 = l3 + t4;
    let t2 = l2 + t3;
    let t1 = l1 + t2;
    let t0 = l0 + t1;
    let p0 = Seq::<u8>::empty();
    let p1 = p0 + l0;
    let p2 = p1 + l1;
    let p3 = p2 + l2;
    let p4 = p3 + l3;
    let p5 = p4 + l4;
    let p6 = p5 + l5;
    let p7 = p6 + l6;
    let p8 = p7 + l7;
    let p9 = p8 + l8;
    let p10 = p9 + l9;
    lemma_regroup(p9, l9, end);
    lemma_regroup(p8, l8, t9);
    lemma_regroup(p7, l7, t8);
    lemma_regroup(p6, l6, t7);
    lemma_regroup(p5, l5, t6);
    lemma_regroup(p4, l4, t5);
    lemma_regroup(p3, l3, t4);
    lemma_regroup(p2, l2, t3);
    lemma_regroup(p1, l1, t2);
    lemma_regroup(p0, l0, t1);
    assert(p10 + end == p0 + t0);
    assert(p10 + end =~= p10);
    assert(p0 + t0 =~= t0);
    assert(p10 == sdp_text(r, version));
    assert(t0 == lines_text(r, version));
}

/// What the lines of the announcement of `r` add up to for a reader that
/// starts from nothing but a default origin.
pub open spec fn read_fields(r: StreamRecord, default_origin: Seq<u8>) -> StreamRecord {
    StreamRecord {
        name: r.name,
        session_id: seq![45u8, 95u8] + r.session_id,
        origin: r.origin,
        multicast_addr: r.multicast_addr,
        port: r.port,
        channels: r.channels,
        sample_rate: r.sample_rate,
        bits_per_sample: r.bits_per_sample,
        ptime_us: r.ptime_us,
        ..assumed(default_origin)
    }
}

/// Reading the lines of an announcement one by one gives the fields of
/// the stream that was announced.
pub proof fn lemma_lines_read(r: StreamRecord, version: u64, default_origin: Seq<u8>)
    requires
        r.is_announceable(),
    ensures
        with_lines(assumed(default_origin), lines_text(r, version)) == read_fields(
            r,
            default_origin,
        ),
{
    let a0 = assumed(default_origin);
    let a1 = StreamRecord {
        session_id: seq![45u8, 95u8] + r.session_id,
        origin: r.origin,
        ..a0
    };
    let a2 = StreamRecord { name: r.name, ..a1 };
    let a3 = StreamRecord { multicast_addr: r.multicast_addr, ..a2 };
    let a4 = StreamRecord { port: r.port, ..a3 };
    let a5 = StreamRecord {
        sample_rate: r.sample_rate,
        channels: r.channels,
        bits_per_sample: r.bits_per_sample,
        ..a4
    };
    let a6 = StreamRecord { ptime_us: r.ptime_us, ..a5 };
    let end = Seq::<u8>::empty();
    let t9 = ascii("a=mediaclk:direct=0"@) + crlf() + end;
    let t8 = refclk_line() + crlf() + t9;
    let t7 = ptime_line(r) + crlf() + t8;
    let t6 = rtpmap_line(r) + crlf() + t7;
    let t5 = media_line(r) + crlf() + t6;
    let t4 = ascii("t=0 0"@) + crlf() + t5;
    let t3 = connection_line(r) + crlf() + t4;
    let t2 = name_line(r) + crlf() + t3;
    let t1 = origin_line(r, version) + crlf() + t2;
    let t0 = ascii("v=0"@) + crlf() + t1;
    assert(t0 == lines_text(r, version));
    assert(with_lines(a0, t0) == with_lines(a0, t1)) by {
        lemma_silent_lines(a0);
        lemma_line_step(a0, ascii("v=0"@), t1);
    }
    assert(with_lines(a0, t1) == with_lines(a1, t2)) by {
        lemma_origin_line(a0, r, version);
        lemma_line_step(a0, origin_line(r, version), t2);
    }
    assert(with_lines(a1, t2) == with_lines(a2, t3)) by {
        lemma_name_line(a1, r);
        lemma_line_step(a1, name_line(r), t3);
    }
    assert(with_lines(a2, t3) == with_lines(a3, t4)) by {
        lemma_connection_line(a2, r);
        lemma_line_step(a2, connection_line(r), t4);
    }
    assert(with_lines(a3, t4) == with_lines(a3, t5)) by {
        lemma_silent_lines(a3);
        lemma_line_step(a3, ascii("t=0 0"@), t5);
    }
    assert(with_lines(a3, t5) == with_lines(a4, t6)) by {
        lemma_media_line(a3, r);
        lemma_line_step(a3, media_line(r), t6);
    }
    assert(with_lines(a4, t6) == with_lines(a5, t7)) by {
        lemma_rtpmap_line(a4, r);
        lemma_line_step(a4, rtpmap_line(r), t7);
    }
    assert(with_lines(a5, t7) == with_lines(a6, t8)) by {
        lemma_ptime_line(a5, r);
        lemma_line_step(a5, ptime_line(r), t8);
    }
    assert(with_lines(a6, t8) == with_lines(a6, t9)) by {
        lemma_silent_lines(a6);
        lemma_line_step(a6, refclk_line(), t9);
    }
    assert(with_lines(a6, t9) == with_lines(a6, end)) by {
        lemma_silent_lines(a6);
        lemma_line_step(a6, ascii("a=mediaclk:direct=0"@), end);
    }
    assert(with_lines(a6, end) == a6);
    assert(a6 == read_fields(r, default_origin));
}

/// A stream that is announced and read back keeps its name, its channel
/// count, sample rate and sample width, its port and its group address,
/// and its origin and packet time as well.
pub proof fn lemma_sdp_roundtrip(r: StreamRecord, version: u64, default_origin: Seq<u8>)
    requires
        r.is_announceable(),
    ensures
        described(sdp_text(r, version), default_origin) == Some(read_back(r, version)),
        read_back(r, version).name == r.name,
        read_back(r, version).channels == r.channels,
        read_back(r, version).sample_rate == r.sample_rate,
        read_back(r, version).bits_per_sample == r.bits_per_sample,
        read_back(r, version).port == r.port,
        read_back(r, version).multicast_addr == r.multicast_addr,
{
    lemma_text_is_lines(r, version);
    lemma_lines_read(r, version, default_origin);
    let f = read_fields(r, default_origin);
    assert(f.session_id.len() > 0);
    assert(f.name.len() > 0);
}

/// The announcement of a stream, as this library sends it, is read by
/// this library as that stream, whoever it comes from, and a packet that
/// is built to withdraw is read as a withdrawal.
pub proof fn lemma_announcement_is_read(
    r: StreamRecord,
    version: u64,
    deletion: bool,
    source: Ipv4Addr,
)
    requires
        r.is_announceable(),
    ensures
        announced_stream(sap_packet(r.session_id, sdp_text(r, version), deletion), source) == Some(
            read_back(r, version),
        ),
        is_deletion(sap_packet(r.session_id, sdp_text(r, version), deletion)) == deletion,
{
    let text = sdp_text(r, version);
    assert(text.len() > 0) by {
        lemma_text_is_lines(r, version);
        assert(crlf().len() == 2);
    }
    lemma_sap_roundtrip(r.session_id, text, deletion);
    lemma_sdp_roundtrip(r, version, dotted(source));
}

} // verus!
