//! Base64 text of stored binary values.
use vstd::prelude::*;

verus! {

/// The Base64 digit for a value below 64: `A`-`Z`, `a`-`z`, `0`-`9`, then
/// `+` and `/`, or `-` and `_` in the URL-safe alphabet.
pub open spec fn base64_digit(d: int, url: bool) -> char {
    if d < 26 {
        ((d + 65) as u8) as char
    } else if d < 52 {
        ((d + 71) as u8) as char
    } else if d < 62 {
        ((d - 4) as u8) as char
    } else if d == 62 {
        if url {
            '-'
        } else {
            '+'
        }
    } else {
        if url {
            '_'
        } else {
            '/'
        }
    }
}

/// Base64 text: every three bytes give four digits of six bits each; a
/// last group of one or two bytes gives two or three digits (the unused
/// low bits zero), padded with `=` to four when `pad` is set.
pub open spec fn base64_text(bytes: Seq<u8>, url: bool, pad: bool) -> Seq<char>
    decreases bytes.len(),
{
    if bytes.len() == 0 {
        Seq::empty()
    } else if bytes.len() == 1 {
        seq![
            base64_digit((bytes[0] as int) / 4, url),
            base64_digit(((bytes[0] as int) % 4) * 16, url),
        ] + if pad {
            seq!['=', '=']
        } else {
            Seq::empty()
        }
    } else if bytes.len() == 2 {
        seq![
            base64_digit((bytes[0] as int) / 4, url),
            base64_digit(((bytes[0] as int) % 4) * 16 + (bytes[1] as int) / 16, url),
            base64_digit(((bytes[1] as int) % 16) * 4, url),
        ] + if pad {
            seq!['=']
        } else {
            Seq::empty()
        }
    } else {
        seq![
            base64_digit((bytes[0] as int) / 4, url),
            base64_digit(((bytes[0] as int) % 4) * 16 + (bytes[1] as int) / 16, url),
            base64_digit(((bytes[1] as int) % 16) * 4 + (bytes[2] as int) / 64, url),
            base64_digit((bytes[2] as int) % 64, url),
        ] + base64_text(bytes.skip(3), url, pad)
    }
}

/// The text that `base64`'s standard engine (padded, canonical) produces
/// for the given bytes.
pub open spec fn base64_standard(bytes: Seq<u8>) -> Seq<char> {
    base64_text(bytes, false, true)
}

/// Calls `Engine::encode` of `base64::engine::general_purpose::STANDARD`.
/// Its buffer size, four characters per three bytes rounded up, must fit in
/// `usize`, or the crate panics.
#[verifier::external_body]
pub(crate) fn base64_encode(bytes: &[u8]) -> (text: String)
    requires
        4 * ((bytes@.len() + 2) / 3) <= usize::MAX,
    ensures
        text@ == base64_standard(bytes@),
{
    base64::Engine::encode(&base64::engine::general_purpose::STANDARD, bytes)
}

/// Calls `Engine::decode` of `base64::engine::general_purpose::STANDARD`.
/// That engine requires canonical padding and no trailing bits, so it
/// accepts exactly the texts its encoder produces, and gives back bytes
/// they encode (only one sequence of bytes does: see
/// `lemma_base64_standard_injective`).
#[verifier::external_body]
pub(crate) fn base64_decode(text: &str) -> (bytes: Option<Vec<u8>>)
    ensures
        bytes matches Some(v) ==> base64_standard(v@) == text@,
        bytes is None ==> forall|c: Seq<u8>| base64_standard(c) != text@,
{
    base64::Engine::decode(&base64::engine::general_purpose::STANDARD, text).ok()
}


/// The text that `base64`'s URL-safe engine without padding produces for
/// the given bytes.
pub open spec fn base64_url_no_pad(bytes: Seq<u8>) -> Seq<char> {
    base64_text(bytes, true, false)
}

/// Calls `Engine::encode` of `base64::engine::general_purpose::URL_SAFE_NO_PAD`.
/// Its buffer size must fit in `usize`, or the crate panics.
#[verifier::external_body]
pub(crate) fn base64_url_encode(bytes: &[u8]) -> (text: String)
    requires
        4 * ((bytes@.len() + 2) / 3) <= usize::MAX,
    ensures
        text@ == base64_url_no_pad(bytes@),
{
    base64::Engine::encode(&base64::engine::general_purpose::URL_SAFE_NO_PAD, bytes)
}

/// A digit's value, for values below 64, and the digit is no padding.
proof fn lemma_digit_injective(d: int, e: int, url: bool)
    requires
        0 <= d < 64,
        0 <= e < 64,
    ensures
        base64_digit(d, url) == base64_digit(e, url) ==> d == e,
        base64_digit(d, url) != '=',
{
}

/// A URL-safe digit is an ASCII letter, a digit, `-` or `_`.
proof fn lemma_url_digit(d: int)
    requires
        0 <= d < 64,
    ensures
        crate::text::is_ascii_alnum(base64_digit(d, true)) || base64_digit(d, true) == '-'
            || base64_digit(d, true) == '_',
{
}

/// Without padding, `n` bytes give `(4n + 2) / 3` characters, each an ASCII
/// letter, digit, `-` or `_`.
pub proof fn lemma_url_text_shape(bytes: Seq<u8>)
    ensures
        base64_url_no_pad(bytes).len() == (4 * bytes.len() + 2) / 3,
        forall|i: int|
            0 <= i < base64_url_no_pad(bytes).len() ==> crate::text::is_ascii_alnum(
                #[trigger] base64_url_no_pad(bytes)[i],
            ) || base64_url_no_pad(bytes)[i] == '-' || base64_url_no_pad(bytes)[i] == '_',
    decreases bytes.len(),
{
    let t = base64_url_no_pad(bytes);
    if bytes.len() == 1 {
        lemma_url_digit((bytes[0] as int) / 4);
        lemma_url_digit(((bytes[0] as int) % 4) * 16);
        assert forall|i: int| 0 <= i < t.len() implies crate::text::is_ascii_alnum(#[trigger] t[i])
            || t[i] == '-' || t[i] == '_' by {}
    } else if bytes.len() == 2 {
        lemma_url_digit((bytes[0] as int) / 4);
        lemma_url_digit(((bytes[0] as int) % 4) * 16 + (bytes[1] as int) / 16);
        lemma_url_digit(((bytes[1] as int) % 16) * 4);
        assert forall|i: int| 0 <= i < t.len() implies crate::text::is_ascii_alnum(#[trigger] t[i])
            || t[i] == '-' || t[i] == '_' by {}
    } else if bytes.len() >= 3 {
        let rest = bytes.skip(3);
        lemma_url_text_shape(rest);
        lemma_url_digit((bytes[0] as int) / 4);
        lemma_url_digit(((bytes[0] as int) % 4) * 16 + (bytes[1] as int) / 16);
        lemma_url_digit(((bytes[1] as int) % 16) * 4 + (bytes[2] as int) / 64);
        lemma_url_digit((bytes[2] as int) % 64);
        let head = seq![
            base64_digit((bytes[0] as int) / 4, true),
            base64_digit(((bytes[0] as int) % 4) * 16 + (bytes[1] as int) / 16, true),
            base64_digit(((bytes[1] as int) % 16) * 4 + (bytes[2] as int) / 64, true),
            base64_digit((bytes[2] as int) % 64, true),
        ];
        assert(t == head + base64_url_no_pad(rest));
        assert forall|i: int| 0 <= i < t.len() implies crate::text::is_ascii_alnum(#[trigger] t[i])
            || t[i] == '-' || t[i] == '_' by {
            if i >= 4 {
                assert(t[i] == base64_url_no_pad(rest)[i - 4]);
            }
        }
    }
}

/// Different bytes have different standard Base64 texts.
#[verifier::spinoff_prover]
#[verifier::rlimit(40)]
pub proof fn lemma_base64_standard_injective(a: Seq<u8>, b: Seq<u8>)
    requires
        base64_standard(a) == base64_standard(b),
    ensures
        a == b,
    decreases a.len(),
{
    let ta = base64_standard(a);
    let tb = base64_standard(b);
    if a.len() == 0 || b.len() == 0 {
        if a.len() != 0 {
            assert(ta.len() > 0);
        }
        if b.len() != 0 {
            assert(tb.len() > 0);
        }
        assert(a =~= b);
        return;
    }
    // The first two digits carry the first byte and the top of the second.
    assert(ta.len() >= 4 && tb.len() >= 4);
    assert(ta[0] == base64_digit((a[0] as int) / 4, false));
    assert(tb[0] == base64_digit((b[0] as int) / 4, false));
    lemma_digit_injective((a[0] as int) / 4, (b[0] as int) / 4, false);
    assert(ta[0] == tb[0]);
    let a1: int = if a.len() >= 2 { (a[1] as int) / 16 } else { 0 };
    let b1: int = if b.len() >= 2 { (b[1] as int) / 16 } else { 0 };
    lemma_digit_injective(((a[0] as int) % 4) * 16 + a1, ((b[0] as int) % 4) * 16 + b1, false);
    assert(ta[1] == tb[1]);
    assert((a[0] as int) / 4 == (b[0] as int) / 4);
    assert(((a[0] as int) % 4) * 16 + a1 == ((b[0] as int) % 4) * 16 + b1);
    assert((a[0] as int) % 4 == (b[0] as int) % 4 && a1 == b1);
    assert(a[0] as int == b[0] as int);
    if a.len() == 1 || b.len() == 1 {
        if a.len() >= 2 {
            let a2: int = if a.len() >= 3 { (a[2] as int) / 64 } else { 0 };
            lemma_digit_injective(((a[1] as int) % 16) * 4 + a2, 0, false);
            assert(ta[2] != '=');
            assert(tb[2] == '=');
        }
        if b.len() >= 2 {
            let b2: int = if b.len() >= 3 { (b[2] as int) / 64 } else { 0 };
            lemma_digit_injective(((b[1] as int) % 16) * 4 + b2, 0, false);
            assert(tb[2] != '=');
            assert(ta[2] == '=');
        }
        assert(a =~= b);
        return;
    }
    let a2: int = if a.len() >= 3 { (a[2] as int) / 64 } else { 0 };
    let b2: int = if b.len() >= 3 { (b[2] as int) / 64 } else { 0 };
    lemma_digit_injective(((a[1] as int) % 16) * 4 + a2, ((b[1] as int) % 16) * 4 + b2, false);
    assert(ta[2] == tb[2]);
    assert((a[1] as int) % 16 == (b[1] as int) % 16 && a2 == b2);
    assert(a[1] == b[1]);
    if a.len() == 2 || b.len() == 2 {
        if a.len() >= 3 {
            lemma_digit_injective((a[2] as int) % 64, 0, false);
            assert(ta[3] != '=');
            assert(tb[3] == '=');
        }
        if b.len() >= 3 {
            lemma_digit_injective((b[2] as int) % 64, 0, false);
            assert(tb[3] != '=');
            assert(ta[3] == '=');
        }
        assert(a =~= b);
        return;
    }
    lemma_digit_injective((a[2] as int) % 64, (b[2] as int) % 64, false);
    assert(ta[3] == tb[3]);
    assert(a[2] == b[2]);
    assert(ta.skip(4) == base64_standard(a.skip(3)));
    assert(tb.skip(4) == base64_standard(b.skip(3)));
    lemma_base64_standard_injective(a.skip(3), b.skip(3));
    assert(a =~= seq![a[0], a[1], a[2]] + a.skip(3));
    assert(b =~= seq![b[0], b[1], b[2]] + b.skip(3));
}

} // verus!
