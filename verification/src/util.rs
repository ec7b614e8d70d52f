//! Helpers shared by the commands: percent-encoding of paths, time stamps,
//! temporary file names and the Base64 data carried between the pages.

use vstd::prelude::*;
use crate::text::{
    lemma_dec_then_separator,
    hex_value, lemma_hex2_value, after_first, chars_after_first, chars_of, dec, hex2, is_space, push_dec, push_hex2, push_str,
    string_from_chars, trim, trim_chars, lemma_after_first_prefix, lemma_trim_without_space,
};
use std::time::{Duration, SystemTime, SystemTimeError, UNIX_EPOCH};
use vstd::utf8::encode_utf8;

verus! {

/// Bytes that `urlencode` copies unchanged: ASCII letters, digits and `-_.~/`.
pub open spec fn is_path_safe(b: u8) -> bool {
    ||| 0x41 <= b <= 0x5a
    ||| 0x61 <= b <= 0x7a
    ||| 0x30 <= b <= 0x39
    ||| b == 0x2d
    ||| b == 0x5f
    ||| b == 0x2e
    ||| b == 0x7e
    ||| b == 0x2f
}

/// How `urlencode` writes one byte.
pub open spec fn path_byte_enc(b: u8) -> Seq<char> {
    if is_path_safe(b) {
        seq![b as char]
    } else {
        seq!['%'] + hex2(b)
    }
}

/// `urlencode` of a byte sequence.
pub open spec fn path_enc(bs: Seq<u8>) -> Seq<char>
    decreases bs.len(),
{
    if bs.len() == 0 {
        Seq::empty()
    } else {
        path_enc(bs.drop_last()) + path_byte_enc(bs.last())
    }
}

/// Percent-decoding, read from the end: a `%` two places before the end
/// starts an escaped byte, any other character stands for itself.
pub open spec fn path_dec(cs: Seq<char>) -> Seq<u8>
    decreases cs.len(),
{
    if cs.len() == 0 {
        Seq::empty()
    } else if cs.len() >= 3 && cs[cs.len() - 3] == '%' {
        path_dec(cs.subrange(0, cs.len() - 3)).push(
            (hex_value(cs[cs.len() - 2]) * 16 + hex_value(cs[cs.len() - 1])) as u8,
        )
    } else {
        path_dec(cs.drop_last()).push(cs.last() as u8)
    }
}

/// An encoding never ends inside an escape: neither of its last two
/// characters is a `%`.
proof fn lemma_path_enc_tail(bs: Seq<u8>)
    ensures
        path_enc(bs).len() >= 1 ==> path_enc(bs).last() != '%',
        path_enc(bs).len() >= 2 ==> path_enc(bs)[path_enc(bs).len() - 2] != '%',
    decreases bs.len(),
{
    if bs.len() > 0 {
        lemma_path_enc_tail(bs.drop_last());
        lemma_hex2_value(bs.last());
        let p = path_enc(bs.drop_last());
        let e = path_byte_enc(bs.last());
        let cs = p + e;
        assert(cs == path_enc(bs));
        if is_path_safe(bs.last()) {
            assert(cs.last() == bs.last() as char);
            if cs.len() >= 2 {
                assert(cs[cs.len() - 2] == p.last());
            }
        } else {
            assert(cs.last() == hex2(bs.last())[1]);
            assert(cs[cs.len() - 2] == hex2(bs.last())[0]);
        }
    }
}

/// Percent-decoding the output of `urlencode` gives back the bytes: the
/// encoding loses nothing.
pub proof fn lemma_urlencode_reversible(bs: Seq<u8>)
    ensures
        path_dec(path_enc(bs)) == bs,
    decreases bs.len(),
{
    if bs.len() > 0 {
        let init = bs.drop_last();
        let b = bs.last();
        lemma_urlencode_reversible(init);
        lemma_path_enc_tail(init);
        lemma_hex2_value(b);
        let p = path_enc(init);
        let cs = path_enc(bs);
        assert(cs == p + path_byte_enc(b));
        if is_path_safe(b) {
            assert(cs.drop_last() =~= p);
            assert(cs.last() == b as char);
            if cs.len() >= 3 {
                assert(cs[cs.len() - 3] == p[p.len() - 2]);
            }
            assert((b as char) as u8 == b);
        } else {
            assert(cs[cs.len() - 3] == '%');
            assert(cs.subrange(0, cs.len() - 3) =~= p);
            assert(cs[cs.len() - 2] == hex2(b)[0]);
            assert(cs[cs.len() - 1] == hex2(b)[1]);
        }
        assert(bs =~= init.push(b));
    }
}

/// The characters `urlencode` writes: ASCII letters, digits and `-_.~/%`.
pub open spec fn is_url_char(c: char) -> bool {
    ||| 'A' <= c <= 'Z'
    ||| 'a' <= c <= 'z'
    ||| '0' <= c <= '9'
    ||| c == '-'
    ||| c == '_'
    ||| c == '.'
    ||| c == '~'
    ||| c == '/'
    ||| c == '%'
}

/// Whatever a path holds (spaces, Chinese, any byte), its encoding is made
/// of URL characters only.
pub proof fn lemma_urlencode_url_safe(bs: Seq<u8>)
    ensures
        forall|i: int| 0 <= i < path_enc(bs).len() ==> is_url_char(#[trigger] path_enc(bs)[i]),
    decreases bs.len(),
{
    if bs.len() > 0 {
        lemma_urlencode_url_safe(bs.drop_last());
        let p = path_enc(bs.drop_last());
        let e = path_byte_enc(bs.last());
        assert(path_enc(bs) == p + e);
        lemma_hex2_value(bs.last());
        let b = bs.last();
        let hi = (b / 16) as nat;
        let lo = (b % 16) as nat;
        assert(is_url_char(crate::text::hex_digit(hi)));
        assert(is_url_char(crate::text::hex_digit(lo)));
        assert forall|i: int| 0 <= i < path_enc(bs).len() implies is_url_char(
            #[trigger] path_enc(bs)[i],
        ) by {
            if i < p.len() {
                assert(path_enc(bs)[i] == p[i]);
            } else {
                assert(path_enc(bs)[i] == e[i - p.len()]);
            }
        }
    }
}

/// Percent-encodes the UTF-8 bytes of `s` for a URL query parameter, keeping
/// letters, digits and `-_.~/` and writing every other byte as `%XX`.
pub fn urlencode(s: &str) -> (out: String)
    ensures
        out@ == path_enc(encode_utf8(s@)),
{
    let bytes = s.as_bytes();
    let mut out = String::new();
    let mut i: usize = 0;
    assert(bytes@.take(0) =~= Seq::<u8>::empty());
    while i < bytes.len()
        invariant
            i <= bytes.len(),
            bytes@ == encode_utf8(s@),
            out@ == path_enc(bytes@.take(i as int)),
        decreases bytes.len() - i,
    {
        let b = bytes[i];
        if (0x41 <= b && b <= 0x5a) || (0x61 <= b && b <= 0x7a) || (0x30 <= b && b <= 0x39) || b
            == 0x2d || b == 0x5f || b == 0x2e || b == 0x7e || b == 0x2f {
            out.push(b as char);
        } else {
            out.push('%');
            push_hex2(&mut out, b);
        }
        assert(bytes@.take(i + 1).drop_last() =~= bytes@.take(i as int));
        i = i + 1;
        assert(out@ =~= path_enc(bytes@.take(i as int)));
    }
    assert(bytes@.take(bytes.len() as int) =~= bytes@);
    out
}


#[verifier::external_type_specification]
#[verifier::external_body]
pub struct ExSystemTime(SystemTime);

#[verifier::external_type_specification]
#[verifier::external_body]
pub struct ExSystemTimeError(SystemTimeError);

/// Calls `SystemTime::now`. The clock is read; nothing is stated of the value.
#[verifier::external_body]
fn system_now() -> SystemTime {
    SystemTime::now()
}

/// Calls `SystemTime::duration_since` with `UNIX_EPOCH`: the time elapsed
/// since the epoch, or an error for a time before it. Nothing is stated of
/// the value, which rests on the clock.
#[verifier::external_body]
fn since_unix_epoch(t: &SystemTime) -> Result<Duration, SystemTimeError> {
    t.duration_since(UNIX_EPOCH)
}

/// Calls `Duration::as_millis`: the whole milliseconds of a duration. The
/// duration is opaque here, so nothing is stated of the number.
#[verifier::external_body]
fn duration_millis(d: &Duration) -> u128 {
    d.as_millis()
}

/// Milliseconds since the Unix epoch, or 0 when the clock is set before it.
/// The value rests on the clock, so the contract says nothing of it.
pub fn stamp() -> u128 {
    let now = system_now();
    match since_unix_epoch(&now) {
        Ok(d) => duration_millis(&d),
        Err(_) => 0,
    }
}

/// Fills four bytes from the operating system's generator (`OsRng` through
/// `RngCore::try_fill_bytes`, which reports a failure of the entropy source
/// instead of panicking) and reads them with `u32::from_le_bytes`. Any
/// number may come back, or `None` when the system gives no entropy.
#[verifier::external_body]
fn os_random_u32() -> Option<u32> {
    let mut b = [0u8; 4];
    match rand::RngCore::try_fill_bytes(&mut rand::rngs::OsRng, &mut b) {
        Ok(()) => Some(u32::from_le_bytes(b)),
        Err(_) => None,
    }
}

/// The name of a temporary file: `shotly-{pid}-{stamp}-{random}.{ext}`.
pub open spec fn temp_file_name_spec(pid: u32, stamp: u128, r: u32, ext: Seq<char>) -> Seq<char> {
    "shotly-"@ + dec(pid as nat) + "-"@ + dec(stamp as nat) + "-"@ + dec(r as nat) + "."@ + ext
}

/// Temporary file names of one process tell their time stamps and random
/// numbers apart: two names are equal only when both the stamps and the
/// random numbers are.
pub proof fn law_temp_file_names_distinguish_parts(
    pid: u32,
    t1: u128,
    r1: u32,
    t2: u128,
    r2: u32,
    ext: Seq<char>,
)
    ensures
        temp_file_name_spec(pid, t1, r1, ext) == temp_file_name_spec(pid, t2, r2, ext) ==> t1
            == t2 && r1 == r2,
{
    if temp_file_name_spec(pid, t1, r1, ext) == temp_file_name_spec(pid, t2, r2, ext) {
        let head = "shotly-"@ + dec(pid as nat) + "-"@;
        let x1 = dec(t1 as nat) + seq!['-'] + (dec(r1 as nat) + seq!['.'] + ext);
        let x2 = dec(t2 as nat) + seq!['-'] + (dec(r2 as nat) + seq!['.'] + ext);
        reveal_strlit("-");
        reveal_strlit(".");
        assert("-"@ =~= seq!['-']) by {
            broadcast use vstd::string::group_string_axioms;
        }
        assert("."@ =~= seq!['.']) by {
            broadcast use vstd::string::group_string_axioms;
        }
        assert(temp_file_name_spec(pid, t1, r1, ext) =~= head + x1);
        assert(temp_file_name_spec(pid, t2, r2, ext) =~= head + x2);
        assert(x1 =~= (head + x1).skip(head.len() as int));
        assert(x2 =~= (head + x2).skip(head.len() as int));
        lemma_dec_then_separator(
            t1 as nat,
            t2 as nat,
            '-',
            dec(r1 as nat) + seq!['.'] + ext,
            dec(r2 as nat) + seq!['.'] + ext,
        );
        lemma_dec_then_separator(r1 as nat, r2 as nat, '.', ext, ext);
    }
}

/// Formats the name of a temporary file from its parts.
pub fn temp_file_name(pid: u32, stamp: u128, r: u32, ext: &str) -> (name: String)
    ensures
        name@ == temp_file_name_spec(pid, stamp, r, ext@),
{
    let mut out = String::new();
    push_str(&mut out, "shotly-");
    push_dec(&mut out, pid as u128);
    push_str(&mut out, "-");
    push_dec(&mut out, stamp);
    push_str(&mut out, "-");
    push_dec(&mut out, r as u128);
    push_str(&mut out, ".");
    push_str(&mut out, ext);
    out
}

/// A fresh temporary file name for process `pid`: the current time stamp and
/// a random number make it unique in practice. `None` when the system gives
/// no entropy for the random number (the caller decides how to fail).
pub fn fresh_temp_file_name(pid: u32, ext: &str) -> (name: Option<String>)
    ensures
        match name {
            Some(n) => exists|t: u128, r: u32| n@ == temp_file_name_spec(pid, t, r, ext@),
            None => true,
        },
{
    let t = stamp();
    match os_random_u32() {
        Some(r) => Some(temp_file_name(pid, t, r, ext)),
        None => None,
    }
}

/// Temporary files older than this many milliseconds (twelve hours) are removed.
pub const MAX_TEMP_AGE_MS: u128 = 43_200_000;

/// Whether a temporary file modified at `modified_ms` (milliseconds since the
/// epoch; `None` when the time is unknown or before the epoch) is older than
/// twelve hours at `now_ms`. A modification time after `now_ms` counts as age 0.
pub fn temp_file_expired(now_ms: u128, modified_ms: Option<u128>) -> (r: bool)
    ensures
        r == match modified_ms {
            Some(t) => now_ms > t && now_ms - t > MAX_TEMP_AGE_MS,
            None => false,
        },
{
    let age: u128 = match modified_ms {
        Some(t) => now_ms.saturating_sub(t),
        None => 0,
    };
    age > MAX_TEMP_AGE_MS
}


/// The reasons `base64` gives for refusing an input, with their fields.
#[derive(Clone, Copy, Debug, PartialEq, Eq)]
pub enum DecodeFailure {
    /// A byte outside the alphabet: its offset and value.
    InvalidByte(usize, u8),
    /// An input length no valid encoding has.
    InvalidLength(usize),
    /// A last symbol with bits set that no encoding produces: offset and value.
    InvalidLastSymbol(usize, u8),
    /// Padding where the engine does not allow it.
    InvalidPadding,
}

/// What the standard Base64 engine of `base64` decodes from `input`.
pub uninterp spec fn base64_standard_decode(input: Seq<u8>) -> Result<Seq<u8>, DecodeFailure>;

/// What the standard Base64 engine of `base64` encodes `input` into.
pub uninterp spec fn base64_standard_encode(input: Seq<u8>) -> Seq<char>;

/// The characters of the standard Base64 alphabet and its padding `=`.
pub open spec fn is_base64_char(c: char) -> bool {
    ||| 'A' <= c <= 'Z'
    ||| 'a' <= c <= 'z'
    ||| '0' <= c <= '9'
    ||| c == '+'
    ||| c == '/'
    ||| c == '='
}

/// The length of the padded Base64 text of `n` bytes: four characters for
/// every started group of three bytes.
pub open spec fn base64_len(n: nat) -> nat {
    if n % 3 == 0 {
        (n / 3) * 4
    } else {
        (n / 3) * 4 + 4
    }
}

/// `text` is Base64 that the standard engine decodes to `bytes`.
pub open spec fn decodes_to(text: Seq<char>, bytes: Seq<u8>) -> bool {
    base64_standard_decode(encode_utf8(text)) == Ok::<Seq<u8>, DecodeFailure>(bytes)
}

/// Calls `Engine::decode` of `base64::engine::general_purpose::STANDARD`.
/// The result is named by `base64_standard_decode`; an error is handed on
/// variant for variant. The engine requires canonical padding and refuses
/// set trailing bits, so what it accepts is exactly the encoding of what it
/// returns; that is stated, with the length it implies.
#[verifier::external_body]
fn decode_standard(input: &[u8]) -> (res: Result<Vec<u8>, DecodeFailure>)
    ensures
        match res {
            Ok(v) => base64_standard_decode(input@) == Ok::<Seq<u8>, DecodeFailure>(v@)
                && encode_utf8(base64_standard_encode(v@)) == input@ && base64_len(v@.len())
                == input@.len() && base64_standard_encode(v@).len() == base64_len(v@.len()),
            Err(e) => base64_standard_decode(input@) == Err::<Seq<u8>, DecodeFailure>(e),
        },
{
    match base64::Engine::decode(&base64::engine::general_purpose::STANDARD, input) {
        Ok(v) => Ok(v),
        Err(base64::DecodeError::InvalidByte(i, b)) => Err(DecodeFailure::InvalidByte(i, b)),
        Err(base64::DecodeError::InvalidLength(n)) => Err(DecodeFailure::InvalidLength(n)),
        Err(base64::DecodeError::InvalidLastSymbol(i, b)) => Err(
            DecodeFailure::InvalidLastSymbol(i, b),
        ),
        Err(base64::DecodeError::InvalidPadding) => Err(DecodeFailure::InvalidPadding),
    }
}

/// Calls `Engine::encode` of `base64::engine::general_purpose::STANDARD`.
/// The result is named by `base64_standard_encode`. The crate documents that
/// this engine writes the standard alphabet with `=` padding and that its
/// canonical output decodes back to the input; both are stated, with the
/// output length. `encode` panics when that length overflows `usize`, which
/// `requires` excludes.
#[verifier::external_body]
fn encode_standard(input: &[u8]) -> (res: String)
    requires
        base64_len(input@.len()) <= usize::MAX,
    ensures
        res@ == base64_standard_encode(input@),
        res@.len() == base64_len(input@.len()),
        forall|i: int| 0 <= i < res@.len() ==> is_base64_char(#[trigger] res@[i]),
        decodes_to(res@, input@),
{
    base64::Engine::encode(&base64::engine::general_purpose::STANDARD, input)
}

/// How `base64::DecodeError` displays itself.
pub open spec fn decode_failure_text(e: DecodeFailure) -> Seq<char> {
    match e {
        DecodeFailure::InvalidByte(i, b) => "Invalid symbol "@ + dec(b as nat) + ", offset "@
            + dec(i as nat) + "."@,
        DecodeFailure::InvalidLength(n) => "Invalid input length: "@ + dec(n as nat),
        DecodeFailure::InvalidLastSymbol(i, b) => "Invalid last symbol "@ + dec(b as nat)
            + ", offset "@ + dec(i as nat) + "."@,
        DecodeFailure::InvalidPadding => "Invalid padding"@,
    }
}

/// The message of a decoding failure, as `base64` displays it.
pub fn describe_decode_failure(e: DecodeFailure) -> (t: String)
    ensures
        t@ == decode_failure_text(e),
{
    let mut out = String::new();
    match e {
        DecodeFailure::InvalidByte(i, b) => {
            push_str(&mut out, "Invalid symbol ");
            push_dec(&mut out, b as u128);
            push_str(&mut out, ", offset ");
            push_dec(&mut out, i as u128);
            push_str(&mut out, ".");
        },
        DecodeFailure::InvalidLength(n) => {
            push_str(&mut out, "Invalid input length: ");
            push_dec(&mut out, n as u128);
        },
        DecodeFailure::InvalidLastSymbol(i, b) => {
            push_str(&mut out, "Invalid last symbol ");
            push_dec(&mut out, b as u128);
            push_str(&mut out, ", offset ");
            push_dec(&mut out, i as u128);
            push_str(&mut out, ".");
        },
        DecodeFailure::InvalidPadding => {
            push_str(&mut out, "Invalid padding");
        },
    }
    out
}

/// The Base64 text of a data URL: what follows its first comma (the whole
/// text when there is none), without surrounding white space.
pub open spec fn data_url_payload(url: Seq<char>) -> Seq<char> {
    trim(
        match after_first(url, ',') {
            Some(t) => t,
            None => url,
        },
    )
}

/// The bytes a data URL carries, or the message for a payload that is no Base64.
pub open spec fn data_url_bytes(url: Seq<char>) -> Result<Seq<u8>, Seq<char>> {
    match base64_standard_decode(encode_utf8(data_url_payload(url))) {
        Ok(b) => Ok(b),
        Err(e) => Err("base64 解码失败: "@ + decode_failure_text(e)),
    }
}

/// Decodes the bytes of a `data:image/png;base64,...` URL. Only canonical
/// Base64 is accepted, so the payload is exactly the encoding of the bytes
/// (what `encode_base64` gives back for them, which it can be asked for).
pub fn decode_data_url(data_url: &str) -> (res: Result<Vec<u8>, String>)
    ensures
        match res {
            Ok(b) => data_url_bytes(data_url@) == Ok::<Seq<u8>, Seq<char>>(b@)
                && base64_standard_encode(b@) == data_url_payload(data_url@) && base64_len(
                b@.len(),
            ) == data_url_payload(data_url@).len() && base64_len(b@.len()) <= usize::MAX,
            Err(m) => data_url_bytes(data_url@) == Err::<Seq<u8>, Seq<char>>(m@),
        },
{
    let v = chars_of(data_url);
    let body = match chars_after_first(v.as_slice(), ',') {
        Some(t) => t,
        None => v,
    };
    let payload = string_from_chars(trim_chars(body.as_slice()).as_slice());
    let bytes = payload.as_str().as_bytes();
    let n = bytes.len();
    assert(payload@ == data_url_payload(data_url@));
    match decode_standard(bytes) {
        Ok(b) => {
            proof {
                vstd::utf8::encode_utf8_decode_utf8(base64_standard_encode(b@));
                vstd::utf8::encode_utf8_decode_utf8(payload@);
                assert(base64_standard_encode(b@) == payload@);
                assert(base64_len(b@.len()) == n);
            }
            Ok(b)
        },
        Err(e) => {
            let mut m = String::new();
            push_str(&mut m, "base64 解码失败: ");
            let t = describe_decode_failure(e);
            push_str(&mut m, t.as_str());
            Err(m)
        },
    }
}


/// Base64 of `bytes` (the standard engine). Its text holds no comma and no
/// white space, so a data URL made of any comma-free head, a comma and this
/// text carries `bytes` again.
pub fn encode_base64(bytes: &[u8]) -> (text: String)
    requires
        base64_len(bytes@.len()) <= usize::MAX,
    ensures
        text@ == base64_standard_encode(bytes@),
        text@.len() == base64_len(bytes@.len()),
        forall|i: int| 0 <= i < text@.len() ==> is_base64_char(#[trigger] text@[i]),
        forall|head: Seq<char>|
            !head.contains(',') ==> #[trigger] data_url_bytes(head + seq![','] + text@) == Ok::<
                Seq<u8>,
                Seq<char>,
            >(bytes@),
{
    let text = encode_standard(bytes);
    proof {
        assert forall|i: int| 0 <= i < text@.len() implies !is_space(#[trigger] text@[i]) by {
            assert(is_base64_char(text@[i]));
        }
        lemma_trim_without_space(text@);
        assert forall|head: Seq<char>| !head.contains(',') implies #[trigger] data_url_bytes(
            head + seq![','] + text@,
        ) == Ok::<Seq<u8>, Seq<char>>(bytes@) by {
            lemma_after_first_prefix(head, ',', text@);
        }
    }
    text
}

} // verus!
