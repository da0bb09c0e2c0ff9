//! Decrypting the links that the resolving service hands out.
//!
//! A link is UTF-8 text, combined byte by byte with a key that is repeated as often as needed, and
//! then written in base64. The key changes every hour.
use crate::text::{decimal, decimal_reads_back, joined_text, numeral_value, result_view, to_decimal};
use base64::Engine;
use vstd::prelude::*;
use vstd::utf8::{
    decode_utf8, encode_scalar, encode_utf8, encode_utf8_decode_utf8, encode_utf8_valid_utf8,
    valid_utf8,
};

verus! {

/// The key text for a moment, given in seconds.
pub open spec fn key_text(timestamp: u64) -> Seq<char> {
    "SECRET_KEY_"@ + decimal((timestamp / 3600) as nat)
}

/// The bytes of the key for a moment.
pub open spec fn key_bytes(timestamp: u64) -> Seq<u8> {
    encode_utf8(key_text(timestamp))
}

/// Each byte of `data` combined with the byte of the repeated key that stands above it.
pub open spec fn xor_cycle(data: Seq<u8>, key: Seq<u8>) -> Seq<u8> {
    Seq::new(data.len(), |i: int| data[i] ^ key[i % key.len() as int])
}

/// What `base64::engine::general_purpose::STANDARD` makes of a text: the bytes it stands for, or
/// the description of what is wrong with it.
pub uninterp spec fn base64_decoded(text: Seq<char>) -> Result<Seq<u8>, Seq<char>>;

/// How `std::string::FromUtf8Error` describes bytes that are not UTF-8.
pub uninterp spec fn utf8_error_text(bytes: Seq<u8>) -> Seq<char>;

/// The view of decoded bytes or the reason why there are none.
pub open spec fn bytes_view(r: Result<Vec<u8>, String>) -> Result<Seq<u8>, Seq<char>> {
    match r {
        Ok(bytes) => Ok(bytes@),
        Err(e) => Err(e@),
    }
}

/// Calls `base64::Engine::decode` on the standard engine (the usual alphabet, with padding).
/// Assumed: whether it succeeds, the bytes it gives and the text of its error are determined by
/// the input text.
#[verifier::external_body]
fn base64_decode(text: &str) -> (r: Result<Vec<u8>, String>)
    ensures
        bytes_view(r) == base64_decoded(text@),
{
    base64::engine::general_purpose::STANDARD.decode(text).map_err(|e| e.to_string())
}

/// Calls `String::from_utf8`. Assumed: it succeeds exactly on valid UTF-8 and gives the text that
/// the bytes encode; otherwise the text of its error is determined by the bytes.
#[verifier::external_body]
fn string_from_utf8(bytes: Vec<u8>) -> (r: Result<String, String>)
    ensures
        result_view(r) == if valid_utf8(bytes@) {
            Ok::<Seq<char>, Seq<char>>(decode_utf8(bytes@))
        } else {
            Err(utf8_error_text(bytes@))
        },
{
    String::from_utf8(bytes).map_err(|e| e.to_string())
}

/// The link in what base64 decoding gave, made at `timestamp`.
pub open spec fn decrypted(decoded: Result<Seq<u8>, Seq<char>>, timestamp: u64) -> Result<
    Seq<char>,
    Seq<char>,
> {
    match decoded {
        Ok(data) => {
            let plain = xor_cycle(data, key_bytes(timestamp));
            if valid_utf8(plain) {
                Ok(decode_utf8(plain))
            } else {
                Err("utf8 error: "@ + utf8_error_text(plain))
            }
        },
        Err(e) => Err("base64 error: "@ + e),
    }
}

proof fn key_is_not_empty(timestamp: u64)
    ensures
        key_bytes(timestamp).len() > 0,
{
    reveal_strlit("SECRET_KEY_");
    let text = key_text(timestamp);
    assert(text.len() > 0);
    assert(encode_scalar(text[0] as u32).len() > 0);
}

/// Combines `data` with the repeated key.
pub fn xor_with_key(data: &Vec<u8>, key: &[u8]) -> (out: Vec<u8>)
    requires
        key@.len() > 0,
    ensures
        out@ == xor_cycle(data@, key@),
{
    let mut out: Vec<u8> = Vec::new();
    let mut i: usize = 0;
    while i < data.len()
        invariant
            i <= data.len(),
            key@.len() > 0,
            out@.len() == i,
            forall|j: int| 0 <= j < i ==> out@[j] == data@[j] ^ key@[j % key@.len() as int],
        decreases data.len() - i,
    {
        out.push(data[i] ^ key[i % key.len()]);
        i += 1;
    }
    assert(out@ =~= xor_cycle(data@, key@));
    out
}

/// Decrypts what base64 decoding gave.
pub fn decrypt_decoded(decoded: Result<Vec<u8>, String>, timestamp: u64) -> (link: Result<
    String,
    String,
>)
    ensures
        result_view(link) == decrypted(bytes_view(decoded), timestamp),
{
    let hour = to_decimal(timestamp / 3600);
    let key = joined_text("SECRET_KEY_", hour.as_str());
    let data = match decoded {
        Ok(data) => data,
        Err(e) => {
            return Err(joined_text("base64 error: ", e.as_str()));
        },
    };
    proof {
        key_is_not_empty(timestamp);
    }
    let plain = xor_with_key(&data, key.as_str().as_bytes());
    match string_from_utf8(plain) {
        Ok(link) => Ok(link),
        Err(e) => Err(joined_text("utf8 error: ", e.as_str())),
    }
}

/// Decrypts a link that was made at `timestamp`, given in seconds.
pub fn xor_decrypt(encrypted_b64: &str, timestamp: u64) -> (link: Result<String, String>)
    ensures
        result_view(link) == decrypted(base64_decoded(encrypted_b64@), timestamp),
{
    decrypt_decoded(base64_decode(encrypted_b64), timestamp)
}

/// Combining with the same key twice gives the data back.
pub proof fn xor_twice_restores(data: Seq<u8>, key: Seq<u8>)
    ensures
        xor_cycle(xor_cycle(data, key), key) == data,
{
    assert forall|i: int| 0 <= i < data.len() implies #[trigger] xor_cycle(
        xor_cycle(data, key),
        key,
    )[i] == data[i] by {
        let a = data[i];
        let b = key[i % key.len() as int];
        assert((a ^ b) ^ b == a) by (bit_vector);
    }
    assert(xor_cycle(xor_cycle(data, key), key) =~= data);
}

/// A link that was combined with the key of a moment and written in base64 is recovered with the
/// key of that moment.
pub proof fn decryption_recovers_the_link(text: Seq<char>, timestamp: u64, link: Seq<char>)
    requires
        base64_decoded(text) == Ok::<Seq<u8>, Seq<char>>(
            xor_cycle(encode_utf8(link), key_bytes(timestamp)),
        ),
    ensures
        decrypted(base64_decoded(text), timestamp) == Ok::<Seq<char>, Seq<char>>(link),
{
    xor_twice_restores(encode_utf8(link), key_bytes(timestamp));
    encode_utf8_valid_utf8(link);
    encode_utf8_decode_utf8(link);
}

/// Two moments share a key exactly when they lie in the same hour.
pub proof fn key_changes_with_the_hour(t1: u64, t2: u64)
    ensures
        key_text(t1) == key_text(t2) <==> t1 / 3600 == t2 / 3600,
        key_bytes(t1) == key_bytes(t2) <==> t1 / 3600 == t2 / 3600,
{
    let prefix = "SECRET_KEY_"@;
    let d1 = decimal((t1 / 3600) as nat);
    let d2 = decimal((t2 / 3600) as nat);
    decimal_reads_back((t1 / 3600) as nat);
    decimal_reads_back((t2 / 3600) as nat);
    if key_text(t1) == key_text(t2) {
        assert(d1 =~= key_text(t1).skip(prefix.len() as int));
        assert(d2 =~= key_text(t2).skip(prefix.len() as int));
        assert(numeral_value(d1) == numeral_value(d2));
    }
    encode_utf8_decode_utf8(key_text(t1));
    encode_utf8_decode_utf8(key_text(t2));
}

/// The key is repeated end to end: over the first bytes lies the key itself, and each byte of it
/// lies again, as far on as the key is long, over the data there. Nothing else changes.
pub proof fn key_is_repeated_end_to_end(data: Seq<u8>, key: Seq<u8>)
    requires
        key.len() > 0,
    ensures
        xor_cycle(data, key).len() == data.len(),
        forall|i: int|
            0 <= i < data.len() && i < key.len() ==> #[trigger] xor_cycle(data, key)[i] == data[i]
                ^ key[i],
        forall|i: int, j: int|
            0 <= i && j == i + key.len() && j < data.len() ==> (#[trigger] xor_cycle(data, key)[i])
                ^ data[i] == (#[trigger] xor_cycle(data, key)[j]) ^ data[j],
{
    let n = key.len() as int;
    let out = xor_cycle(data, key);
    assert forall|i: int| 0 <= i < data.len() && i < key.len() implies #[trigger] out[i] == data[i]
        ^ key[i] by {
        vstd::arithmetic::div_mod::lemma_small_mod(i as nat, key.len());
    }
    assert forall|i: int, j: int| 0 <= i && j == i + n && j < data.len() implies (#[trigger] out[i])
        ^ data[i] == (#[trigger] out[j]) ^ data[j] by {
        vstd::arithmetic::div_mod::lemma_mod_add_multiples_vanish(i, n);
        let (a, b, k) = (data[i], data[j], key[i % n]);
        assert((a ^ k) ^ a == (b ^ k) ^ b) by (bit_vector);
    }
}

/// Data as long as the key is combined with it byte for byte, and what comes behind it as if it
/// stood alone.
pub proof fn data_is_combined_key_by_key(head: Seq<u8>, tail: Seq<u8>, key: Seq<u8>)
    requires
        key.len() > 0,
        head.len() == key.len(),
    ensures
        xor_cycle(head, key) == Seq::new(key.len(), |i: int| head[i] ^ key[i]),
        xor_cycle(head + tail, key) == xor_cycle(head, key) + xor_cycle(tail, key),
{
    let n = key.len() as int;
    assert forall|i: int| 0 <= i < n implies #[trigger] xor_cycle(head, key)[i] == head[i] ^ key[i] by {
        vstd::arithmetic::div_mod::lemma_small_mod(i as nat, key.len());
    }
    assert(xor_cycle(head, key) =~= Seq::new(key.len(), |i: int| head[i] ^ key[i]));
    let whole = xor_cycle(head + tail, key);
    let parts = xor_cycle(head, key) + xor_cycle(tail, key);
    assert forall|i: int| 0 <= i < whole.len() implies #[trigger] whole[i] == parts[i] by {
        if i >= n {
            vstd::arithmetic::div_mod::lemma_mod_add_multiples_vanish(i - n, n);
            assert(parts[i] == xor_cycle(tail, key)[i - n]);
        }
    }
    assert(whole =~= parts);
}

/// The key of a moment is the text `SECRET_KEY_`, followed by the number of the hour that the moment
/// lies in, in bytes.
pub proof fn key_names_the_hour(timestamp: u64, hour: nat)
    requires
        3600 * hour <= timestamp < 3600 * hour + 3600,
    ensures
        key_text(timestamp) == "SECRET_KEY_"@ + decimal(hour),
        key_bytes(timestamp) == encode_utf8("SECRET_KEY_"@ + decimal(hour)),
{
    assert(timestamp / 3600 == hour);
}

/// Data decrypts to a link exactly when its bytes are those of the link, combined one by one with
/// those of the key over and over. All other data is refused, and so is what could not be decoded,
/// each with its reason.
pub proof fn link_is_what_was_combined_with_the_key(
    data: Seq<u8>,
    timestamp: u64,
    link: Seq<char>,
    reason: Seq<char>,
)
    ensures
        ({
            let key = encode_utf8("SECRET_KEY_"@ + decimal((timestamp / 3600) as nat));
            decrypted(Ok(data), timestamp) == Ok::<Seq<char>, Seq<char>>(link) <==> {
                &&& data.len() == encode_utf8(link).len()
                &&& forall|i: int|
                    0 <= i < data.len() ==> #[trigger] data[i] == encode_utf8(link)[i] ^ key[i
                        % key.len() as int]
            }
        }),
        decrypted(Ok(data), timestamp) matches Err(e) ==> "utf8 error: "@.is_prefix_of(e),
        decrypted(Err(reason), timestamp) == Err::<Seq<char>, Seq<char>>(
            "base64 error: "@ + reason,
        ),
{
    let key = key_bytes(timestamp);
    let plain = xor_cycle(data, key);
    let bytes = encode_utf8(link);
    encode_utf8_valid_utf8(link);
    encode_utf8_decode_utf8(link);
    if decrypted(Ok(data), timestamp) == Ok::<Seq<char>, Seq<char>>(link) {
        vstd::utf8::decode_utf8_encode_utf8(plain);
        assert(plain == bytes);
        assert forall|i: int| 0 <= i < data.len() implies #[trigger] data[i] == bytes[i] ^ key[i
            % key.len() as int] by {
            let (a, k) = (data[i], key[i % key.len() as int]);
            assert(plain[i] == a ^ k);
            assert((a ^ k) ^ k == a) by (bit_vector);
        }
    }
    if data.len() == bytes.len() && forall|i: int|
        0 <= i < data.len() ==> #[trigger] data[i] == bytes[i] ^ key[i % key.len() as int] {
        assert forall|i: int| 0 <= i < plain.len() implies #[trigger] plain[i] == bytes[i] by {
            let (b, k) = (bytes[i], key[i % key.len() as int]);
            assert(data[i] == b ^ k);
            assert((b ^ k) ^ k == b) by (bit_vector);
        }
        assert(plain =~= bytes);
    }
    match decrypted(Ok(data), timestamp) {
        Ok(_) => {},
        Err(e) => {
            assert("utf8 error: "@ =~= e.subrange(0, "utf8 error: "@.len() as int));
        },
    }
}

/// Bytes that the key turns into no text are refused with what is wrong with them.
pub proof fn broken_text_is_described(data: Seq<u8>, plain: Seq<u8>, timestamp: u64)
    requires
        plain.len() == data.len(),
        forall|i: int|
            0 <= i < data.len() ==> #[trigger] plain[i] == data[i] ^ encode_utf8(
                "SECRET_KEY_"@ + decimal((timestamp / 3600) as nat),
            )[i % encode_utf8("SECRET_KEY_"@ + decimal((timestamp / 3600) as nat)).len() as int],
        !valid_utf8(plain),
    ensures
        decrypted(Ok(data), timestamp) == Err::<Seq<char>, Seq<char>>(
            "utf8 error: "@ + utf8_error_text(plain),
        ),
{
    assert(plain =~= xor_cycle(data, key_bytes(timestamp)));
}

/// The view of decoded bytes, or of the reason why there are none, is that of what is there.
pub proof fn views_of_bytes_lose_nothing(
    r: Result<Vec<u8>, String>,
    bytes: Seq<u8>,
    reason: Seq<char>,
)
    ensures
        bytes_view(r) == Ok::<Seq<u8>, Seq<char>>(bytes) <==> r is Ok && r->Ok_0@ == bytes,
        bytes_view(r) == Err::<Seq<u8>, Seq<char>>(reason) <==> r is Err && r->Err_0@ == reason,
{
}

} // verus!
