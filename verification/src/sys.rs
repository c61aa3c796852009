//! The calls this library makes into the clock, the random source, the
//! text decoders and `String`; each contract here is trusted, not proved.
use vstd::prelude::*;

verus! {

/// A lower-case hexadecimal digit.
pub open spec fn is_lower_hex(c: char) -> bool {
    ('0' <= c && c <= '9') || ('a' <= c && c <= 'f')
}

/// The hyphenated lower-case text of a random (version 4, RFC 4122 variant)
/// UUID: `xxxxxxxx-xxxx-4xxx-yxxx-xxxxxxxxxxxx` with `y` one of `8 9 a b`.
pub open spec fn is_v4_uuid_text(s: Seq<char>) -> bool {
    &&& s.len() == 36
    &&& forall|i: int|
        0 <= i < 36 ==> if i == 8 || i == 13 || i == 18 || i == 23 {
            #[trigger] s[i] == '-'
        } else {
            is_lower_hex(s[i])
        }
    &&& s[14] == '4'
    &&& (s[19] == '8' || s[19] == '9' || s[19] == 'a' || s[19] == 'b')
}

/// Reads the system clock with `std::time::SystemTime::now` and measures it
/// against the UNIX epoch with `duration_since`: `Ok` holds the whole seconds
/// and nanoseconds since the epoch, `Err` those before it. The contract
/// claims only what `Duration::subsec_nanos` documents, that the nanoseconds
/// stay under one second; which instant comes back is not stated (it is the
/// time). Neither call panics.
#[verifier::external_body]
pub(crate) fn clock_reading() -> (res: Result<(u64, u32), (u64, u32)>)
    ensures
        match res {
            Ok((_, nanos)) => nanos < 1_000_000_000,
            Err((_, nanos)) => nanos < 1_000_000_000,
        },
{
    match std::time::SystemTime::now().duration_since(std::time::UNIX_EPOCH) {
        Ok(d) => Ok((d.as_secs(), d.subsec_nanos())),
        Err(e) => Err((e.duration().as_secs(), e.duration().subsec_nanos())),
    }
}

/// Calls `uuid::Uuid::new_v4` and renders it with `to_string`. The contract
/// claims the shape of every outcome: `new_v4` masks in the version nibble 4
/// and the variant bits `10`, and `Display` writes the hyphenated lower-case
/// form. Which UUID comes back is random and not stated.
#[verifier::external_body]
pub(crate) fn random_id() -> (res: String)
    ensures
        is_v4_uuid_text(res@),
{
    uuid::Uuid::new_v4().to_string()
}

/// The text that `encoding_rs::GBK.decode` gives for a byte string: GBK with
/// BOM sniffing, malformed sequences replaced by U+FFFD.
pub uninterp spec fn gbk_decode(bytes: Seq<u8>) -> Seq<char>;

/// Calls `encoding_rs::GBK.decode` and takes the owned text. The contract
/// claims that the text is the one that `gbk_decode` names for these bytes;
/// it says nothing of what that text is. `decode` panics when its buffer size
/// computation overflows, which the bound in `requires` rules out.
#[verifier::external_body]
pub(crate) fn decode_gbk(bytes: &[u8]) -> (res: String)
    requires
        bytes@.len() * 3 + 32 <= isize::MAX,
    ensures
        res@ == gbk_decode(bytes@),
{
    let (text, _, _) = encoding_rs::GBK.decode(bytes);
    text.into_owned()
}

/// Calls `std::str::from_utf8`. The contract claims what its documentation
/// says: it succeeds exactly on well-formed UTF-8, and then the text is what
/// the bytes encode.
#[verifier::external_body]
pub(crate) fn utf8_text(bytes: &[u8]) -> (res: Option<String>)
    ensures
        res is Some <==> vstd::utf8::valid_utf8(bytes@),
        res matches Some(s) ==> s@ == vstd::utf8::decode_utf8(bytes@),
{
    match std::str::from_utf8(bytes) {
        Ok(s) => Some(s.to_owned()),
        Err(_) => None,
    }
}

/// Calls `String::push`, which appends one character.
#[verifier::external_body]
pub(crate) fn push_char(s: &mut String, c: char)
    ensures
        final(s)@ == old(s)@.push(c),
{
    s.push(c);
}

} // verus!
