use vstd::prelude::*;
use vstd::utf8::encode_utf8;

use crate::codec::{compute_hmac_sha256, csv_records, hmac_sha256, read_csv_records, records_view};

verus! {

/// The hmac operations' answer for one packet of bytes: its HMAC-SHA256 tag under the secret.
pub fn hmac_of_bytes(secret: &[u8], input: &[u8]) -> (tag: Vec<u8>)
    ensures
        tag@ == hmac_sha256(secret@, input@),
        tag@.len() == 32,
{
    compute_hmac_sha256(secret, input)
}

/// The hmac operations' answer for one string packet: the tag of its UTF-8 bytes.
pub fn hmac_of_string(secret: &[u8], input: &str) -> (tag: Vec<u8>)
    ensures
        tag@ == hmac_sha256(secret@, encode_utf8(input@)),
        tag@.len() == 32,
{
    hmac_of_bytes(secret, input.as_bytes())
}

/// The csv operation's answer for one packet: the records of the packet's bytes, each as its
/// list of fields (sent between an open and a close bracket); `None` where the bytes are not
/// CSV the crate can read, on which the operation gives up.
pub fn csv_packet(input: &[u8]) -> (out: Option<Vec<Vec<String>>>)
    ensures
        match out {
            Some(rows) => csv_records(input@) == Some(records_view(rows@)),
            None => csv_records(input@).is_none(),
        },
{
    read_csv_records(input)
}

} // verus!
