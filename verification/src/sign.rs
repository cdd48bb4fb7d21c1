use crypto::hmac::Hmac;
use crypto::mac::Mac;
use crypto::sha2::Sha512;
use vstd::prelude::*;

verus! {

/// The HMAC-SHA512 tag of `message` under `key`, as rust-crypto computes it.
pub uninterp spec fn spec_hmac_sha512(key: Seq<u8>, message: Seq<u8>) -> Seq<u8>;

/// Calls rust-crypto: `Hmac::new(Sha512::new(), key)`, then `Mac::input` with
/// `message`, then `Mac::result` and its `code`.  Claimed of it: the tag is a
/// function of the key and the message alone (named `spec_hmac_sha512`), and it
/// is 64 bytes long, SHA-512's output size (`Sha512::output_bits` is 512 and
/// `Hmac::result` allocates `output_bytes` bytes).  What the tag is, byte by
/// byte, is left unstated.
#[verifier::external_body]
pub(crate) fn hmac_sha512(key: &[u8], message: &[u8]) -> (tag: Vec<u8>)
    ensures
        tag@ == spec_hmac_sha512(key@, message@),
        tag@.len() == 64,
{
    let mut mac = Hmac::new(Sha512::new(), key);
    mac.input(message);
    mac.result().code().to_vec()
}

} // verus!
