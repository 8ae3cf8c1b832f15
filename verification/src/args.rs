//! The signing key as the operator hands it in.

use crate::error::ConfigIssue;
use crate::error::DeployError;
use crate::hex_text::hex_bytes;
use crate::hex_text::hex_string;
use crate::hex_text::is_hex_string;
use crate::hex_text::parse_hex;
use crate::hex_text::to_hex;
use vstd::prelude::*;
use vstd::string::StrSliceExecFns;
use vstd::string::StringExecFns;

verus! {

/// The thirty-two bytes of the signing key.
#[derive(Debug, Clone, Copy, PartialEq, Eq)]
pub struct PrivateKey {
    pub key: [u8; 32],
}

/// `text` without the `0x` prefixes that it starts with, however many.
pub open spec fn without_prefix(text: Seq<char>) -> Seq<char>
    decreases text.len(),
{
    if text.len() >= 2 && text[0] == '0' && text[1] == 'x' {
        without_prefix(text.skip(2))
    } else {
        text
    }
}

/// Strips every leading `0x` from `text`.
pub fn strip_prefix(text: &str) -> (r: &str)
    ensures
        r@ == without_prefix(text@),
{
    let mut rest = text;
    loop
        invariant
            without_prefix(rest@) == without_prefix(text@),
        decreases rest@.len(),
    {
        let n = rest.unicode_len();
        if n >= 2 && rest.get_char(0) == '0' && rest.get_char(1) == 'x' {
            let shorter = rest.substring_char(2, n);
            assert(shorter@ =~= rest@.skip(2));
            rest = shorter;
        } else {
            return rest;
        }
    }
}

impl PrivateKey {
    /// Whether `text` is a key: sixty-four hexadecimal digits, after any
    /// number of `0x` prefixes.
    pub open spec fn is_key_text(text: Seq<char>) -> bool {
        is_hex_string(without_prefix(text)) && without_prefix(text).len() == 64
    }

    /// Reads a key from its hexadecimal text.
    ///
    /// Fails where the text, after its `0x` prefixes, is not hexadecimal or
    /// does not stand for exactly thirty-two bytes.
    pub fn from_str(s: &str) -> (r: Result<PrivateKey, DeployError>)
        ensures
            match r {
                Ok(key) => Self::is_key_text(s@) && key.key@ == hex_bytes(without_prefix(s@)),
                Err(e) => !Self::is_key_text(s@) && e == DeployError::Config(ConfigIssue::InvalidPrivateKey),
            },
    {
        let digits = strip_prefix(s);
        let bytes = match parse_hex(digits) {
            Some(bytes) => bytes,
            None => {
                return Err(DeployError::Config(ConfigIssue::InvalidPrivateKey));
            },
        };
        if bytes.len() != 32 {
            return Err(DeployError::Config(ConfigIssue::InvalidPrivateKey));
        }
        let mut key = [0u8; 32];
        let mut i: usize = 0;
        while i < 32
            invariant
                0 <= i <= 32,
                bytes@.len() == 32,
                forall|j: int| 0 <= j < i ==> key@[j] == bytes@[j],
            decreases 32 - i,
        {
            key[i] = bytes[i];
            i += 1;
        }
        assert(key@ =~= bytes@);
        Ok(PrivateKey { key })
    }

    /// The key in full: sixty-four hexadecimal digits.
    pub open spec fn full_text(&self) -> Seq<char> {
        hex_string(self.key@)
    }

    /// The key as it may be shown: its first four digits, three dots, its
    /// last four digits.
    pub open spec fn masked_text(&self) -> Seq<char> {
        hex_string(self.key@).subrange(0, 4) + seq!['.', '.', '.'] + hex_string(self.key@).subrange(60, 64)
    }

    /// Writes the key out in full, as the deployment tool needs it.
    pub fn to_hex(&self) -> (r: String)
        ensures
            r@ == self.full_text(),
    {
        crate::hex_text::encode(self.key.as_slice())
    }

    /// Writes the key with all but its ends left out.
    pub fn to_string(&self) -> (r: String)
        ensures
            r@ == self.masked_text(),
    {
        proof {
            reveal_strlit("...");
        }
        let encoded = self.to_hex();
        let first_4 = encoded.as_str().substring_char(0, 4);
        let last_4 = encoded.as_str().substring_char(60, 64);
        let mut r = String::from_str(first_4);
        r.append("...");
        r.append(last_4);
        assert("..."@ =~= seq!['.', '.', '.']);
        r
    }
}

} // verus!
