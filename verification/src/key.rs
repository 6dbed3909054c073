use vstd::prelude::*;
use vstd::string::StringSliceAdditionalSpecFns;
use crate::error::ConfigError;
use crate::primitives::base64_decoded;
use crate::primitives::decode_base64;
use crate::primitives::hmac_sha256;
use crate::primitives::mac_matches;

verus! {

/// The key that tokens are signed with. It is built once and only read
/// afterwards; every verification keys a fresh HMAC-SHA256 computation with
/// it, so any number of requests can share one value.
#[derive(Debug)]
pub struct SecretKey {
    key: Vec<u8>,
}

impl View for SecretKey {
    type V = Seq<u8>;

    /// The bytes of the key.
    closed spec fn view(&self) -> Seq<u8> {
        self.key@
    }
}

impl SecretKey {
    /// What [`SecretKey::from_env`] returns for a setting.
    pub open spec fn from_env_spec(secret: Option<Seq<u8>>) -> Result<Seq<u8>, ConfigError> {
        match secret {
            None => Err(ConfigError::MissingSecret),
            Some(text) => match base64_decoded(text) {
                None => Err(ConfigError::InvalidSecret),
                Some(key) => Ok(key),
            },
        }
    }

    /// A key made of the given bytes. HMAC takes a key of any length.
    pub fn from_bytes(key: Vec<u8>) -> (r: SecretKey)
        ensures
            r@ == key@,
    {
        SecretKey { key }
    }

    /// Builds the key from the value of the environment variable that holds
    /// the signing secret, as the caller found it: `None` where it is not
    /// set. The value is the key in base64.
    pub fn from_env(secret: Option<&str>) -> (r: Result<SecretKey, ConfigError>)
        ensures
            match Self::from_env_spec(
                match secret {
                    Some(text) => Some(text.spec_bytes()),
                    None => None,
                },
            ) {
                Ok(key) => r matches Ok(k) && k@ == key,
                Err(e) => r matches Err(got) && got == e,
            },
    {
        match secret {
            None => Err(ConfigError::MissingSecret),
            Some(text) => match decode_base64(text.as_bytes()) {
                None => Err(ConfigError::InvalidSecret),
                Some(key) => Ok(SecretKey { key }),
            },
        }
    }

    /// Tells whether `signature` is the HMAC-SHA256 code of `message` under
    /// this key. The comparison takes the same time whatever the bytes are.
    pub fn verify(&self, message: &[u8], signature: &[u8]) -> (r: bool)
        ensures
            r == (signature@ == hmac_sha256(self@, message@)),
    {
        mac_matches(self.key.as_slice(), message, signature)
    }
}

impl Clone for SecretKey {
    fn clone(&self) -> (r: SecretKey)
        ensures
            r@ == self@,
    {
        SecretKey { key: self.key.clone() }
    }
}

} // verus!
