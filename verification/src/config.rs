use vstd::prelude::*;
use vstd::string::StringSliceAdditionalSpecFns;
use vstd::utf8::encode_utf8;
use crate::error::ConfigError;

verus! {

/// The settings of a service, read once when it starts.
#[derive(Debug, Clone, PartialEq, Eq)]
pub struct Variables {
    pub idp_refresh_address: String,
    pub idp_login_address: String,
    pub token_duration_seconds: u32,
    pub service_name: String,
}

/// The byte is an ASCII digit.
pub open spec fn is_digit(byte: u8) -> bool {
    0x30 <= byte <= 0x39
}

/// Every byte is an ASCII digit.
pub open spec fn all_digits(text: Seq<u8>) -> bool {
    forall|i: int| 0 <= i < text.len() ==> is_digit(#[trigger] text[i])
}

/// The number that a run of digits writes in base ten.
pub open spec fn decimal_value(digits: Seq<u8>) -> nat
    decreases digits.len(),
{
    if digits.len() == 0 {
        0
    } else {
        decimal_value(digits.drop_last()) * 10 + (digits.last() - 0x30) as nat
    }
}

/// The text without the plus sign that may stand in front of it.
pub open spec fn without_sign(text: Seq<u8>) -> Seq<u8> {
    if text.len() > 0 && text[0] == 0x2b {
        text.subrange(1, text.len() as int)
    } else {
        text
    }
}

/// The number of seconds that a setting writes: an optional plus sign and
/// then one decimal digit or more, nothing else, and a value that fits 32
/// bits.
pub open spec fn seconds_of(text: Seq<u8>) -> Option<u32> {
    let digits = without_sign(text);
    if digits.len() > 0 && all_digits(digits) && decimal_value(digits) <= u32::MAX {
        Some(decimal_value(digits) as u32)
    } else {
        None
    }
}

/// A number does not get smaller when digits are written after it.
pub proof fn lemma_decimal_value_grows(digits: Seq<u8>, n: int)
    requires
        all_digits(digits),
        0 <= n <= digits.len(),
    ensures
        decimal_value(digits.subrange(0, n)) <= decimal_value(digits),
    decreases digits.len() - n,
{
    if n == digits.len() {
        assert(digits.subrange(0, n) =~= digits);
    } else {
        lemma_decimal_value_grows(digits, n + 1);
        let longer = digits.subrange(0, n + 1);
        assert(longer.drop_last() =~= digits.subrange(0, n));
        assert(is_digit(digits[n]));
        assert(longer.last() == digits[n]);
    }
}

/// Reads a number of seconds, as [`seconds_of`] defines it.
pub fn parse_seconds(text: &str) -> (r: Option<u32>)
    ensures
        r == seconds_of(text.spec_bytes()),
{
    let bytes = text.as_bytes();
    let n = bytes.len();
    let start: usize = if n > 0 && bytes[0] == 0x2b {
        1
    } else {
        0
    };
    let ghost digits = without_sign(bytes@);
    assert(digits =~= bytes@.subrange(start as int, n as int));
    if start == n {
        return None;
    }
    let mut value: u64 = 0;
    let mut i: usize = start;
    while i < n
        invariant
            start <= i <= n,
            n == bytes@.len(),
            bytes@ == text.spec_bytes(),
            digits == without_sign(bytes@),
            digits == bytes@.subrange(start as int, n as int),
            all_digits(digits.subrange(0, i - start)),
            value == decimal_value(digits.subrange(0, i - start)),
            value <= u32::MAX,
        decreases n - i,
    {
        let byte = bytes[i];
        let ghost before = digits.subrange(0, i - start);
        let ghost after = digits.subrange(0, i - start + 1);
        assert(digits[i - start] == byte);
        if byte < 0x30 || byte > 0x39 {
            assert(!is_digit(digits[i - start]));
            return None;
        }
        assert(after.drop_last() =~= before);
        assert(after.last() == byte);
        assert forall|k: int| 0 <= k < after.len() implies is_digit(#[trigger] after[k]) by {
            if k < before.len() {
                assert(after[k] == before[k]);
            }
        }
        value = value * 10 + (byte - 0x30) as u64;
        assert(value == decimal_value(after));
        if value > 0xffff_ffff {
            proof {
                if all_digits(digits) {
                    lemma_decimal_value_grows(digits, i - start + 1);
                }
            }
            return None;
        }
        i += 1;
    }
    assert(digits.subrange(0, n - start) =~= digits);
    Some(value as u32)
}

impl Variables {
    /// What [`Variables::from_env`] makes of the four settings. The first
    /// one that is missing or ill-formed, in the order login address,
    /// refresh address, token lifetime, service name, decides the error.
    pub open spec fn from_env_spec(
        login_address: Option<String>,
        refresh_address: Option<String>,
        token_duration: Option<String>,
        service_name: Option<String>,
    ) -> Result<Variables, ConfigError> {
        if login_address is None {
            Err(ConfigError::MissingLoginAddress)
        } else if refresh_address is None {
            Err(ConfigError::MissingRefreshAddress)
        } else if token_duration is None {
            Err(ConfigError::MissingTokenDuration)
        } else if seconds_of(encode_utf8(token_duration->0@)) is None {
            Err(ConfigError::InvalidTokenDuration)
        } else if service_name is None {
            Err(ConfigError::MissingServiceName)
        } else {
            Ok(
                Variables {
                    idp_refresh_address: refresh_address->0,
                    idp_login_address: login_address->0,
                    token_duration_seconds: seconds_of(encode_utf8(token_duration->0@))->0,
                    service_name: service_name->0,
                },
            )
        }
    }

    /// Builds the settings from the values of the four environment
    /// variables, as the caller found them: `None` for one that is not set.
    /// Nothing is defaulted: a service without one of them cannot serve.
    pub fn from_env(
        login_address: Option<String>,
        refresh_address: Option<String>,
        token_duration: Option<String>,
        service_name: Option<String>,
    ) -> (r: Result<Variables, ConfigError>)
        ensures
            r == Self::from_env_spec(login_address, refresh_address, token_duration, service_name),
    {
        let idp_login_address = match login_address {
            Some(value) => value,
            None => {
                return Err(ConfigError::MissingLoginAddress);
            },
        };
        let idp_refresh_address = match refresh_address {
            Some(value) => value,
            None => {
                return Err(ConfigError::MissingRefreshAddress);
            },
        };
        let duration_text = match token_duration {
            Some(value) => value,
            None => {
                return Err(ConfigError::MissingTokenDuration);
            },
        };
        let token_duration_seconds = match parse_seconds(duration_text.as_str()) {
            Some(value) => value,
            None => {
                return Err(ConfigError::InvalidTokenDuration);
            },
        };
        let service_name = match service_name {
            Some(value) => value,
            None => {
                return Err(ConfigError::MissingServiceName);
            },
        };
        Ok(
            Variables {
                idp_refresh_address,
                idp_login_address,
                token_duration_seconds,
                service_name,
            },
        )
    }
}

} // verus!
