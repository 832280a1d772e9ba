//! Checking the settings that the process starts with.
//!
//! The settings come as text. A missing or malformed one is fatal at startup
//! and is reported as a [`ConfigError`] that names it. Reading them from the
//! environment is the caller's part.
use ethers::utils::hex::FromHexError;
use vstd::prelude::*;
use vstd::string::StringSliceAdditionalSpecFns;
use vstd::utf8::encode_utf8;

verus! {

/// The settings of the process.
#[derive(Clone, Copy, Debug, PartialEq, Eq)]
pub enum Setting {
    /// `BLOCK_INTERVAL`: blocks between two recorded checkpoints.
    BlockInterval,
    /// `RPC_URL`: endpoint of the provider.
    RpcUrl,
    /// `CONTRACT_ADDRESS`: address of the oracle, 20 bytes in hex.
    ContractAddress,
    /// `ACCESS_KEY` of the signing service.
    AccessKey,
    /// `SECRET_ACCESS_KEY` of the signing service.
    SecretAccessKey,
    /// `KEY_ID`: the key that the signing service signs with.
    KeyId,
    /// `REGION` of the signing service.
    Region,
    /// `CHAIN_ID`: the chain that transactions are signed for.
    ChainId,
}

/// A setting that keeps the process from starting.
#[derive(Clone, Copy, Debug, PartialEq, Eq)]
pub enum ConfigError {
    /// The setting is not there.
    Missing(Setting),
    /// The setting is there but cannot be used.
    Invalid(Setting),
}

/// Whether `byte` is an ASCII decimal digit.
pub open spec fn is_digit(byte: u8) -> bool {
    0x30 <= byte <= 0x39
}

/// The number that a string of decimal digits stands for.
pub open spec fn digits_value(digits: Seq<u8>) -> nat
    decreases digits.len(),
{
    if digits.len() == 0 {
        0
    } else {
        digits_value(digits.drop_last()) * 10 + (digits.last() - 0x30) as nat
    }
}

/// The digits of a decimal number: the text without a leading `+`.
pub open spec fn unsigned_part(text: Seq<u8>) -> Seq<u8> {
    if text.len() > 0 && text[0] == 0x2b {
        text.skip(1)
    } else {
        text
    }
}

/// Whether `text` is a decimal number: one digit or more, after an optional
/// `+`, and nothing else.
pub open spec fn is_decimal(text: Seq<u8>) -> bool {
    let digits = unsigned_part(text);
    digits.len() > 0 && forall|i: int| 0 <= i < digits.len() ==> is_digit(#[trigger] digits[i])
}

/// The value of `text` as a decimal number that fits 64 bits.
pub open spec fn decimal_value(text: Seq<u8>) -> Option<u64> {
    if is_decimal(text) && digits_value(unsigned_part(text)) <= u64::MAX {
        Some(digits_value(unsigned_part(text)) as u64)
    } else {
        None
    }
}

/// A number does not get smaller when digits are appended to it.
proof fn lemma_value_grows(digits: Seq<u8>, n: int)
    requires
        0 <= n <= digits.len(),
        forall|i: int| 0 <= i < digits.len() ==> is_digit(#[trigger] digits[i]),
    ensures
        digits_value(digits.take(n)) <= digits_value(digits),
    decreases digits.len() - n,
{
    if n < digits.len() {
        lemma_value_grows(digits, n + 1);
        assert(digits.take(n + 1).drop_last() =~= digits.take(n));
        assert(is_digit(digits[n]));
    } else {
        assert(digits.take(n) =~= digits);
    }
}

/// Reads a decimal number: digits only, after an optional `+`. Returns
/// `None` for any other text and for a number that does not fit 64 bits.
pub fn parse_decimal(text: &str) -> (value: Option<u64>)
    ensures
        value == decimal_value(text.spec_bytes()),
{
    let bytes = text.as_bytes();
    let start: usize = if bytes.len() > 0 && bytes[0] == 0x2b {
        1
    } else {
        0
    };
    if start == bytes.len() {
        return None;
    }
    let ghost digits = unsigned_part(bytes@);
    assert(digits =~= bytes@.skip(start as int));
    let mut value: u64 = 0;
    let mut i: usize = start;
    assert(digits.take(0) =~= Seq::<u8>::empty());
    while i < bytes.len()
        invariant
            start <= i <= bytes.len(),
            start < bytes.len(),
            bytes@ == text.spec_bytes(),
            digits == unsigned_part(bytes@),
            digits == bytes@.skip(start as int),
            forall|j: int| 0 <= j < i - start ==> is_digit(#[trigger] digits[j]),
            value == digits_value(digits.take(i - start)),
        decreases bytes.len() - i,
    {
        let byte: u8 = bytes[i];
        assert(byte == digits[i - start]);
        if byte < 0x30 || byte > 0x39 {
            assert(!is_digit(digits[i - start]));
            return None;
        }
        let digit: u64 = (byte - 0x30) as u64;
        proof {
            assert(digits.take(i - start + 1).drop_last() =~= digits.take(i - start));
            if forall|j: int| 0 <= j < digits.len() ==> is_digit(#[trigger] digits[j]) {
                lemma_value_grows(digits, i - start + 1);
            }
        }
        match value.checked_mul(10) {
            Some(tens) => match tens.checked_add(digit) {
                Some(next) => {
                    value = next;
                },
                None => {
                    return None;
                },
            },
            None => {
                return None;
            },
        }
        i += 1;
    }
    assert(digits.take(i - start) =~= digits);
    Some(value)
}

/// Reads the interval between checkpoints: a decimal number above zero.
pub fn parse_block_interval(text: &str) -> (interval: Result<u64, ConfigError>)
    ensures
        interval == match decimal_value(text.spec_bytes()) {
            Some(blocks) if blocks > 0 => Ok::<u64, ConfigError>(blocks),
            _ => Err(ConfigError::Invalid(Setting::BlockInterval)),
        },
{
    match parse_decimal(text) {
        Some(blocks) => if blocks > 0 {
            Ok(blocks)
        } else {
            Err(ConfigError::Invalid(Setting::BlockInterval))
        },
        None => Err(ConfigError::Invalid(Setting::BlockInterval)),
    }
}

/// Reads the chain id: a decimal number.
pub fn parse_chain_id(text: &str) -> (chain_id: Result<u64, ConfigError>)
    ensures
        chain_id == match decimal_value(text.spec_bytes()) {
            Some(id) => Ok::<u64, ConfigError>(id),
            None => Err(ConfigError::Invalid(Setting::ChainId)),
        },
{
    match parse_decimal(text) {
        Some(id) => Ok(id),
        None => Err(ConfigError::Invalid(Setting::ChainId)),
    }
}

/// The value of a hexadecimal digit, in either case.
pub open spec fn hex_digit(byte: u8) -> Option<u8> {
    if 0x30 <= byte <= 0x39 {
        Some((byte - 0x30) as u8)
    } else if 0x41 <= byte <= 0x46 {
        Some((byte - 0x41 + 10) as u8)
    } else if 0x61 <= byte <= 0x66 {
        Some((byte - 0x61 + 10) as u8)
    } else {
        None
    }
}

/// The digits of a hexadecimal text: the text without a leading `0x` or `0X`.
pub open spec fn hex_digits(text: Seq<u8>) -> Seq<u8> {
    if text.len() >= 2 && text[0] == 0x30 && (text[1] == 0x78 || text[1] == 0x58) {
        text.skip(2)
    } else {
        text
    }
}

/// Whether `text` is hexadecimal: of even length, and all hexadecimal digits
/// after an optional `0x` or `0X`.
pub open spec fn is_hex(text: Seq<u8>) -> bool {
    let digits = hex_digits(text);
    text.len() % 2 == 0 && forall|i: int|
        0 <= i < digits.len() ==> hex_digit(#[trigger] digits[i]) is Some
}

/// The bytes that a hexadecimal text stands for: one for each pair of digits.
pub open spec fn hex_value(text: Seq<u8>) -> Seq<u8> {
    let digits = hex_digits(text);
    Seq::new(
        (digits.len() / 2) as nat,
        |i: int| (16 * hex_digit(digits[2 * i]).unwrap() + hex_digit(digits[2 * i + 1]).unwrap()) as u8,
    )
}

/// The error of `ethers::utils::hex::decode`. Nothing is claimed of its
/// contents.
#[verifier::external_type_specification]
#[verifier::external_body]
pub struct ExFromHexError(FromHexError);

/// `ethers::utils::hex::decode`, which is `decode` of the crate `const-hex`.
/// Its contract is taken on trust.
///
/// Claimed of it: it fails if the text's length in bytes is odd; it then
/// drops a leading `0x` or `0X`; it fails if a byte of what is left is not a
/// hexadecimal digit; and else it returns one byte for each two digits, the
/// first digit being the high half.
#[verifier::external_body]
fn decode_hex(text: &str) -> (decoded: Result<Vec<u8>, FromHexError>)
    ensures
        match decoded {
            Ok(bytes) => is_hex(text.spec_bytes()) && bytes@ == hex_value(text.spec_bytes()),
            Err(_) => !is_hex(text.spec_bytes()),
        },
{
    ethers::utils::hex::decode(text)
}

/// The address that `text` stands for: twenty bytes in hexadecimal.
pub open spec fn address_value(text: Seq<u8>) -> Option<Seq<u8>> {
    if is_hex(text) && hex_value(text).len() == 20 {
        Some(hex_value(text))
    } else {
        None
    }
}

/// Reads the oracle's address: forty hexadecimal digits, with or without a
/// leading `0x`.
pub fn parse_contract_address(text: &str) -> (address: Result<[u8; 20], ConfigError>)
    ensures
        match address {
            Ok(bytes) => address_value(text.spec_bytes()) == Some(bytes@),
            Err(error) => error == ConfigError::Invalid(Setting::ContractAddress) && address_value(
                text.spec_bytes(),
            ) is None,
        },
{
    match decode_hex(text) {
        Ok(bytes) => {
            if bytes.len() != 20 {
                return Err(ConfigError::Invalid(Setting::ContractAddress));
            }
            let mut address: [u8; 20] = [0u8; 20];
            let mut i: usize = 0;
            while i < 20
                invariant
                    i <= 20,
                    bytes@.len() == 20,
                    forall|j: int| 0 <= j < i ==> address@[j] == bytes@[j],
                decreases 20 - i,
            {
                address[i] = bytes[i];
                i += 1;
            }
            assert(address@ =~= bytes@);
            Ok(address)
        },
        Err(_) => Err(ConfigError::Invalid(Setting::ContractAddress)),
    }
}

/// What the reconciliation needs to know: the interval between checkpoints,
/// the provider's endpoint and the oracle's address.
#[derive(Debug, PartialEq, Eq)]
pub struct OracleSettings {
    pub block_interval: u64,
    pub rpc_url: String,
    pub contract_address: [u8; 20],
}

/// What the signing service is set up with.
#[derive(Debug, PartialEq, Eq)]
pub struct SignerSettings {
    pub chain_id: u64,
    pub access_key: String,
    pub secret_access_key: String,
    pub key_id: String,
    pub region: String,
}

/// The bytes of a setting's text.
pub open spec fn text_of(value: String) -> Seq<u8> {
    encode_utf8(value@)
}

/// The first thing wrong with the oracle's settings, if anything is. They
/// are looked at in the order interval, endpoint, address.
pub open spec fn oracle_fault(
    block_interval: Option<String>,
    rpc_url: Option<String>,
    contract_address: Option<String>,
) -> Option<ConfigError> {
    if block_interval is None {
        Some(ConfigError::Missing(Setting::BlockInterval))
    } else if decimal_value(text_of(block_interval.unwrap())) is None || decimal_value(
        text_of(block_interval.unwrap()),
    ) == Some(0u64) {
        Some(ConfigError::Invalid(Setting::BlockInterval))
    } else if rpc_url is None {
        Some(ConfigError::Missing(Setting::RpcUrl))
    } else if contract_address is None {
        Some(ConfigError::Missing(Setting::ContractAddress))
    } else if address_value(text_of(contract_address.unwrap())) is None {
        Some(ConfigError::Invalid(Setting::ContractAddress))
    } else {
        None
    }
}

/// Checks the oracle's settings as they were read, `None` standing for one
/// that is not there. Returns the first fault, or the settings when there
/// is none.
pub fn oracle_settings(
    block_interval: Option<String>,
    rpc_url: Option<String>,
    contract_address: Option<String>,
) -> (settings: Result<OracleSettings, ConfigError>)
    ensures
        match settings {
            Ok(checked) => {
                &&& oracle_fault(block_interval, rpc_url, contract_address) is None
                &&& decimal_value(text_of(block_interval.unwrap())) == Some(checked.block_interval)
                &&& checked.rpc_url@ == rpc_url.unwrap()@
                &&& address_value(text_of(contract_address.unwrap())) == Some(
                    checked.contract_address@,
                )
            },
            Err(error) => oracle_fault(block_interval, rpc_url, contract_address) == Some(error),
        },
{
    let interval = match &block_interval {
        None => {
            return Err(ConfigError::Missing(Setting::BlockInterval));
        },
        Some(text) => match parse_block_interval(text.as_str()) {
            Ok(blocks) => blocks,
            Err(error) => {
                return Err(error);
            },
        },
    };
    let url = match rpc_url {
        None => {
            return Err(ConfigError::Missing(Setting::RpcUrl));
        },
        Some(text) => text,
    };
    let address = match &contract_address {
        None => {
            return Err(ConfigError::Missing(Setting::ContractAddress));
        },
        Some(text) => match parse_contract_address(text.as_str()) {
            Ok(bytes) => bytes,
            Err(error) => {
                return Err(error);
            },
        },
    };
    Ok(OracleSettings { block_interval: interval, rpc_url: url, contract_address: address })
}

/// The first thing wrong with the signer's settings, if anything is. All of
/// them must be there before the chain id is read.
pub open spec fn signer_fault(
    access_key: Option<String>,
    secret_access_key: Option<String>,
    key_id: Option<String>,
    region: Option<String>,
    chain_id: Option<String>,
) -> Option<ConfigError> {
    if access_key is None {
        Some(ConfigError::Missing(Setting::AccessKey))
    } else if secret_access_key is None {
        Some(ConfigError::Missing(Setting::SecretAccessKey))
    } else if key_id is None {
        Some(ConfigError::Missing(Setting::KeyId))
    } else if region is None {
        Some(ConfigError::Missing(Setting::Region))
    } else if chain_id is None {
        Some(ConfigError::Missing(Setting::ChainId))
    } else if decimal_value(text_of(chain_id.unwrap())) is None {
        Some(ConfigError::Invalid(Setting::ChainId))
    } else {
        None
    }
}

/// Checks the signer's settings as they were read, `None` standing for one
/// that is not there. Returns the first fault, or the settings when there
/// is none.
pub fn signer_settings(
    access_key: Option<String>,
    secret_access_key: Option<String>,
    key_id: Option<String>,
    region: Option<String>,
    chain_id: Option<String>,
) -> (settings: Result<SignerSettings, ConfigError>)
    ensures
        match settings {
            Ok(checked) => {
                &&& signer_fault(access_key, secret_access_key, key_id, region, chain_id) is None
                &&& checked.access_key@ == access_key.unwrap()@
                &&& checked.secret_access_key@ == secret_access_key.unwrap()@
                &&& checked.key_id@ == key_id.unwrap()@
                &&& checked.region@ == region.unwrap()@
                &&& decimal_value(text_of(chain_id.unwrap())) == Some(checked.chain_id)
            },
            Err(error) => signer_fault(access_key, secret_access_key, key_id, region, chain_id)
                == Some(error),
        },
{
    let access = match access_key {
        None => {
            return Err(ConfigError::Missing(Setting::AccessKey));
        },
        Some(text) => text,
    };
    let secret = match secret_access_key {
        None => {
            return Err(ConfigError::Missing(Setting::SecretAccessKey));
        },
        Some(text) => text,
    };
    let key = match key_id {
        None => {
            return Err(ConfigError::Missing(Setting::KeyId));
        },
        Some(text) => text,
    };
    let place = match region {
        None => {
            return Err(ConfigError::Missing(Setting::Region));
        },
        Some(text) => text,
    };
    let chain = match &chain_id {
        None => {
            return Err(ConfigError::Missing(Setting::ChainId));
        },
        Some(text) => match parse_chain_id(text.as_str()) {
            Ok(id) => id,
            Err(error) => {
                return Err(error);
            },
        },
    };
    Ok(
        SignerSettings {
            chain_id: chain,
            access_key: access,
            secret_access_key: secret,
            key_id: key,
            region: place,
        },
    )
}

} // verus!
