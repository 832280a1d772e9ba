use oracle_sync::config::{
    oracle_settings, parse_block_interval, parse_chain_id, parse_contract_address, parse_decimal,
    signer_settings, ConfigError, OracleSettings, Setting, SignerSettings,
};

fn text(value: &str) -> Option<String> {
    Some(value.to_string())
}

const ADDRESS: [u8; 20] = [
    0x00, 0x11, 0x22, 0x33, 0x44, 0x55, 0x66, 0x77, 0x88, 0x99, 0xaa, 0xbb, 0xcc, 0xdd, 0xee, 0xff,
    0x01, 0x23, 0x45, 0x67,
];

#[test]
fn decimal_digits_are_read() {
    assert_eq!(parse_decimal("0"), Some(0));
    assert_eq!(parse_decimal("7"), Some(7));
    assert_eq!(parse_decimal("500"), Some(500));
    assert_eq!(parse_decimal("007"), Some(7));
    assert_eq!(parse_decimal("1234567890"), Some(1_234_567_890));
}

#[test]
fn decimal_may_start_with_a_plus() {
    assert_eq!(parse_decimal("+5"), Some(5));
    assert_eq!(parse_decimal("+0"), Some(0));
    assert_eq!(parse_decimal("+"), None);
    assert_eq!(parse_decimal("++5"), None);
    assert_eq!(parse_decimal("5+"), None);
}

#[test]
fn decimal_rejects_anything_but_digits() {
    for bad in ["", " ", "-1", "-0", "1 ", " 1", "1_000", "0x10", "12a", "a12", "1.5", "٣", "1\n"] {
        assert_eq!(parse_decimal(bad), None, "text {:?}", bad);
    }
}

#[test]
fn decimal_stops_at_sixty_four_bits() {
    assert_eq!(parse_decimal("18446744073709551615"), Some(u64::MAX));
    assert_eq!(parse_decimal("18446744073709551616"), None);
    assert_eq!(parse_decimal("18446744073709551620"), None);
    assert_eq!(parse_decimal("99999999999999999999"), None);
    assert_eq!(parse_decimal("100000000000000000000000000"), None);
    assert_eq!(parse_decimal("000000000000000000000000018446744073709551615"), Some(u64::MAX));
}

#[test]
fn decimal_agrees_with_the_standard_parser() {
    for sample in ["0", "+12", "12", "", "+", "-3", "4294967296", "18446744073709551616", "1e3"] {
        assert_eq!(parse_decimal(sample), sample.parse::<u64>().ok(), "text {:?}", sample);
    }
}

#[test]
fn block_interval_is_a_positive_number() {
    assert_eq!(parse_block_interval("500"), Ok(500));
    assert_eq!(parse_block_interval("1"), Ok(1));
    assert_eq!(parse_block_interval("0"), Err(ConfigError::Invalid(Setting::BlockInterval)));
    assert_eq!(parse_block_interval("+0"), Err(ConfigError::Invalid(Setting::BlockInterval)));
    assert_eq!(parse_block_interval(""), Err(ConfigError::Invalid(Setting::BlockInterval)));
    assert_eq!(parse_block_interval("five"), Err(ConfigError::Invalid(Setting::BlockInterval)));
    assert_eq!(parse_block_interval("-500"), Err(ConfigError::Invalid(Setting::BlockInterval)));
}

#[test]
fn chain_id_is_a_number() {
    assert_eq!(parse_chain_id("5"), Ok(5));
    assert_eq!(parse_chain_id("0"), Ok(0));
    assert_eq!(parse_chain_id("goerli"), Err(ConfigError::Invalid(Setting::ChainId)));
    assert_eq!(parse_chain_id(""), Err(ConfigError::Invalid(Setting::ChainId)));
}

#[test]
fn address_is_forty_hex_digits() {
    assert_eq!(parse_contract_address("00112233445566778899aabbccddeeff01234567"), Ok(ADDRESS));
    assert_eq!(parse_contract_address("00112233445566778899AABBCCDDEEFF01234567"), Ok(ADDRESS));
    assert_eq!(parse_contract_address("00112233445566778899aAbBcCdDeEfF01234567"), Ok(ADDRESS));
}

#[test]
fn address_may_carry_a_prefix() {
    assert_eq!(parse_contract_address("0x00112233445566778899aabbccddeeff01234567"), Ok(ADDRESS));
    assert_eq!(parse_contract_address("0X00112233445566778899aabbccddeeff01234567"), Ok(ADDRESS));
}

#[test]
fn address_is_decoded_not_copied() {
    // The text holds forty bytes and the address twenty: each pair of
    // digits gives one byte, high half first.
    let address = parse_contract_address("f0e1d2c3b4a5968778695a4b3c2d1e0f10203040").unwrap();
    assert_eq!(
        address,
        [
            0xf0, 0xe1, 0xd2, 0xc3, 0xb4, 0xa5, 0x96, 0x87, 0x78, 0x69, 0x5a, 0x4b, 0x3c, 0x2d,
            0x1e, 0x0f, 0x10, 0x20, 0x30, 0x40
        ]
    );
}

#[test]
fn address_of_another_length_is_invalid() {
    let invalid = Err(ConfigError::Invalid(Setting::ContractAddress));
    assert_eq!(parse_contract_address(""), invalid);
    assert_eq!(parse_contract_address("0x"), invalid);
    assert_eq!(parse_contract_address("00112233445566778899aabbccddeeff012345"), invalid);
    assert_eq!(parse_contract_address("00112233445566778899aabbccddeeff0123456789"), invalid);
    assert_eq!(parse_contract_address("0x112233445566778899aabbccddeeff01234567"), invalid);
    assert_eq!(parse_contract_address("00112233445566778899aabbccddeeff0123456"), invalid);
}

#[test]
fn address_with_other_characters_is_invalid() {
    let invalid = Err(ConfigError::Invalid(Setting::ContractAddress));
    assert_eq!(parse_contract_address("00112233445566778899aabbccddeeff0123456g"), invalid);
    assert_eq!(parse_contract_address("0x0x112233445566778899aabbccddeeff01234567"), invalid);
    assert_eq!(parse_contract_address(" 0112233445566778899aabbccddeeff01234567"), invalid);
    assert_eq!(parse_contract_address("x000112233445566778899aabbccddeeff012345"), invalid);
    assert_eq!(parse_contract_address("é0112233445566778899aabbccddeeff0123456"), invalid);
}

#[test]
fn oracle_settings_are_checked() {
    let settings = oracle_settings(
        text("500"),
        text("http://localhost:8545"),
        text("0x00112233445566778899aabbccddeeff01234567"),
    );
    assert_eq!(
        settings,
        Ok(OracleSettings {
            block_interval: 500,
            rpc_url: "http://localhost:8545".to_string(),
            contract_address: ADDRESS,
        })
    );
}

#[test]
fn oracle_settings_report_the_first_fault() {
    let address = "00112233445566778899aabbccddeeff01234567";
    assert_eq!(
        oracle_settings(None, None, None),
        Err(ConfigError::Missing(Setting::BlockInterval))
    );
    assert_eq!(
        oracle_settings(text("0"), None, None),
        Err(ConfigError::Invalid(Setting::BlockInterval))
    );
    assert_eq!(
        oracle_settings(text("x"), text("http://node"), text(address)),
        Err(ConfigError::Invalid(Setting::BlockInterval))
    );
    assert_eq!(
        oracle_settings(text("500"), None, text("zz")),
        Err(ConfigError::Missing(Setting::RpcUrl))
    );
    assert_eq!(
        oracle_settings(text("500"), text("http://node"), None),
        Err(ConfigError::Missing(Setting::ContractAddress))
    );
    assert_eq!(
        oracle_settings(text("500"), text("http://node"), text("zz")),
        Err(ConfigError::Invalid(Setting::ContractAddress))
    );
}

#[test]
fn signer_settings_are_checked() {
    let settings =
        signer_settings(text("access"), text("secret"), text("key"), text("us-east-1"), text("5"));
    assert_eq!(
        settings,
        Ok(SignerSettings {
            chain_id: 5,
            access_key: "access".to_string(),
            secret_access_key: "secret".to_string(),
            key_id: "key".to_string(),
            region: "us-east-1".to_string(),
        })
    );
}

#[test]
fn signer_settings_report_the_first_fault() {
    assert_eq!(
        signer_settings(None, None, None, None, None),
        Err(ConfigError::Missing(Setting::AccessKey))
    );
    assert_eq!(
        signer_settings(text("a"), None, None, None, text("x")),
        Err(ConfigError::Missing(Setting::SecretAccessKey))
    );
    assert_eq!(
        signer_settings(text("a"), text("s"), None, None, text("x")),
        Err(ConfigError::Missing(Setting::KeyId))
    );
    assert_eq!(
        signer_settings(text("a"), text("s"), text("k"), None, text("x")),
        Err(ConfigError::Missing(Setting::Region))
    );
    assert_eq!(
        signer_settings(text("a"), text("s"), text("k"), text("r"), None),
        Err(ConfigError::Missing(Setting::ChainId))
    );
    assert_eq!(
        signer_settings(text("a"), text("s"), text("k"), text("r"), text("x")),
        Err(ConfigError::Invalid(Setting::ChainId))
    );
}

#[test]
fn empty_texts_are_present_settings() {
    let settings = signer_settings(text(""), text(""), text(""), text(""), text("1"));
    assert_eq!(settings.map(|checked| checked.chain_id), Ok(1));
}
