use fankor_macros::config::{
    ConfigError, FankorAccountsConfig, FankorConfig, FankorInstructionsConfig, FankorProgramConfig,
};
use fankor_macros::pubkey::{
    default_pubkey_string, is_on_curve, parse_pubkey, parse_pubkey_text, pubkey_from_decoded,
    PubkeyError, PubkeyParseError,
};

const SYSTEM_PROGRAM: &str = "11111111111111111111111111111111";
const TOKEN_PROGRAM: &str = "TokenkegQfeZyiNwAJbNbGKPFXCWuBvf9Ss623VQ5DA";

#[test]
fn default_pubkey_is_thirty_two_ones() {
    assert_eq!(default_pubkey_string(), "1".repeat(32));
    assert_eq!(FankorProgramConfig::default().pubkey, SYSTEM_PROGRAM);
    assert_eq!(FankorConfig::default().program.pubkey, SYSTEM_PROGRAM);
}

#[test]
fn parse_pubkey_decodes_base58() {
    assert_eq!(parse_pubkey(SYSTEM_PROGRAM), Ok([0u8; 32]));
    let token = parse_pubkey(TOKEN_PROGRAM).unwrap();
    assert_eq!(token[0], 6);
    assert_eq!(token[31], 169);
}

#[test]
fn parse_pubkey_refuses_non_base58() {
    assert_eq!(parse_pubkey("0OIl"), Err(PubkeyError::DecodeFailed));
}

#[test]
fn parse_pubkey_refuses_wrong_length() {
    assert_eq!(parse_pubkey("1"), Err(PubkeyError::WrongLength(1)));
    assert_eq!(parse_pubkey(""), Err(PubkeyError::WrongLength(0)));
}

#[test]
fn pubkey_from_decoded_cases() {
    assert_eq!(pubkey_from_decoded(None), Err(PubkeyError::DecodeFailed));
    assert_eq!(pubkey_from_decoded(Some(vec![1, 2, 3])), Err(PubkeyError::WrongLength(3)));
    let mut bytes = vec![0u8; 32];
    bytes[5] = 9;
    let mut expected = [0u8; 32];
    expected[5] = 9;
    assert_eq!(pubkey_from_decoded(Some(bytes)), Ok(expected));
}

#[test]
fn parse_pubkey_text_follows_from_str() {
    assert_eq!(parse_pubkey_text(SYSTEM_PROGRAM), Ok([0u8; 32]));
    assert_eq!(parse_pubkey_text(&"1".repeat(45)), Err(PubkeyParseError::WrongSize));
    assert_eq!(parse_pubkey_text("0"), Err(PubkeyParseError::Invalid));
    assert_eq!(parse_pubkey_text("1"), Err(PubkeyParseError::WrongSize));
}

#[test]
fn curve_membership() {
    assert!(is_on_curve([0u8; 32]));
    let token = parse_pubkey(TOKEN_PROGRAM).unwrap();
    assert!(is_on_curve(token));
}

#[test]
fn program_config_checks_the_key() {
    assert_eq!(FankorProgramConfig::default().check(), Ok(()));
    assert_eq!(FankorProgramConfig::default().try_validate(), Ok(()));
    let bad = FankorProgramConfig { pubkey: "not a key".to_string() };
    assert_eq!(bad.check(), Err(ConfigError::InvalidPubkey));
    assert_eq!(FankorConfig { program: bad }.try_validate(), Err(ConfigError::InvalidPubkey));
    assert_eq!(FankorConfig::default().try_validate(), Ok(()));
    FankorConfig::default().validate();
}

#[test]
fn accounts_config_checks_the_size() {
    let config = FankorAccountsConfig::default();
    assert_eq!(config.discriminator_size, 1);
    assert!(config.discriminators.is_empty());
    assert_eq!(config.check(), Ok(()));
    config.validate();
    let zero = FankorAccountsConfig { discriminator_size: 0, discriminators: Vec::new() };
    assert_eq!(zero.check(), Err(ConfigError::DiscriminatorSizeTooSmall));
    let large = FankorAccountsConfig { discriminator_size: 33, discriminators: Vec::new() };
    assert_eq!(large.check(), Err(ConfigError::DiscriminatorSizeTooLarge));
    let largest = FankorAccountsConfig { discriminator_size: 32, discriminators: Vec::new() };
    assert_eq!(largest.check(), Ok(()));
}

#[test]
fn accounts_config_looks_up_discriminators() {
    let config = FankorAccountsConfig {
        discriminator_size: 2,
        discriminators: vec![
            ("Short".to_string(), vec![3]),
            ("Vault".to_string(), vec![1, 2]),
        ],
    };
    assert_eq!(config.find_discriminator("Vault"), Ok(vec![1, 2]));
    assert_eq!(config.get_discriminator("Vault"), vec![1, 2]);
    assert_eq!(config.find_discriminator("Short"), Err(ConfigError::WrongDiscriminatorSize));
    assert_eq!(config.find_discriminator("Other"), Err(ConfigError::MissingDiscriminator));
}

#[test]
fn instructions_config_checks_and_looks_up() {
    let config = FankorInstructionsConfig::default();
    assert_eq!(config.discriminator_size, 1);
    assert_eq!(config.check(), Ok(()));
    config.validate();
    let config = FankorInstructionsConfig {
        discriminator_size: 1,
        discriminators: vec![("Deposit".to_string(), vec![7])],
    };
    assert_eq!(config.find_discriminator("Deposit"), Ok(vec![7]));
    assert_eq!(config.get_discriminator("Deposit"), vec![7]);
    assert_eq!(config.find_discriminator("Withdraw"), Err(ConfigError::MissingDiscriminator));
    let zero = FankorInstructionsConfig { discriminator_size: 0, discriminators: Vec::new() };
    assert_eq!(zero.check(), Err(ConfigError::DiscriminatorSizeTooSmall));
    let large = FankorInstructionsConfig { discriminator_size: 40, discriminators: Vec::new() };
    assert_eq!(large.check(), Err(ConfigError::DiscriminatorSizeTooLarge));
}

#[test]
fn program_key_off_the_curve_is_refused() {
    let mut found = false;
    for b in 0u8..=255 {
        let bytes = [b; 32];
        if !is_on_curve(bytes) {
            let text = bs58::encode(bytes).into_string();
            assert_eq!(parse_pubkey(&text), Ok(bytes));
            let config = FankorProgramConfig { pubkey: text };
            assert_eq!(config.check(), Err(ConfigError::PubkeyNotOnCurve));
            found = true;
            break;
        }
    }
    assert!(found);
}
