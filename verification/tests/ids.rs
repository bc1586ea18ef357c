use adex_validator_stack::checksum::{checksum_with_digest, ToETHChecksum};
use adex_validator_stack::hex_text::{parse_fixed_hex, without_hex_prefix, IdParseError};
use adex_validator_stack::ids::{prefixed_hex_string, Address, CampaignId, ChannelId, ValidatorId};

#[test]
fn address_parses_with_and_without_prefix() {
    let with = Address::parse("0x5a04A8fB90242fB7E1db7d1F51e268A03b7f93A5").unwrap();
    let without = Address::parse("5a04a8fb90242fb7e1db7d1f51e268a03b7f93a5").unwrap();
    assert_eq!(with, without);
    assert_eq!(with.0[0], 0x5a);
    assert_eq!(with.0[1], 0x04);
    assert_eq!(with.0[19], 0xa5);
}

#[test]
fn address_parse_errors() {
    assert_eq!(Address::parse("0x5a04"), Err(IdParseError::InvalidLength));
    assert_eq!(Address::parse("0x5a0"), Err(IdParseError::InvalidHex));
    assert_eq!(
        Address::parse("0xZZ04A8fB90242fB7E1db7d1F51e268A03b7f93A5"),
        Err(IdParseError::InvalidHex)
    );
    assert_eq!(Address::parse(""), Err(IdParseError::InvalidLength));
}

#[test]
fn address_hex_text_reads_back() {
    let address = Address([7u8; 20]);
    let text = address.to_hex();
    assert_eq!(text, "0x0707070707070707070707070707070707070707");
    assert_eq!(Address::parse(&text), Ok(address));
}

#[test]
fn checksum_matches_eip55_vectors() {
    for text in [
        "0x5aAeb6053F3E94C9b9A09f33669435E7Ef1BeAed",
        "0xfB6916095ca1df60bB79Ce92cE3Ea74c37c5d359",
        "0xdbF03B407c01E7cD3CBea99509d93f8DDDC8C6FB",
        "0xD1220A0cf47c7B9Be7A2E6BA89F429762e7b9aDb",
    ] {
        let address = Address::parse(&text.to_lowercase()).unwrap();
        assert_eq!(address.to_checksum(), text);
        assert_eq!(address.0.to_checksum(), text);
        assert_eq!(ValidatorId::from(&address).to_checksum(), text);
        assert_eq!(Address::parse(text), Ok(address));
    }
}

#[test]
fn validator_id_from_address() {
    let address = Address::parse("0x2bDeAFAE53940669DaA6F519373f686c1f3d3393").unwrap();
    let id = ValidatorId::from(&address);
    assert_eq!(id.address(), &address);
    assert_eq!(ValidatorId::parse("0x2bDeAFAE53940669DaA6F519373f686c1f3d3393"), Ok(id));
}

#[test]
fn channel_and_campaign_ids_read_back() {
    let channel = ChannelId([0xab; 32]);
    let text = channel.to_string();
    assert_eq!(text.len(), 66);
    assert!(text.starts_with("0xabab"));
    assert_eq!(ChannelId::parse(&text), Ok(channel));

    let campaign = CampaignId([1, 2, 3, 4, 5, 6, 7, 8, 9, 10, 11, 12, 13, 14, 15, 16]);
    let text = campaign.to_string();
    assert_eq!(text, "0x0102030405060708090a0b0c0d0e0f10");
    assert_eq!(CampaignId::parse(&text), Ok(campaign));
    assert_eq!(CampaignId::parse("0x0102"), Err(IdParseError::InvalidLength));
}

#[test]
fn hex_helpers() {
    assert_eq!(without_hex_prefix("0xabc"), "abc");
    assert_eq!(without_hex_prefix("abc"), "abc");
    assert_eq!(without_hex_prefix("0"), "0");
    assert_eq!(parse_fixed_hex("0xABcd", 2), Ok(vec![0xab, 0xcd]));
    assert_eq!(parse_fixed_hex("ABcd", 3), Err(IdParseError::InvalidLength));
    assert_eq!(prefixed_hex_string(&[0, 255, 16]), "0x00ff10");
}

#[test]
fn checksum_case_follows_digest_nibbles() {
    let address = [0xab; 20];
    assert_eq!(checksum_with_digest(&address, &[0x00; 32]), format!("0x{}", "ab".repeat(20)));
    assert_eq!(checksum_with_digest(&address, &[0xff; 32]), format!("0x{}", "AB".repeat(20)));
    assert_eq!(checksum_with_digest(&address, &[0x80; 32]), format!("0x{}", "Ab".repeat(20)));
    assert_eq!(checksum_with_digest(&[0x12; 20], &[0xff; 32]), format!("0x{}", "12".repeat(20)));
}
