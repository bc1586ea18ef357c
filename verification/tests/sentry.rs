use std::collections::HashMap;

use adex_validator_stack::domain::DomainError;
use adex_validator_stack::ids::{Address, ValidatorId};
use adex_validator_stack::big_num::BigNum;
use adex_validator_stack::sentry::{AggregateEvents, ChannelReport, Earner, Event, PublisherReport};

fn publisher() -> ValidatorId {
    ValidatorId::from(&Address([9; 20]))
}

#[test]
fn click_and_impression_events() {
    let click = Event::Click { publisher: publisher(), ad_unit: None, ad_slot: None, referrer: None };
    let impression = Event::Impression {
        publisher: publisher(),
        ad_unit: Some("unit".to_string()),
        ad_slot: None,
        referrer: None,
    };
    assert!(click.is_click_event());
    assert!(!click.is_impression_event());
    assert!(impression.is_impression_event());
    assert!(!impression.is_click_event());
    let commission = Event::ImpressionWithCommission {
        earners: vec![Earner { address: "0x1".to_string(), promilles: 5 }],
    };
    assert!(!commission.is_impression_event());
    assert!(!Event::Close.is_click_event());
}

#[test]
fn event_type_names() {
    let click = Event::Click { publisher: publisher(), ad_unit: None, ad_slot: None, referrer: None };
    let impression = Event::Impression { publisher: publisher(), ad_unit: None, ad_slot: None, referrer: None };
    assert_eq!(impression.to_string(), "IMPRESSION");
    assert_eq!(click.to_string(), "CLICK");
    assert_eq!(Event::ImpressionWithCommission { earners: vec![] }.to_string(), "IMPRESSION_WITH_COMMMISION");
    assert_eq!(Event::UpdateImpressionPrice { price: BigNum::from_u64(10) }.to_string(), "UPDATE_IMPRESSION_PRICE");
    assert_eq!(Event::Pay { outputs: HashMap::new() }.to_string(), "PAY");
    assert_eq!(Event::PauseChannel.to_string(), "PAUSE_CHANNEL");
    assert_eq!(Event::Close.to_string(), "CLOSE");
}

#[test]
fn report_names() {
    assert_eq!(PublisherReport::AdUnit.to_string(), "reportPublisherToAdUnit");
    assert_eq!(PublisherReport::AdSlot.to_string(), "reportPublisherToAdSlot");
    assert_eq!(PublisherReport::AdSlotPay.to_string(), "reportPublisherToAdSlotPay");
    assert_eq!(PublisherReport::Country.to_string(), "reportPublisherToCountry");
    assert_eq!(PublisherReport::Hostname.to_string(), "reportPublisherToHostname");
    assert_eq!(ChannelReport::AdUnit.to_string(), "reportPublisherToAdUnit");
    assert_eq!(ChannelReport::Hostname.to_string(), "reportChannelToHostname");
    assert_eq!(ChannelReport::HostnamePay.to_string(), "reportChannelToHostnamePay");
}

#[test]
fn domain_error_text_is_its_message() {
    assert_eq!(DomainError::InvalidArgument("bad argument".to_string()).to_string(), "bad argument");
    assert_eq!(DomainError::RuleViolation("broken rule".to_string()).to_string(), "broken rule");
}

#[test]
fn aggregate_events_default_is_empty() {
    let aggregate = AggregateEvents::default();
    assert!(aggregate.event_counts.is_none());
    assert!(aggregate.event_payouts.is_empty());
}

#[test]
fn big_num_text() {
    assert_eq!(BigNum::from_u64(0).to_string(), "0");
    assert_eq!(BigNum::from_u64(1_000).to_string(), "1000");
    assert_eq!(BigNum::from_u64(u64::MAX).to_string(), u64::MAX.to_string());
    let huge = "340282366920938463463374607431768211456000";
    assert_eq!(BigNum::parse(huge).unwrap().to_string(), huge);
    assert_eq!(BigNum::parse("000042"), Some(BigNum::from_u64(42)));
    assert_eq!(BigNum::parse("0000").unwrap().to_string(), "0");
    assert_eq!(BigNum::parse(""), None);
    assert_eq!(BigNum::parse("12a"), None);
    assert_eq!(BigNum::parse("-1"), None);
    assert_eq!(BigNum::from_u64(7).clone(), BigNum::from_u64(7));
}
