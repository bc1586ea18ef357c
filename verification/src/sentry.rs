//! Events, reports and response bodies exchanged with a sentry.

use std::collections::HashMap;
use vstd::prelude::*;

use crate::big_num::BigNum;
use crate::channel::Channel;
use crate::ids::ValidatorId;

verus! {

/// An earner of an impression with commission, and its share in promilles.
#[derive(Clone, Debug, PartialEq, Eq)]
pub struct Earner {
    pub address: String,
    pub promilles: u64,
}

/// An event that a channel's sentry receives.
#[derive(Clone, Debug)]
pub enum Event {
    Impression {
        publisher: ValidatorId,
        ad_unit: Option<String>,
        ad_slot: Option<String>,
        referrer: Option<String>,
    },
    Click {
        publisher: ValidatorId,
        ad_unit: Option<String>,
        ad_slot: Option<String>,
        referrer: Option<String>,
    },
    ImpressionWithCommission { earners: Vec<Earner> },
    /// Only the creator can send this event.
    UpdateImpressionPrice { price: BigNum },
    /// Only the creator can send this event.
    Pay { outputs: HashMap<String, BigNum> },
    /// Only the creator can send this event.
    PauseChannel,
    /// Only the creator can send this event.
    Close,
}

/// The type name of an event, as sentries write it.
pub open spec fn event_type_name(event: Event) -> Seq<char> {
    match event {
        Event::Impression { .. } => "IMPRESSION"@,
        Event::Click { .. } => "CLICK"@,
        Event::ImpressionWithCommission { .. } => "IMPRESSION_WITH_COMMMISION"@,
        Event::UpdateImpressionPrice { .. } => "UPDATE_IMPRESSION_PRICE"@,
        Event::Pay { .. } => "PAY"@,
        Event::PauseChannel => "PAUSE_CHANNEL"@,
        Event::Close => "CLOSE"@,
    }
}

impl Event {
    /// Whether this is a click.
    pub fn is_click_event(&self) -> (click: bool)
        ensures
            click == (*self is Click),
    {
        match *self {
            Event::Click { .. } => true,
            _ => false,
        }
    }

    /// Whether this is an impression (one without commission).
    pub fn is_impression_event(&self) -> (impression: bool)
        ensures
            impression == (*self is Impression),
    {
        match *self {
            Event::Impression { .. } => true,
            _ => false,
        }
    }

    /// The type name of the event.
    pub fn to_string(&self) -> (text: String)
        ensures
            text@ == event_type_name(*self),
    {
        match *self {
            Event::Impression { .. } => String::from_str("IMPRESSION"),
            Event::Click { .. } => String::from_str("CLICK"),
            Event::ImpressionWithCommission { .. } => String::from_str(
                "IMPRESSION_WITH_COMMMISION",
            ),
            Event::UpdateImpressionPrice { .. } => String::from_str("UPDATE_IMPRESSION_PRICE"),
            Event::Pay { .. } => String::from_str("PAY"),
            Event::PauseChannel => String::from_str("PAUSE_CHANNEL"),
            Event::Close => String::from_str("CLOSE"),
        }
    }
}

/// Event counts and payouts of one event type, per publisher.
#[derive(Clone, Debug)]
pub struct AggregateEvents {
    pub event_counts: Option<HashMap<ValidatorId, BigNum>>,
    pub event_payouts: HashMap<ValidatorId, BigNum>,
}

impl Default for AggregateEvents {
    fn default() -> (aggregate: AggregateEvents)
        ensures
            aggregate.event_counts is None,
            aggregate.event_payouts@ == Map::<ValidatorId, BigNum>::empty(),
    {
        AggregateEvents { event_counts: None, event_payouts: HashMap::new() }
    }
}

/// One page of the channel list.
#[derive(Clone, Debug)]
pub struct ChannelListResponse {
    pub channels: Vec<Channel>,
    pub total_pages: u64,
}

/// Whether a request succeeded.
#[derive(Clone, Copy, Debug, PartialEq, Eq, Structural)]
pub struct SuccessResponse {
    pub success: bool,
}

/// The body of a response to a request that failed validation.
#[derive(Clone, Debug, PartialEq, Eq)]
pub struct ValidationErrorResponse {
    pub status_code: u64,
    pub message: String,
    pub validation: Vec<String>,
}

/// The publisher reports of the advanced analytics.
#[derive(Clone, Copy, Debug, PartialEq, Eq, Hash, Structural)]
pub enum PublisherReport {
    AdUnit,
    AdSlot,
    AdSlotPay,
    Country,
    Hostname,
}

/// The name under which a publisher report is stored.
pub open spec fn publisher_report_name(report: PublisherReport) -> Seq<char> {
    match report {
        PublisherReport::AdUnit => "reportPublisherToAdUnit"@,
        PublisherReport::AdSlot => "reportPublisherToAdSlot"@,
        PublisherReport::AdSlotPay => "reportPublisherToAdSlotPay"@,
        PublisherReport::Country => "reportPublisherToCountry"@,
        PublisherReport::Hostname => "reportPublisherToHostname"@,
    }
}

impl PublisherReport {
    /// The name under which the report is stored.
    pub fn to_string(&self) -> (text: String)
        ensures
            text@ == publisher_report_name(*self),
    {
        match *self {
            PublisherReport::AdUnit => String::from_str("reportPublisherToAdUnit"),
            PublisherReport::AdSlot => String::from_str("reportPublisherToAdSlot"),
            PublisherReport::AdSlotPay => String::from_str("reportPublisherToAdSlotPay"),
            PublisherReport::Country => String::from_str("reportPublisherToCountry"),
            PublisherReport::Hostname => String::from_str("reportPublisherToHostname"),
        }
    }
}

/// The channel reports of the advanced analytics.
#[derive(Clone, Copy, Debug, PartialEq, Eq, Hash, Structural)]
pub enum ChannelReport {
    AdUnit,
    Hostname,
    HostnamePay,
}

/// The name under which a channel report is stored.
pub open spec fn channel_report_name(report: ChannelReport) -> Seq<char> {
    match report {
        ChannelReport::AdUnit => "reportPublisherToAdUnit"@,
        ChannelReport::Hostname => "reportChannelToHostname"@,
        ChannelReport::HostnamePay => "reportChannelToHostnamePay"@,
    }
}

impl ChannelReport {
    /// The name under which the report is stored.
    pub fn to_string(&self) -> (text: String)
        ensures
            text@ == channel_report_name(*self),
    {
        match *self {
            ChannelReport::AdUnit => String::from_str("reportPublisherToAdUnit"),
            ChannelReport::Hostname => String::from_str("reportChannelToHostname"),
            ChannelReport::HostnamePay => String::from_str("reportChannelToHostnamePay"),
        }
    }
}

} // verus!
