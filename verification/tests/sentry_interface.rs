use adex_validator_stack::channel::{Channel, Nonce};
use adex_validator_stack::ids::{Address, ChannelId, ValidatorId};
use adex_validator_stack::sentry_interface::{
    accounting_path, all_spenders_path, channel_list_url, concat_pages, event_aggregates_path,
    last_approved_path, last_msgs_path, latest_msg_path, pages_to_fetch, validator_messages_path,
    first_message, whoami_entry, ApiUrl, Validator, Validators,
};

fn validator(url: &str, token: &str) -> Validator {
    Validator { url: ApiUrl(url.to_string()), token: token.to_string() }
}

fn id(byte: u8) -> ValidatorId {
    ValidatorId::from(&Address([byte; 20]))
}

#[test]
fn validators_insert_get_and_replace() {
    let mut validators = Validators::new();
    assert_eq!(validators.len(), 0);
    validators.insert(id(1), validator("http://leader/", "a"));
    validators.insert(id(2), validator("http://follower/", "b"));
    assert_eq!(validators.len(), 2);
    assert_eq!(validators.get(&id(1)), Some(&validator("http://leader/", "a")));
    validators.insert(id(1), validator("http://leader-2/", "c"));
    assert_eq!(validators.len(), 2);
    assert_eq!(validators.get(&id(1)), Some(&validator("http://leader-2/", "c")));
    assert_eq!(validators.get(&id(3)), None);
    let ids: Vec<ValidatorId> = validators.entries().iter().map(|(id, _)| *id).collect();
    assert_eq!(ids, vec![id(1), id(2)]);
    assert_eq!(validators.entries().len(), validators.len());
}

#[test]
fn whoami_missing_names_channel_and_validator() {
    let channel = Channel {
        leader: id(1),
        follower: id(2),
        guardian: Address([3; 20]),
        token: Address([4; 20]),
        nonce: Nonce::from(1u32),
    };
    let mut validators = Validators::new();
    validators.insert(id(1), validator("http://leader/", "a"));
    assert_eq!(whoami_entry(&validators, &id(1), &channel), Ok(&validator("http://leader/", "a")));
    let missing = whoami_entry(&validators, &id(2), &channel).unwrap_err();
    assert_eq!(missing.whoami, id(2));
    assert_eq!(missing.channel, channel.id());
}

#[test]
fn request_paths() {
    let from = ValidatorId::from(&Address::parse("0x5aaeb6053f3e94c9b9a09f33669435e7ef1beaed").unwrap());
    assert_eq!(
        latest_msg_path(&from, &["NewState", "ApproveState"]),
        "/validator-messages/0x5aAeb6053F3E94C9b9A09f33669435E7Ef1BeAed/NewState+ApproveState?limit=1"
    );
    assert_eq!(
        latest_msg_path(&from, &["Heartbeat"]),
        "/validator-messages/0x5aAeb6053F3E94C9b9A09f33669435E7Ef1BeAed/Heartbeat?limit=1"
    );
    assert_eq!(latest_msg_path(&from, &[]), "/validator-messages/0x5aAeb6053F3E94C9b9A09f33669435E7Ef1BeAed/?limit=1");
    let channel = ChannelId([0x11; 32]);
    let hex = "0x".to_string() + &"11".repeat(32);
    assert_eq!(last_approved_path(&channel), format!("v5/channel/{}/last-approved", hex));
    assert_eq!(all_spenders_path(&channel), format!("v5/channel/{}/spender/all", hex));
    assert_eq!(accounting_path(&channel), format!("v5/channel/{}/accounting", hex));
    assert_eq!(validator_messages_path(&channel), format!("v5/channel/{}/validator-messages", hex));
    assert_eq!(last_msgs_path(), "last-approved?withHeartbeat=true");
}

#[test]
fn event_aggregates_path_writes_signed_millis() {
    assert_eq!(event_aggregates_path(0), "events-aggregates?after=0");
    assert_eq!(event_aggregates_path(1_600_000_000_123), "events-aggregates?after=1600000000123");
    assert_eq!(event_aggregates_path(-42), "events-aggregates?after=-42");
    assert_eq!(event_aggregates_path(i64::MIN), format!("events-aggregates?after={}", i64::MIN));
    assert_eq!(event_aggregates_path(i64::MAX), format!("events-aggregates?after={}", i64::MAX));
}

#[test]
fn channel_list_url_names_page_and_validator() {
    let validator = ValidatorId::from(&Address::parse("0xfb6916095ca1df60bb79ce92ce3ea74c37c5d359").unwrap());
    assert_eq!(
        channel_list_url("http://localhost:8005", 3, &validator),
        "http://localhost:8005/channel/list?page=3&validator=0xfB6916095ca1df60bB79Ce92cE3Ea74c37c5d359"
    );
    assert_eq!(
        channel_list_url("http://s", u64::MAX, &validator),
        format!("http://s/channel/list?page={}&validator=0xfB6916095ca1df60bB79Ce92cE3Ea74c37c5d359", u64::MAX)
    );
}

#[test]
fn pages_after_the_first() {
    assert_eq!(pages_to_fetch(0), Vec::<u64>::new());
    assert_eq!(pages_to_fetch(1), Vec::<u64>::new());
    assert_eq!(pages_to_fetch(2), vec![1]);
    assert_eq!(pages_to_fetch(4), vec![1, 2, 3]);
}

#[test]
fn pages_are_concatenated_in_order() {
    assert_eq!(concat_pages(vec![1, 2], vec![]), vec![1, 2]);
    assert_eq!(concat_pages(vec![1, 2], vec![vec![3], vec![], vec![4, 5]]), vec![1, 2, 3, 4, 5]);
    assert_eq!(concat_pages(Vec::<u8>::new(), vec![vec![7]]), vec![7]);
}

#[test]
fn entries_keep_insertion_order() {
    let mut validators = Validators::new();
    validators.insert(id(3), validator("http://c/", "c"));
    validators.insert(id(1), validator("http://a/", "a"));
    validators.insert(id(3), validator("http://c2/", "c2"));
    validators.insert(id(2), validator("http://b/", "b"));
    let ids: Vec<ValidatorId> = validators.entries().iter().map(|(id, _)| *id).collect();
    assert_eq!(ids, vec![id(3), id(1), id(2)]);
}

#[test]
fn first_message_of_reply() {
    assert_eq!(first_message(vec![4, 5, 6]), Some(4));
    assert_eq!(first_message(Vec::<u8>::new()), None);
}
