//! What a validator worker decides when it talks to sentries: which
//! validator it is among those it propagates to, the paths and queries of
//! its requests, and how the pages of a paginated list are put together.

use vstd::prelude::*;

use crate::channel::{channel_encoding, Channel};
use crate::checksum::{checksum_text, keccak256, ToETHChecksum};
use crate::ids::{prefixed_hex, ChannelId, ValidatorId};
use crate::text::{decimal, join, push_decimal, push_joined, push_signed_decimal, signed_decimal, str_views};

verus! {

/// The base URL of a sentry's API.
#[derive(Clone, Debug, PartialEq, Eq)]
pub struct ApiUrl(pub String);

/// A token that authenticates requests to a sentry.
pub type AuthToken = String;

/// Where a validator's sentry is and how to authenticate to it.
#[derive(Clone, Debug, PartialEq, Eq)]
pub struct Validator {
    /// Sentry API url
    pub url: ApiUrl,
    /// Authentication token
    pub token: AuthToken,
}

/// The validators that messages are propagated to, each with at most one entry.
#[derive(Clone, Debug)]
pub struct Validators {
    entries: Vec<(ValidatorId, Validator)>,
}

/// The index of the entry for `id`, if there is one.
pub open spec fn entry_index(entries: Seq<(ValidatorId, Validator)>, id: ValidatorId) -> int {
    choose|i: int| 0 <= i < entries.len() && entries[i].0 == id
}

/// Whether `entries` has an entry for `id`.
pub open spec fn has_entry(entries: Seq<(ValidatorId, Validator)>, id: ValidatorId) -> bool {
    exists|i: int| 0 <= i < entries.len() && entries[i].0 == id
}

impl View for Validators {
    type V = Map<ValidatorId, Validator>;

    closed spec fn view(&self) -> Map<ValidatorId, Validator> {
        Map::new(
            |id: ValidatorId| has_entry(self.entries@, id),
            |id: ValidatorId| self.entries@[entry_index(self.entries@, id)].1,
        )
    }
}

proof fn lemma_same_id(a: ValidatorId, b: ValidatorId)
    requires
        a.0.0@ == b.0.0@,
    ensures
        a == b,
{
    broadcast use vstd::array::axiom_array_ext_equal;

    assert(a.0.0 =~= b.0.0);
}

impl Validators {
    /// No two entries are for the same validator.
    pub closed spec fn well_formed(&self) -> bool {
        forall|i: int, j: int|
            0 <= i < j < self.entries@.len() ==> self.entries@[i].0 != self.entries@[j].0
    }

    /// The validators in the order they were first inserted.
    pub closed spec fn order(&self) -> Seq<ValidatorId> {
        self.entries@.map_values(|e: (ValidatorId, Validator)| e.0)
    }

    /// No validators.
    pub fn new() -> (validators: Validators)
        ensures
            validators.well_formed(),
            validators@ == Map::<ValidatorId, Validator>::empty(),
            validators.order() == Seq::<ValidatorId>::empty(),
    {
        let validators = Validators { entries: Vec::new() };
        assert(validators@ =~= Map::<ValidatorId, Validator>::empty());
        assert(validators.order() =~= Seq::<ValidatorId>::empty());
        validators
    }

    /// The number of validators.
    pub fn len(&self) -> (n: usize)
        requires
            self.well_formed(),
        ensures
            n == self@.len(),
            self@.dom().finite(),
    {
        proof {
            self.lemma_len();
        }
        self.entries.len()
    }

    proof fn lemma_len(&self)
        requires
            self.well_formed(),
        ensures
            self.entries@.len() == self@.len(),
            self@.dom().finite(),
        decreases self.entries@.len(),
    {
        let ids = self.entries@.map_values(|e: (ValidatorId, Validator)| e.0);
        assert forall|i: int, j: int| 0 <= i < j < ids.len() implies ids[i] != ids[j] by {}
        assert(ids.no_duplicates());
        assert forall|k: ValidatorId| self@.dom().contains(k) <==> ids.to_set().contains(k) by {
            broadcast use vstd::seq_lib::group_seq_properties;

            if has_entry(self.entries@, k) {
                let j = entry_index(self.entries@, k);
                assert(ids[j] == k);
            }
            if ids.contains(k) {
                let j = choose|j: int| 0 <= j < ids.len() && ids[j] == k;
                assert(self.entries@[j].0 == k);
            }
        }
        assert(self@.dom() =~= ids.to_set());
        ids.unique_seq_to_set();
    }

    fn find(&self, id: &ValidatorId) -> (index: Option<usize>)
        requires
            self.well_formed(),
        ensures
            match index {
                Some(i) => i < self.entries@.len() && self.entries@[i as int].0 == *id,
                None => !has_entry(self.entries@, *id),
            },
    {
        let mut i: usize = 0;
        while i < self.entries.len()
            invariant
                0 <= i <= self.entries@.len(),
                forall|j: int| 0 <= j < i ==> self.entries@[j].0 != *id,
            decreases self.entries@.len() - i,
        {
            if self.entries[i].0 == *id {
                proof {
                    lemma_same_id(self.entries@[i as int].0, *id);
                }
                return Some(i);
            }
            i = i + 1;
        }
        None
    }

    /// The entry for `id`, if there is one.
    pub fn get(&self, id: &ValidatorId) -> (validator: Option<&Validator>)
        requires
            self.well_formed(),
        ensures
            match validator {
                Some(v) => self@.contains_key(*id) && *v == self@[*id],
                None => !self@.contains_key(*id),
            },
    {
        match self.find(id) {
            Some(i) => {
                assert(has_entry(self.entries@, *id));
                let ghost k = entry_index(self.entries@, *id);
                assert(k == i as int);
                Some(&self.entries[i].1)
            },
            None => None,
        }
    }

    /// Sets the entry for `id` to `validator`, replacing any earlier one.
    pub fn insert(&mut self, id: ValidatorId, validator: Validator)
        requires
            old(self).well_formed(),
        ensures
            final(self).well_formed(),
            final(self)@ == old(self)@.insert(id, validator),
            final(self).order() == (if old(self)@.contains_key(id) {
                old(self).order()
            } else {
                old(self).order().push(id)
            }),
    {
        match self.find(&id) {
            Some(i) => {
                self.entries.set(i, (id, validator));
                assert forall|k: ValidatorId| #[trigger] has_entry(self.entries@, k) implies self.entries@[entry_index(self.entries@, k)].1 == old(self)@.insert(id, validator)[k] by {
                    let j = entry_index(self.entries@, k);
                    if k == id {
                        assert(self.entries@[i as int].0 == k);
                    } else {
                        assert(old(self).entries@[j].0 == k);
                        assert(has_entry(old(self).entries@, k));
                    }
                }
                assert forall|k: ValidatorId| has_entry(self.entries@, k) <==> old(self)@.insert(id, validator).contains_key(k) by {
                    if has_entry(old(self).entries@, k) {
                        let j = entry_index(old(self).entries@, k);
                        assert(self.entries@[j].0 == k);
                    }
                    if has_entry(self.entries@, k) && k != id {
                        let j = entry_index(self.entries@, k);
                        assert(old(self).entries@[j].0 == k);
                    }
                }
            },
            None => {
                self.entries.push((id, validator));
                assert forall|k: ValidatorId| has_entry(self.entries@, k) <==> old(self)@.insert(id, validator).contains_key(k) by {
                    if has_entry(old(self).entries@, k) {
                        let j = entry_index(old(self).entries@, k);
                        assert(self.entries@[j].0 == k);
                    }
                    if k == id {
                        assert(self.entries@[self.entries@.len() - 1].0 == k);
                    }
                    if has_entry(self.entries@, k) && k != id {
                        let j = entry_index(self.entries@, k);
                        assert(old(self).entries@[j].0 == k);
                    }
                }
                assert forall|k: ValidatorId| #[trigger] has_entry(self.entries@, k) implies self.entries@[entry_index(self.entries@, k)].1 == old(self)@.insert(id, validator)[k] by {
                    let j = entry_index(self.entries@, k);
                    if k == id {
                        assert(j == self.entries@.len() - 1);
                    } else {
                        assert(old(self).entries@[j].0 == k);
                        assert(has_entry(old(self).entries@, k));
                    }
                }
            },
        }
        assert(self@ =~= old(self)@.insert(id, validator));
        assert(self.order() =~= (if old(self)@.contains_key(id) {
            old(self).order()
        } else {
            old(self).order().push(id)
        }));
    }

    /// The entries, one per validator, in the order they were first inserted.
    pub fn entries(&self) -> (entries: &[(ValidatorId, Validator)])
        requires
            self.well_formed(),
        ensures
            entries@.len() == self.order().len(),
            forall|i: int| 0 <= i < entries@.len() ==> #[trigger] entries@[i].0 == self.order()[i],
            forall|i: int, j: int| 0 <= i < j < entries@.len() ==> entries@[i].0 != entries@[j].0,
            forall|i: int|
                0 <= i < entries@.len() ==> self@.contains_key(#[trigger] entries@[i].0)
                    && self@[entries@[i].0] == entries@[i].1,
            entries@.len() == self@.len(),
            self@.dom().finite(),
            forall|id: ValidatorId|
                self@.contains_key(id) ==> exists|i: int|
                    0 <= i < entries@.len() && #[trigger] entries@[i].0 == id,
    {
        proof {
            self.lemma_len();
            assert forall|i: int| 0 <= i < self.entries@.len() implies self@.contains_key(
                #[trigger] self.entries@[i].0,
            ) && self@[self.entries@[i].0] == self.entries@[i].1 by {
                assert(has_entry(self.entries@, self.entries@[i].0));
                let k = entry_index(self.entries@, self.entries@[i].0);
                assert(k == i);
            }
        }
        self.entries.as_slice()
    }
}

/// The validator that an API client acts as has no entry among the
/// validators it propagates to.
#[derive(Clone, Copy, Debug, PartialEq, Eq)]
pub struct WhoamiMissing {
    pub channel: ChannelId,
    pub whoami: ValidatorId,
}

/// The entry of `whoami` among the validators that messages of `channel` are
/// propagated to; its absence is an error naming the channel's id and `whoami`.
pub fn whoami_entry<'a>(
    propagate_to: &'a Validators,
    whoami: &ValidatorId,
    channel: &Channel,
) -> (entry: Result<&'a Validator, WhoamiMissing>)
    requires
        propagate_to.well_formed(),
    ensures
        match entry {
            Ok(v) => propagate_to@.contains_key(*whoami) && *v == propagate_to@[*whoami],
            Err(e) => !propagate_to@.contains_key(*whoami) && e.whoami == *whoami && e.channel.0@
                == keccak256(channel_encoding(*channel)),
        },
{
    match propagate_to.get(whoami) {
        Some(validator) => Ok(validator),
        None => Err(WhoamiMissing { channel: channel.id(), whoami: *whoami }),
    }
}

/// The path of a validator's latest message of the given types:
/// `/validator-messages/{checksum of from}/{types joined by +}?limit=1`.
pub fn latest_msg_path(from: &ValidatorId, message_types: &[&str]) -> (path: String)
    ensures
        path@ == "/validator-messages/"@ + checksum_text(from.0.0@) + "/"@ + join(
            str_views(message_types@),
            "+"@,
        ) + "?limit=1"@,
{
    let mut path = String::from_str("/validator-messages/");
    let checksum = from.to_checksum();
    path.append(checksum.as_str());
    path.append("/");
    push_joined(&mut path, message_types, "+");
    path.append("?limit=1");
    path
}

/// The path of a resource of a channel: `v5/channel/{channel id}` and `suffix`.
pub open spec fn channel_resource(channel: ChannelId, suffix: Seq<char>) -> Seq<char> {
    "v5/channel/"@ + prefixed_hex(channel.0@) + suffix
}

fn channel_resource_path(channel: &ChannelId, suffix: &str) -> (path: String)
    ensures
        path@ == channel_resource(*channel, suffix@),
{
    let mut path = String::from_str("v5/channel/");
    let id = channel.to_string();
    path.append(id.as_str());
    path.append(suffix);
    path
}

/// The path of the last approved state of a channel.
pub fn last_approved_path(channel: &ChannelId) -> (path: String)
    ensures
        path@ == channel_resource(*channel, "/last-approved"@),
{
    channel_resource_path(channel, "/last-approved")
}

/// The path of all spenders of a channel.
pub fn all_spenders_path(channel: &ChannelId) -> (path: String)
    ensures
        path@ == channel_resource(*channel, "/spender/all"@),
{
    channel_resource_path(channel, "/spender/all")
}

/// The path of the accounting of a channel.
pub fn accounting_path(channel: &ChannelId) -> (path: String)
    ensures
        path@ == channel_resource(*channel, "/accounting"@),
{
    channel_resource_path(channel, "/accounting")
}

/// The path that validator messages of a channel are posted to.
pub fn validator_messages_path(channel: &ChannelId) -> (path: String)
    ensures
        path@ == channel_resource(*channel, "/validator-messages"@),
{
    channel_resource_path(channel, "/validator-messages")
}

/// The path of the last approved state, with the heartbeats.
pub fn last_msgs_path() -> (path: String)
    ensures
        path@ == "last-approved?withHeartbeat=true"@,
{
    String::from_str("last-approved?withHeartbeat=true")
}

/// The path of the event aggregates after a time, in milliseconds since the epoch.
pub fn event_aggregates_path(after_millis: i64) -> (path: String)
    ensures
        path@ == "events-aggregates?after="@ + signed_decimal(after_millis as int),
{
    let mut path = String::from_str("events-aggregates?after=");
    push_signed_decimal(&mut path, after_millis);
    path
}

/// The URL of one page of the channel list of a validator:
/// `{sentry_url}/channel/list?page={page}&validator={checksum of validator}`.
pub fn channel_list_url(sentry_url: &str, page: u64, validator: &ValidatorId) -> (url: String)
    ensures
        url@ == sentry_url@ + "/channel/list?"@ + "page="@ + decimal(page as nat) + "&validator="@
            + checksum_text(validator.0.0@),
{
    let mut url = String::from_str(sentry_url);
    url.append("/channel/list?");
    url.append("page=");
    push_decimal(&mut url, page);
    url.append("&validator=");
    let checksum = validator.to_checksum();
    url.append(checksum.as_str());
    url
}

/// The items of the pages, in order.
pub open spec fn flatten<T>(pages: Seq<Seq<T>>) -> Seq<T>
    decreases pages.len(),
{
    if pages.len() == 0 {
        seq![]
    } else {
        flatten(pages.drop_last()) + pages.last()
    }
}

/// The contents of each page.
pub open spec fn page_views<T>(pages: Seq<Vec<T>>) -> Seq<Seq<T>> {
    pages.map_values(|page: Vec<T>| page@)
}

/// The numbers of the pages after the first of a list of `total_pages`
/// pages numbered from 0: `1`, `2`, ..., `total_pages - 1`.
pub open spec fn pages_after_first(total_pages: u64) -> Seq<u64> {
    Seq::new(
        if total_pages < 2 {
            0
        } else {
            (total_pages - 1) as nat
        },
        |i: int| (i + 1) as u64,
    )
}

/// The pages after the first of a list of `total_pages` pages (numbered
/// from 0): none unless there are at least two.
pub fn pages_to_fetch(total_pages: u64) -> (pages: Vec<u64>)
    ensures
        pages@ == pages_after_first(total_pages),
        total_pages < 2 ==> pages@.len() == 0,
        total_pages >= 2 ==> pages@.len() == total_pages - 1,
        forall|i: int| 0 <= i < pages@.len() ==> pages@[i] == i + 1,
{
    let mut pages: Vec<u64> = Vec::new();
    let mut page: u64 = 1;
    while page < total_pages
        invariant
            1 <= page,
            page <= total_pages || total_pages < 2,
            total_pages < 2 ==> page == 1,
            pages@.len() == page - 1,
            forall|i: int| 0 <= i < pages@.len() ==> pages@[i] == i + 1,
        decreases total_pages - page,
    {
        pages.push(page);
        page = page + 1;
    }
    assert(pages@ =~= pages_after_first(total_pages));
    pages
}

/// The total number of items on the pages.
pub open spec fn total_items<T>(pages: Seq<Seq<T>>) -> nat
    decreases pages.len(),
{
    if pages.len() == 0 {
        0
    } else {
        pages[0].len() + total_items(pages.drop_first())
    }
}

/// The pages after the first are every page from 1 to `total_pages - 1`,
/// once each and in order; a list of fewer than two pages has none.
pub proof fn lemma_pages_after_first(total_pages: u64)
    ensures
        total_pages < 2 ==> pages_after_first(total_pages).len() == 0,
        total_pages >= 2 ==> pages_after_first(total_pages).len() == total_pages - 1,
        forall|i: int|
            0 <= i < pages_after_first(total_pages).len() ==> pages_after_first(total_pages)[i] == i + 1,
        forall|p: u64| 1 <= p < total_pages ==> #[trigger] pages_after_first(total_pages).contains(p),
{
    assert forall|p: u64| 1 <= p < total_pages implies #[trigger] pages_after_first(
        total_pages,
    ).contains(p) by {
        assert(pages_after_first(total_pages)[p - 1] == p);
    }
}

/// Adding a page adds its items after those of the earlier pages.
pub proof fn lemma_flatten_push<T>(pages: Seq<Seq<T>>, page: Seq<T>)
    ensures
        flatten(pages.push(page)) == flatten(pages) + page,
{
    assert(pages.push(page).drop_last() =~= pages);
}

/// Putting pages together keeps every item: as many items as all pages hold.
pub proof fn lemma_flatten_len<T>(pages: Seq<Seq<T>>)
    ensures
        flatten(pages).len() == total_items(pages),
    decreases pages.len(),
{
    if pages.len() > 0 {
        lemma_flatten_len(pages.drop_last());
        lemma_total_items_last(pages);
    }
}

proof fn lemma_total_items_last<T>(pages: Seq<Seq<T>>)
    requires
        pages.len() > 0,
    ensures
        total_items(pages) == total_items(pages.drop_last()) + pages.last().len(),
    decreases pages.len(),
{
    if pages.len() > 1 {
        let rest = pages.drop_first();
        lemma_total_items_last(rest);
        assert(rest.drop_last() =~= pages.drop_last().drop_first());
        assert(rest.last() == pages.last());
        assert(pages.drop_last()[0] == pages[0]);
    } else {
        assert(pages.drop_first() =~= Seq::<Seq<T>>::empty());
        assert(pages.drop_last() =~= Seq::<Seq<T>>::empty());
    }
}

/// The items of the first page followed by those of the other pages, in order.
pub fn concat_pages<T>(first: Vec<T>, rest: Vec<Vec<T>>) -> (all: Vec<T>)
    ensures
        all@ == first@ + flatten(page_views(rest@)),
        all@.len() == first@.len() + total_items(page_views(rest@)),
{
    let mut all = first;
    let mut rest = rest;
    let ghost pages = page_views(rest@);
    let mut taken: usize = 0;
    let n = rest.len();
    while rest.len() > 0
        invariant
            n == pages.len(),
            taken + rest@.len() == n,
            page_views(rest@) == pages.skip(taken as int),
            all@ == first@ + flatten(pages.take(taken as int)),
        decreases rest@.len(),
    {
        let ghost before = rest@;
        let mut page = rest.remove(0);
        assert(page_views(rest@) =~= page_views(before).drop_first());
        assert(page == before[0]);
        assert(page_views(before)[0] == before[0]@);
        assert(pages.skip(taken as int)[0] == pages[taken as int]);
        assert(page@ == pages[taken as int]);
        all.append(&mut page);
        taken = taken + 1;
        assert(pages.take(taken as int).drop_last() =~= pages.take(taken - 1));
        assert(page_views(rest@) =~= pages.skip(taken as int));
    }
    assert(pages.take(n as int) =~= pages);
    proof {
        lemma_flatten_len(pages);
    }
    all
}

/// A list of fewer than two pages is its first page: nothing more is
/// fetched, and putting the pages together gives the first page's items.
pub proof fn lemma_short_list_is_first_page<T>(total_pages: u64, first: Seq<T>)
    requires
        total_pages < 2,
    ensures
        pages_after_first(total_pages).len() == 0,
        first + flatten(page_views(Seq::<Vec<T>>::empty())) == first,
{
    assert(page_views(Seq::<Vec<T>>::empty()) =~= Seq::<Seq<T>>::empty());
    assert(first + Seq::<T>::empty() =~= first);
}

/// The first of the messages of a reply, if it holds any.
pub fn first_message<T>(messages: Vec<T>) -> (first: Option<T>)
    ensures
        first == (if messages@.len() > 0 {
            Some(messages@[0])
        } else {
            None::<T>
        }),
{
    let mut messages = messages;
    if messages.len() > 0 {
        Some(messages.remove(0))
    } else {
        None
    }
}

} // verus!
