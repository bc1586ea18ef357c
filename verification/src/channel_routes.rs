//! The channel routes of a sentry: creating a channel and the defaults of
//! the channel list query.

use vstd::prelude::*;

verus! {

/// Handles the channel routes of an application.
pub struct ChannelController<'a, A> {
    pub app: &'a A,
}

/// The answer to a request to create a channel.
#[derive(Clone, Copy, Debug, PartialEq, Eq, Structural)]
pub struct ChannelCreateResponse {
    pub success: bool,
}

impl<'a, A> ChannelController<'a, A> {
    /// A controller for `app`.
    pub fn new(app: &'a A) -> (controller: Self)
        ensures
            controller.app == app,
    {
        Self { app }
    }

    /// The answer to a request to create a channel, given what validating
    /// the channel gave: success only where validation succeeded and held.
    pub fn create_response<E>(&self, validation: Result<bool, E>) -> (response: ChannelCreateResponse)
        ensures
            response.success == (validation matches Ok(valid) && valid),
    {
        let success = match validation {
            Ok(valid) => valid,
            Err(_) => false,
        };
        ChannelCreateResponse { success }
    }
}

/// The page of the channel list shown where the query names none.
pub fn default_page() -> (page: u64)
    ensures
        page == 1,
{
    1
}

/// The number of channels per page where the query names none.
pub fn default_limit() -> (limit: u32)
    ensures
        limit == 1,
{
    1
}

/// The validator filter of the channel list query: an empty value is no filter.
pub fn validator_filter(value: String) -> (filter: Option<String>)
    ensures
        match filter {
            Some(v) => v == value && value@.len() > 0,
            None => value@.len() == 0,
        },
{
    if value.as_str().is_empty() {
        None
    } else {
        Some(value)
    }
}

} // verus!
