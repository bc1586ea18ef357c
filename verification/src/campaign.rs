//! Loading the campaign that a request's route names.

use vstd::prelude::*;

use crate::hex_text::parse_fixed_hex_spec;
use crate::ids::CampaignId;

verus! {

/// The parameters captured from a request's route, in order.
#[derive(Clone, Debug, PartialEq, Eq)]
pub struct RouteParams(pub Vec<String>);

impl RouteParams {
    /// The parameter at `index`, if there is one.
    pub fn get(&self, index: usize) -> (param: Option<&String>)
        ensures
            match param {
                Some(p) => index < self.0@.len() && *p == self.0@[index as int],
                None => index >= self.0@.len(),
            },
    {
        if index < self.0.len() {
            Some(&self.0[index])
        } else {
            None
        }
    }
}

/// An error that a sentry answers a request with.
#[derive(Clone, Debug, PartialEq, Eq)]
pub enum ResponseError {
    NotFound,
    BadRequest(String),
}

/// Whether `error` is a bad request with `message`.
pub open spec fn is_bad_request(error: ResponseError, message: Seq<char>) -> bool {
    error matches ResponseError::BadRequest(m) && m@ == message
}

/// Middleware that loads the campaign named by the first route parameter.
#[derive(Clone, Copy, Debug, PartialEq, Eq, Structural)]
pub struct CampaignLoad;

impl CampaignLoad {
    /// The id of the campaign to load: the first route parameter, read as a
    /// campaign id. No parameters, no first parameter, or one that is no
    /// campaign id, are each a bad request with its own message.
    pub fn campaign_id(&self, params: Option<&RouteParams>) -> (id: Result<CampaignId, ResponseError>)
        ensures
            match params {
                None => id matches Err(e) && is_bad_request(e, "Route params not found"@),
                Some(p) => if p.0@.len() == 0 {
                    id matches Err(e) && is_bad_request(e, "No id"@)
                } else {
                    match parse_fixed_hex_spec(p.0@[0]@, 16) {
                        Ok(bytes) => id matches Ok(i) && i.0@ == bytes,
                        Err(_) => id matches Err(e) && is_bad_request(e, "Wrong Campaign Id"@),
                    }
                },
            },
    {
        let params = match params {
            Some(p) => p,
            None => {
                return Err(ResponseError::BadRequest(String::from_str("Route params not found")));
            },
        };
        let text = match params.get(0) {
            Some(t) => t,
            None => {
                return Err(ResponseError::BadRequest(String::from_str("No id")));
            },
        };
        match CampaignId::parse(text.as_str()) {
            Ok(id) => Ok(id),
            Err(_) => Err(ResponseError::BadRequest(String::from_str("Wrong Campaign Id"))),
        }
    }

    /// The campaign that was found; none found is `NotFound`.
    pub fn loaded<T>(&self, campaign: Option<T>) -> (loaded: Result<T, ResponseError>)
        ensures
            match campaign {
                Some(c) => loaded == Ok::<T, ResponseError>(c),
                None => loaded == Err::<T, ResponseError>(ResponseError::NotFound),
            },
    {
        match campaign {
            Some(c) => Ok(c),
            None => Err(ResponseError::NotFound),
        }
    }
}

} // verus!
