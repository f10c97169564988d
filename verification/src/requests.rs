//! The decisions of the search box as the user types: when to clear the
//! results, when to start a search, and which answers are still wanted.

use vstd::prelude::*;
use vstd::utf8::encode_utf8;

use crate::chars::chars_of;
use crate::normalize::utf8_len_capped;

verus! {

/// An input shorter than this many bytes clears the results instead of
/// searching.
pub open spec fn min_query_bytes() -> nat {
    3
}

/// What the search box does after an input.
#[derive(Debug, PartialEq, Eq)]
pub enum InputAction {
    /// Clear the list of results.
    ClearResults,
    /// Search after the typing pause, as request `request_id`.
    ScheduleSearch { request_id: u64 },
}

/// The requests the search box has issued.
pub struct SearchRequests {
    last_request_id: u64,
}

/// The state after an input of `input_bytes` bytes, and the action taken.
pub open spec fn after_input(last_request_id: u64, input_bytes: nat) -> (u64, InputAction) {
    if input_bytes < min_query_bytes() {
        (last_request_id, InputAction::ClearResults)
    } else {
        (
            (last_request_id + 1) as u64,
            InputAction::ScheduleSearch { request_id: (last_request_id + 1) as u64 },
        )
    }
}

impl SearchRequests {
    /// The number of the latest request.
    pub closed spec fn last_id(&self) -> u64 {
        self.last_request_id
    }

    /// No request issued yet.
    pub fn new() -> (r: SearchRequests)
        ensures
            r.last_id() == 0,
    {
        SearchRequests { last_request_id: 0 }
    }

    /// The number of the latest request.
    pub fn last_request_id(&self) -> (r: u64)
        ensures
            r == self.last_id(),
    {
        self.last_request_id
    }

    /// Records an input: one shorter than three bytes clears the results;
    /// any other starts a new request, which supersedes every earlier one.
    pub fn on_input(&mut self, input: &str) -> (a: InputAction)
        requires
            encode_utf8(input@).len() >= min_query_bytes() ==> old(self).last_id() < u64::MAX,
        ensures
            (final(self).last_id(), a) == after_input(old(self).last_id(), encode_utf8(input@).len()),
    {
        let n = utf8_len_capped(chars_of(input).as_slice());
        if n < 3 {
            InputAction::ClearResults
        } else {
            self.last_request_id = self.last_request_id + 1;
            InputAction::ScheduleSearch { request_id: self.last_request_id }
        }
    }

    /// Whether the answer to request `request_id` is still wanted: it is the
    /// latest request.
    pub fn is_current(&self, request_id: u64) -> (b: bool)
        ensures
            b == (request_id == self.last_id()),
    {
        self.last_request_id == request_id
    }
}

/// A request is wanted as soon as it is issued, and an answer to it is no
/// longer wanted once a later input has started another request.
pub proof fn lemma_later_request_supersedes(last: u64, first_bytes: nat, second_bytes: nat)
    requires
        first_bytes >= min_query_bytes(),
        second_bytes >= min_query_bytes(),
        last < u64::MAX - 1,
    ensures
        after_input(last, first_bytes).1 matches InputAction::ScheduleSearch { request_id }
            ==> request_id == after_input(last, first_bytes).0 && request_id != after_input(
            after_input(last, first_bytes).0,
            second_bytes,
        ).0,
{
}

/// An input too short to search leaves the wanted request as it was.
pub proof fn lemma_short_input_keeps_request(last: u64, bytes: nat)
    requires
        bytes < min_query_bytes(),
    ensures
        after_input(last, bytes) == (last, InputAction::ClearResults),
{
}

} // verus!
