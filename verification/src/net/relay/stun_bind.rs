use vstd::prelude::*;

use crate::attestation::relay_ticket::{signed_with, ticket_accepted, RelayTicket};
use crate::clock::now_millis;
use crate::net::relay::endpoint_cache::{
    attempts_so_far, penalty_or_fresh, CacheError, EndpointCache,
};

verus! {

/// STUN binding request with authentication context.
#[derive(Debug, Clone)]
pub struct StunBindingRequest {
    /// The peer the client wants to reach.
    pub target_id: String,
    /// The relay that should serve the binding.
    pub relay_id: String,
}

impl StunBindingRequest {
    pub fn new(target_id: &str, relay_id: &str) -> (r: Self)
        ensures
            r.target_id@ == target_id@,
            r.relay_id@ == relay_id@,
    {
        StunBindingRequest { target_id: target_id.to_owned(), relay_id: relay_id.to_owned() }
    }
}

/// STUN binding response with its ticket.
#[derive(Debug, Clone)]
pub struct StunBindingResponse {
    /// The relay endpoint address.
    pub relay_endpoint: String,
    /// The signed ticket authenticating the binding.
    pub ticket: RelayTicket,
}

#[derive(Debug)]
pub enum StunBindError {
    RelayNotFound,
    Cache(CacheError),
    TicketVerificationFailed,
}

/// The endpoint address of a relay.
pub open spec fn relay_endpoint_of(relay_id: Seq<char>) -> Seq<char> {
    "turn://"@ + relay_id + ".example.com:3478"@
}

fn relay_endpoint(relay_id: &String) -> (s: String)
    ensures
        s@ == relay_endpoint_of(relay_id@),
{
    let mut s = String::from_str("turn://");
    s.append(relay_id.as_str());
    s.append(".example.com:3478");
    s
}

/// Handles STUN binding requests: issues tickets and checks the responses
/// before they reach the cache.
pub struct StunBindHandler {
    current_epoch: u64,
    default_ticket_ttl: u64,
}

impl StunBindHandler {
    pub closed spec fn epoch(&self) -> u64 {
        self.current_epoch
    }

    pub closed spec fn ticket_ttl(&self) -> u64 {
        self.default_ticket_ttl
    }

    pub fn new(default_ticket_ttl: u64) -> (h: Self)
        ensures
            h.epoch() == 0,
            h.ticket_ttl() == default_ticket_ttl,
    {
        StunBindHandler { current_epoch: 0, default_ticket_ttl }
    }

    /// Answers a binding request at `now` (seconds): the next epoch's ticket,
    /// signed with the relay's key, and the relay's endpoint.
    pub fn handle_request_at(
        &mut self,
        request: &StunBindingRequest,
        relay_signing_key: &[u8; 32],
        now: u64,
    ) -> (resp: StunBindingResponse)
        requires
            old(self).epoch() < u64::MAX,
            now + old(self).ticket_ttl() <= u64::MAX,
        ensures
            final(self).epoch() == old(self).epoch() + 1,
            final(self).ticket_ttl() == old(self).ticket_ttl(),
            resp.ticket.relay_id@ == request.relay_id@,
            resp.ticket.target_id@ == request.target_id@,
            resp.ticket.epoch == final(self).epoch(),
            resp.ticket.expiry == now + old(self).ticket_ttl(),
            signed_with(resp.ticket, relay_signing_key@),
            resp.relay_endpoint@ == relay_endpoint_of(request.relay_id@),
    {
        self.current_epoch = self.current_epoch + 1;
        let ticket = RelayTicket::new_at(
            relay_signing_key,
            request.relay_id.as_str(),
            request.target_id.as_str(),
            self.current_epoch,
            self.default_ticket_ttl,
            now,
        );
        StunBindingResponse { relay_endpoint: relay_endpoint(&request.relay_id), ticket }
    }

    /// Answers a binding request at the clock's reading.
    pub fn handle_request(
        &mut self,
        request: &StunBindingRequest,
        relay_signing_key: &[u8; 32],
    ) -> (resp: StunBindingResponse)
        requires
            old(self).epoch() < u64::MAX,
        ensures
            final(self).epoch() == old(self).epoch() + 1,
            resp.ticket.relay_id@ == request.relay_id@,
            resp.ticket.target_id@ == request.target_id@,
            resp.ticket.epoch == final(self).epoch(),
            signed_with(resp.ticket, relay_signing_key@),
            resp.relay_endpoint@ == relay_endpoint_of(request.relay_id@),
    {
        self.current_epoch = self.current_epoch + 1;
        let ticket = RelayTicket::new(
            relay_signing_key,
            request.relay_id.as_str(),
            request.target_id.as_str(),
            self.current_epoch,
            self.default_ticket_ttl,
        );
        StunBindingResponse { relay_endpoint: relay_endpoint(&request.relay_id), ticket }
    }

    /// Checks a binding response at `now` (milliseconds) by offering its
    /// ticket to the cache. A ticket the cache finds invalid counts as a
    /// poison attempt by its relay; a blacklisted relay is refused.
    pub fn validate_response_at(
        &mut self,
        response: &StunBindingResponse,
        cache: &mut EndpointCache,
        now: u64,
    ) -> (r: Result<(), StunBindError>)
        requires
            old(cache).cfg().max_endpoints_per_peer > 0 || old(cache).entries_of(response.ticket.target_id@).len() > 0,
            attempts_so_far(
                penalty_or_fresh(old(cache).penalty_map(), response.ticket.relay_id@, now),
                now,
                old(cache).cfg().penalty_window_secs,
            ) < u32::MAX,
        ensures
            ({
                let t = response.ticket;
                let relay = t.relay_id@;
                if old(cache).blacklisted(relay) {
                    r == Err::<(), StunBindError>(StunBindError::TicketVerificationFailed) && *final(cache) == *old(cache)
                } else if !old(cache).keys().contains_key(relay)
                    || !ticket_accepted(t, old(cache).keys()[relay], old(cache).min_epoch(relay), (now / 1000) as u64) {
                    &&& r == Err::<(), StunBindError>(StunBindError::TicketVerificationFailed)
                    &&& final(cache).penalty_map().contains_key(relay)
                    &&& final(cache).penalty_map()[relay].failed_attempts == attempts_so_far(
                        penalty_or_fresh(old(cache).penalty_map(), relay, now),
                        now,
                        old(cache).cfg().penalty_window_secs,
                    ) + 1
                    &&& final(cache).keys() == old(cache).keys()
                } else if old(cache).entry_count() >= old(cache).cfg().max_cache_entries {
                    r == Err::<(), StunBindError>(StunBindError::Cache(CacheError::CacheFull))
                } else {
                    &&& r is Ok
                    &&& final(cache).lists().contains_key(t.target_id@)
                    &&& final(cache).penalty_map() == old(cache).penalty_map()
                }
            }),
            final(self).epoch() == old(self).epoch(),
            final(cache).cfg() == old(cache).cfg(),
    {
        let ticket = response.ticket.duplicate();
        match cache.put_endpoint_at(response.ticket.target_id.as_str(), ticket, now) {
            Ok(()) => Ok(()),
            Err(CacheError::TicketInvalid(_)) => {
                cache.report_poison_attempt_at(response.ticket.relay_id.as_str(), now);
                Err(StunBindError::TicketVerificationFailed)
            },
            Err(CacheError::PeerBlacklisted) => Err(StunBindError::TicketVerificationFailed),
            Err(e) => Err(StunBindError::Cache(e)),
        }
    }

    /// Checks a binding response at the clock's reading.
    pub fn validate_response(
        &mut self,
        response: &StunBindingResponse,
        cache: &mut EndpointCache,
    ) -> (r: Result<(), StunBindError>)
        requires
            old(cache).cfg().max_endpoints_per_peer > 0 || old(cache).entries_of(response.ticket.target_id@).len() > 0,
            old(cache).penalty_map().contains_key(response.ticket.relay_id@)
                ==> old(cache).penalty_map()[response.ticket.relay_id@].failed_attempts < u32::MAX,
        ensures
            old(cache).blacklisted(response.ticket.relay_id@)
                ==> r == Err::<(), StunBindError>(StunBindError::TicketVerificationFailed),
            final(cache).cfg() == old(cache).cfg(),
    {
        self.validate_response_at(response, cache, now_millis())
    }
}

} // verus!
