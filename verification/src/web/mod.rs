//! The server's side channel: the ticket that it publishes over HTTP so
//! that clients can reach it through iroh.

use crate::support::connection_pool::{decoded_endpoint_ticket, ticket_kind};
use vstd::prelude::*;

verus! {

#[verifier::external_type_specification]
#[verifier::external_body]
pub struct ExEndpointAddr(iroh::EndpointAddr);

/// Calls `iroh::Endpoint::addr`: the endpoint's current addressing
/// information. It changes as the endpoint learns its addresses, so nothing
/// is claimed of it.
#[verifier::external_body]
fn endpoint_addr(endpoint: &iroh::Endpoint) -> iroh::EndpointAddr {
    endpoint.addr()
}

/// The ticket that `EndpointTicket::new` makes for an address.
pub uninterp spec fn ticket_for_addr(addr: iroh::EndpointAddr) -> iroh_tickets::endpoint::EndpointTicket;

/// Calls `EndpointTicket::new`, which wraps the address in a ticket.
#[verifier::external_body]
fn endpoint_ticket_new(addr: iroh::EndpointAddr) -> (ticket: iroh_tickets::endpoint::EndpointTicket)
    ensures
        ticket == ticket_for_addr(addr),
{
    iroh_tickets::endpoint::EndpointTicket::new(addr)
}

/// The text that `EndpointTicket::to_string` (`Ticket::encode_string`) writes
/// for a ticket.
pub uninterp spec fn ticket_text(ticket: iroh_tickets::endpoint::EndpointTicket) -> Seq<char>;

/// Calls `EndpointTicket::to_string` (`Ticket::encode_string`), which writes
/// the kind `endpoint` and then the lower-case base32 of the ticket's bytes.
/// `EndpointTicket::from_str` accepts that text, as `Display` and `FromStr`
/// round-trip the canonical form. The ticket it decodes is not claimed to be
/// the same one: an IPv6 address loses its scope id and flow label on the way.
#[verifier::external_body]
fn endpoint_ticket_to_string(ticket: &iroh_tickets::endpoint::EndpointTicket) -> (text: String)
    ensures
        text@ == ticket_text(*ticket),
        ticket_kind().is_prefix_of(text@),
        decoded_endpoint_ticket(text@) is Some,
{
    ticket.to_string()
}

/// The text of the ticket that advertises an address: `EndpointTicket::new`
/// of the address, in its text form.
pub fn ticket_text_for(addr: iroh::EndpointAddr) -> (text: String)
    ensures
        text@ == ticket_text(ticket_for_addr(addr)),
        ticket_kind().is_prefix_of(text@),
        decoded_endpoint_ticket(text@) is Some,
{
    let ticket = endpoint_ticket_new(addr);
    endpoint_ticket_to_string(&ticket)
}

/// The ticket that the server publishes on its ticket route: the text of the
/// ticket for the endpoint's address at the time of the call. A client's
/// `parse_ticket` accepts it.
pub fn get_ticket(endpoint: &iroh::Endpoint) -> (ticket: String)
    ensures
        exists|addr: iroh::EndpointAddr| ticket@ == #[trigger] ticket_text(ticket_for_addr(addr)),
        ticket_kind().is_prefix_of(ticket@),
        decoded_endpoint_ticket(ticket@) is Some,
{
    let addr = endpoint_addr(endpoint);
    let ghost published = addr;
    let text = ticket_text_for(addr);
    assert(text@ == ticket_text(ticket_for_addr(published)));
    text
}

/// The route on which the server publishes its ticket.
pub const TICKET_ROUTE: &'static str = "/iroh/ticket";

/// The route that keeps the server alive for the number of seconds in its
/// `time_out_secs` query parameter.
pub const KEEP_ALIVE_ROUTE: &'static str = "/keep_alive";

/// The port of the HTTP side channel when `HTTP_PORT` is not set.
pub const DEFAULT_HTTP_PORT: u16 = 8080;

} // verus!
