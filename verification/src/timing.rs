use vstd::prelude::*;
use vstd::string::StringExecFns;

use crate::events::{find_time, time_between_spec, Event, EventSet};
use crate::util::Dur;

verus! {

/// The error for an event set that holds no `Initiated` event.
#[derive(Debug)]
pub struct InvalidEventSetError(pub String);

/// The per-stage spans extracted from one request's event set.
#[derive(Debug)]
pub struct Timing {
    pub events: EventSet,
    pub initiated: Dur,
    pub dns_resolution: Option<Dur>,
    pub connection: Option<Dur>,
    pub tls_negotiation: Option<Dur>,
    pub headers: Option<Dur>,
    pub full_response: Option<Dur>,
}

impl Timing {
    /// Derive the per-stage spans from an event set: each field is the
    /// span between the start and end event of its stage, or `None`
    /// when either was not seen.  An event set without `Initiated` is
    /// rejected.
    pub fn from_events(ev: EventSet) -> (r: Result<Timing, InvalidEventSetError>)
        requires
            ev.wf(),
        ensures
            ({
                let s = ev.events@;
                match r {
                    Ok(t) => {
                        &&& find_time(s, Event::Initiated) == Some(t.initiated)
                        &&& t.dns_resolution == time_between_spec(
                            s,
                            Event::DnsResolutionStarted,
                            Event::DnsResolutionFinished,
                        )
                        &&& t.connection == time_between_spec(
                            s,
                            Event::ConnectionStarted,
                            Event::Connected,
                        )
                        &&& t.tls_negotiation == time_between_spec(
                            s,
                            Event::TlsNegotiationStarted,
                            Event::TlsNegotiated,
                        )
                        &&& t.headers == time_between_spec(
                            s,
                            Event::Initiated,
                            Event::HeadersReceived,
                        )
                        &&& t.full_response == time_between_spec(
                            s,
                            Event::Initiated,
                            Event::FullResponse,
                        )
                        &&& t.events.events@ == s
                    },
                    Err(_) => find_time(s, Event::Initiated) is None,
                }
            }),
    {
        let initiated = match ev.initiated_at() {
            Some(i) => i,
            None => {
                return Err(InvalidEventSetError(String::from_str("No Initiated event")));
            },
        };
        let dns_resolution = ev.time_between(
            Event::DnsResolutionStarted,
            Event::DnsResolutionFinished,
        );
        let connection = ev.time_between(Event::ConnectionStarted, Event::Connected);
        let tls_negotiation = ev.time_between(
            Event::TlsNegotiationStarted,
            Event::TlsNegotiated,
        );
        let headers = ev.time_between(Event::Initiated, Event::HeadersReceived);
        let full_response = ev.time_between(Event::Initiated, Event::FullResponse);
        Ok(
            Timing {
                events: ev,
                initiated,
                dns_resolution,
                connection,
                tls_negotiation,
                headers,
                full_response,
            },
        )
    }
}

} // verus!
