use vstd::prelude::*;

use crate::host::{classify_host, host_class_spec, HostClass};
use crate::metric::Metric;
use crate::sample::{Sample, SampleValue};
use crate::util::Dur;

verus! {

/// The URI schemes the client accepts.
#[derive(Debug, Clone, Copy, PartialEq, Eq, Structural)]
pub enum Scheme {
    Http,
    Https,
}

/// A connector destination: scheme, host text, and an optional
/// explicit port.
#[derive(Debug)]
pub struct Dst {
    pub scheme: Scheme,
    pub host: String,
    pub port: Option<u16>,
}

/// Raised synchronously, before any sample is emitted.
#[derive(Debug, Clone, Copy, PartialEq, Eq, Structural)]
pub enum InputError {
    EmptyHost,
}

/// What one request will do: whether the host needs resolution,
/// whether the connection needs a TLS handshake, and the port to dial.
#[derive(Debug, Clone, Copy, PartialEq, Eq, Structural)]
pub struct RequestPlan {
    pub needs_dns: bool,
    pub needs_tls: bool,
    pub port: u16,
}

/// The port a destination dials: the explicit one, else 443 for
/// `https` and 80 otherwise.
pub open spec fn effective_port_spec(scheme: Scheme, explicit: Option<u16>) -> u16 {
    match explicit {
        Some(p) => p,
        None => if scheme is Https {
            443u16
        } else {
            80u16
        },
    }
}

pub fn effective_port(scheme: Scheme, explicit: Option<u16>) -> (r: u16)
    ensures
        r == effective_port_spec(scheme, explicit),
{
    match explicit {
        Some(p) => p,
        None => match scheme {
            Scheme::Https => 443,
            Scheme::Http => 80,
        },
    }
}

/// Decide what a request to `dst` will do.  An empty host is rejected
/// here, before any sample is emitted; a literal IP host skips
/// resolution; a plain `http` destination skips the TLS handshake.
pub fn plan_request(dst: &Dst) -> (r: Result<RequestPlan, InputError>)
    ensures
        r is Err <==> dst.host@.len() == 0,
        r matches Ok(p) ==> {
            &&& p.needs_dns == (host_class_spec(dst.host@) is Named)
            &&& p.needs_tls == (dst.scheme is Https)
            &&& p.port == effective_port_spec(dst.scheme, dst.port)
        },
{
    let class = classify_host(dst.host.as_str());
    if matches!(class, HostClass::Empty) {
        return Err(InputError::EmptyHost);
    }
    let needs_dns = matches!(class, HostClass::Named);
    let needs_tls = matches!(dst.scheme, Scheme::Https);
    let port = effective_port(dst.scheme, dst.port);
    Ok(RequestPlan { needs_dns, needs_tls, port })
}

/// Where in its life cycle a request stands.
#[derive(Debug, Clone, Copy, PartialEq, Eq, Structural)]
pub enum Stage {
    Resolving,
    Connecting,
    TlsHandshake,
    AwaitingHeaders,
    ReadingBody,
    Complete,
    Failed,
}

pub open spec fn stage_rank(s: Stage) -> int {
    match s {
        Stage::Resolving => 5,
        Stage::Connecting => 4,
        Stage::TlsHandshake => 3,
        Stage::AwaitingHeaders => 2,
        Stage::ReadingBody => 1,
        Stage::Complete => 0,
        Stage::Failed => 0,
    }
}

/// The stage a request starts in: resolving, unless the host is a
/// literal address.
pub open spec fn start_stage(plan: RequestPlan) -> Stage {
    if plan.needs_dns {
        Stage::Resolving
    } else {
        Stage::Connecting
    }
}

/// The stage after the current stage ends, well or badly.
pub open spec fn next_stage(stage: Stage, needs_tls: bool, ok: bool) -> Stage {
    if stage is Complete || stage is Failed {
        stage
    } else if !ok {
        Stage::Failed
    } else {
        match stage {
            Stage::Resolving => Stage::Connecting,
            Stage::Connecting => if needs_tls {
                Stage::TlsHandshake
            } else {
                Stage::AwaitingHeaders
            },
            Stage::TlsHandshake => Stage::AwaitingHeaders,
            Stage::AwaitingHeaders => Stage::ReadingBody,
            Stage::ReadingBody => Stage::Complete,
            _ => stage,
        }
    }
}

/// The metric a completing stage emits: resolution emits `Dns` whether
/// it succeeded or failed (the time was spent either way); every other
/// stage emits its metric only on success; a finished or failed
/// request emits nothing.
pub open spec fn emitted_metric(stage: Stage, ok: bool) -> Option<Metric> {
    match stage {
        Stage::Resolving => Some(Metric::Dns),
        Stage::Connecting => if ok {
            Some(Metric::Connection)
        } else {
            None::<Metric>
        },
        Stage::TlsHandshake => if ok {
            Some(Metric::Tls)
        } else {
            None::<Metric>
        },
        Stage::AwaitingHeaders => if ok {
            Some(Metric::Headers)
        } else {
            None::<Metric>
        },
        Stage::ReadingBody => if ok {
            Some(Metric::FullResponse)
        } else {
            None::<Metric>
        },
        Stage::Complete => None::<Metric>,
        Stage::Failed => None::<Metric>,
    }
}

/// Tracks one request through its stages and says which sample each
/// transition emits.  The caller performs the actual work of each
/// stage, times it with its own stopwatch, and reports back.
#[derive(Debug)]
pub struct RequestTracker {
    pub plan: RequestPlan,
    pub stage: Stage,
}

impl RequestTracker {
    /// A tracker never resolves without a resolving plan, and never
    /// shakes hands without a TLS plan.
    pub open spec fn wf(&self) -> bool {
        &&& self.stage is Resolving ==> self.plan.needs_dns
        &&& self.stage is TlsHandshake ==> self.plan.needs_tls
    }

    /// Begin tracking a request: it starts by resolving, unless the
    /// plan needs no resolution.
    pub fn start(plan: RequestPlan) -> (t: RequestTracker)
        ensures
            t.plan == plan,
            t.stage == start_stage(plan),
            t.wf(),
    {
        let stage = if plan.needs_dns {
            Stage::Resolving
        } else {
            Stage::Connecting
        };
        RequestTracker { plan, stage }
    }

    /// The current stage has ended, well or badly, after `elapsed`
    /// time: move on and hand back the sample to emit, if this
    /// transition emits one.
    pub fn on_stage_complete(&mut self, ok: bool, elapsed: Dur) -> (r: Option<Sample>)
        requires
            old(self).wf(),
        ensures
            final(self).wf(),
            final(self).plan == old(self).plan,
            final(self).stage == next_stage(old(self).stage, old(self).plan.needs_tls, ok),
            match emitted_metric(old(self).stage, ok) {
                Some(k) => r matches Some(s) && s.key == k && s.value == SampleValue::Elapsed(
                    elapsed,
                ),
                None => r is None,
            },
    {
        let stage = self.stage;
        let emitted: Option<Sample> = match stage {
            Stage::Resolving => Some(Sample::elapsed(Metric::Dns, elapsed)),
            Stage::Connecting => if ok {
                Some(Sample::elapsed(Metric::Connection, elapsed))
            } else {
                None
            },
            Stage::TlsHandshake => if ok {
                Some(Sample::elapsed(Metric::Tls, elapsed))
            } else {
                None
            },
            Stage::AwaitingHeaders => if ok {
                Some(Sample::elapsed(Metric::Headers, elapsed))
            } else {
                None
            },
            Stage::ReadingBody => if ok {
                Some(Sample::elapsed(Metric::FullResponse, elapsed))
            } else {
                None
            },
            Stage::Complete => None,
            Stage::Failed => None,
        };
        let done = matches!(stage, Stage::Complete) || matches!(stage, Stage::Failed);
        if !done {
            if !ok {
                self.stage = Stage::Failed;
            } else {
                self.stage = match stage {
                    Stage::Resolving => Stage::Connecting,
                    Stage::Connecting => if self.plan.needs_tls {
                        Stage::TlsHandshake
                    } else {
                        Stage::AwaitingHeaders
                    },
                    Stage::TlsHandshake => Stage::AwaitingHeaders,
                    Stage::AwaitingHeaders => Stage::ReadingBody,
                    Stage::ReadingBody => Stage::Complete,
                    _ => stage,
                };
            }
        }
        emitted
    }

    /// The request was dropped: no further stage runs and no further
    /// sample is emitted.
    pub fn cancel(&mut self)
        ensures
            final(self).wf(),
            final(self).plan == old(self).plan,
            final(self).stage == Stage::Failed,
    {
        self.stage = Stage::Failed;
    }
}

/// The metrics a request emits from `stage` on when every remaining
/// stage succeeds, in order.
pub open spec fn keys_from_stage(stage: Stage, needs_tls: bool) -> Seq<Metric>
    decreases stage_rank(stage),
{
    match stage {
        Stage::Resolving => seq![Metric::Dns] + keys_from_stage(Stage::Connecting, needs_tls),
        Stage::Connecting => seq![Metric::Connection] + (if needs_tls {
            keys_from_stage(Stage::TlsHandshake, needs_tls)
        } else {
            keys_from_stage(Stage::AwaitingHeaders, needs_tls)
        }),
        Stage::TlsHandshake => seq![Metric::Tls] + keys_from_stage(
            Stage::AwaitingHeaders,
            needs_tls,
        ),
        Stage::AwaitingHeaders => seq![Metric::Headers] + keys_from_stage(
            Stage::ReadingBody,
            needs_tls,
        ),
        Stage::ReadingBody => seq![Metric::FullResponse] + keys_from_stage(
            Stage::Complete,
            needs_tls,
        ),
        Stage::Complete => Seq::<Metric>::empty(),
        Stage::Failed => Seq::<Metric>::empty(),
    }
}

/// Within one request the events come in the fixed order
/// `Dns?, Connection, Tls?, Headers, FullResponse`: `Dns` only when
/// the plan resolves, `Tls` only when it shakes hands.
pub proof fn lemma_request_event_order(plan: RequestPlan)
    ensures
        keys_from_stage(start_stage(plan), plan.needs_tls) == (if plan.needs_dns {
            seq![Metric::Dns]
        } else {
            Seq::<Metric>::empty()
        }) + seq![Metric::Connection] + (if plan.needs_tls {
            seq![Metric::Tls]
        } else {
            Seq::<Metric>::empty()
        }) + seq![Metric::Headers, Metric::FullResponse],
{
    reveal_with_fuel(keys_from_stage, 7);
    assert(keys_from_stage(start_stage(plan), plan.needs_tls) =~= (if plan.needs_dns {
        seq![Metric::Dns]
    } else {
        Seq::<Metric>::empty()
    }) + seq![Metric::Connection] + (if plan.needs_tls {
        seq![Metric::Tls]
    } else {
        Seq::<Metric>::empty()
    }) + seq![Metric::Headers, Metric::FullResponse]);
}

/// A request whose plan does not resolve never emits a `Dns` sample:
/// a literal IPv4 or IPv6 host performs no resolution work.
pub proof fn lemma_literal_host_emits_no_dns(t: RequestTracker, ok: bool)
    requires
        t.wf(),
        !t.plan.needs_dns,
    ensures
        emitted_metric(t.stage, ok) != Some(Metric::Dns),
{
}

/// A request whose plan carries no TLS handshake never emits a `Tls`
/// sample: an `http` destination does no TLS work.
pub proof fn lemma_http_emits_no_tls(t: RequestTracker, ok: bool)
    requires
        t.wf(),
        !t.plan.needs_tls,
    ensures
        emitted_metric(t.stage, ok) != Some(Metric::Tls),
{
}

/// A finished or cancelled request emits nothing further.
pub proof fn lemma_no_samples_after_done(stage: Stage, ok: bool)
    requires
        stage is Complete || stage is Failed,
    ensures
        emitted_metric(stage, ok) is None,
{
}

} // verus!
