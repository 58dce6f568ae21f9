use vstd::prelude::*;

verus! {

/// The built-in metric keys: one for each measured stage of a request
/// (name resolution, TCP connect, TLS negotiation, headers received,
/// full body received) and two size metrics.
#[derive(Debug, Clone, Copy, PartialEq, Eq, Hash, Structural)]
pub enum Metric {
    Dns,
    Connection,
    Tls,
    Headers,
    FullResponse,
    HeaderLen,
    BodyLen,
}

impl Metric {
    /// The enumerator's name, for display.
    pub fn label(&self) -> (r: &'static str)
        ensures
            r@ == self.label_spec(),
    {
        proof {
            reveal_strlit("Dns");
            reveal_strlit("Connection");
            reveal_strlit("Tls");
            reveal_strlit("Headers");
            reveal_strlit("FullResponse");
            reveal_strlit("HeaderLen");
            reveal_strlit("BodyLen");
        }
        match self {
            Metric::Dns => "Dns",
            Metric::Connection => "Connection",
            Metric::Tls => "Tls",
            Metric::Headers => "Headers",
            Metric::FullResponse => "FullResponse",
            Metric::HeaderLen => "HeaderLen",
            Metric::BodyLen => "BodyLen",
        }
    }

    pub open spec fn label_spec(self) -> Seq<char> {
        match self {
            Metric::Dns => "Dns"@,
            Metric::Connection => "Connection"@,
            Metric::Tls => "Tls"@,
            Metric::Headers => "Headers"@,
            Metric::FullResponse => "FullResponse"@,
            Metric::HeaderLen => "HeaderLen"@,
            Metric::BodyLen => "BodyLen"@,
        }
    }

    /// All seven built-in metrics, in reporting order.
    pub fn all_metrics() -> (r: Vec<Metric>)
        ensures
            r@ == all_metrics_seq(),
    {
        let mut v: Vec<Metric> = Vec::new();
        v.push(Metric::Dns);
        v.push(Metric::Connection);
        v.push(Metric::Tls);
        v.push(Metric::Headers);
        v.push(Metric::HeaderLen);
        v.push(Metric::FullResponse);
        v.push(Metric::BodyLen);
        proof {
            assert(v@ =~= all_metrics_seq());
        }
        v
    }

    /// The five metrics that carry a latency.
    pub fn latency_metrics() -> (r: Vec<Metric>)
        ensures
            r@ == latency_metrics_seq(),
    {
        let mut v: Vec<Metric> = Vec::new();
        v.push(Metric::Dns);
        v.push(Metric::Connection);
        v.push(Metric::Tls);
        v.push(Metric::Headers);
        v.push(Metric::FullResponse);
        proof {
            assert(v@ =~= latency_metrics_seq());
        }
        v
    }

    /// The two metrics that carry a size.
    pub fn size_metrics() -> (r: Vec<Metric>)
        ensures
            r@ == size_metrics_seq(),
    {
        let mut v: Vec<Metric> = Vec::new();
        v.push(Metric::HeaderLen);
        v.push(Metric::BodyLen);
        proof {
            assert(v@ =~= size_metrics_seq());
        }
        v
    }
}

pub open spec fn all_metrics_seq() -> Seq<Metric> {
    seq![
        Metric::Dns,
        Metric::Connection,
        Metric::Tls,
        Metric::Headers,
        Metric::HeaderLen,
        Metric::FullResponse,
        Metric::BodyLen,
    ]
}

pub open spec fn latency_metrics_seq() -> Seq<Metric> {
    seq![Metric::Dns, Metric::Connection, Metric::Tls, Metric::Headers, Metric::FullResponse]
}

pub open spec fn size_metrics_seq() -> Seq<Metric> {
    seq![Metric::HeaderLen, Metric::BodyLen]
}

} // verus!
