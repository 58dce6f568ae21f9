use vstd::prelude::*;

use crate::metric::Metric;

verus! {

/// Last-write-wins scalars, one per registered metric key.  Only keys
/// explicitly registered are tracked; updates to unregistered keys are
/// silently dropped.
pub struct Gauges {
    dns: Option<u64>,
    connection: Option<u64>,
    tls: Option<u64>,
    headers: Option<u64>,
    full_response: Option<u64>,
    header_len: Option<u64>,
    body_len: Option<u64>,
}

impl Gauges {
    /// The tracked value for a key: `None` when the key is not
    /// registered.
    pub closed spec fn slot(&self, key: Metric) -> Option<u64> {
        match key {
            Metric::Dns => self.dns,
            Metric::Connection => self.connection,
            Metric::Tls => self.tls,
            Metric::Headers => self.headers,
            Metric::FullResponse => self.full_response,
            Metric::HeaderLen => self.header_len,
            Metric::BodyLen => self.body_len,
        }
    }

    /// Create a new `Gauges` object with no interests.
    pub fn new() -> (r: Gauges)
        ensures
            forall|m: Metric| r.slot(m) is None,
    {
        Gauges {
            dns: None,
            connection: None,
            tls: None,
            headers: None,
            full_response: None,
            header_len: None,
            body_len: None,
        }
    }

    /// Register an interest and set its value to 0
    pub fn init(&mut self, key: Metric)
        ensures
            final(self).slot(key) == Some(0u64),
            forall|m: Metric| m != key ==> final(self).slot(m) == old(self).slot(m),
    {
        self.set_slot(key, Some(0));
    }

    /// Check if the given interest has been registered with this object
    pub fn interested(&self, key: &Metric) -> (r: bool)
        ensures
            r == (self.slot(*key) is Some),
    {
        self.get(key).is_some()
    }

    /// Set the gauge with the given key to the given value
    /// If the key hasn't been registered, this is ignored and the `Gauges` object will not be updated.
    pub fn set(&mut self, key: &Metric, val: u64)
        ensures
            final(self).slot(*key) == match old(self).slot(*key) {
                Some(_) => Some(val),
                None => None::<u64>,
            },
            forall|m: Metric| m != *key ==> final(self).slot(m) == old(self).slot(m),
    {
        match self.get(key) {
            Some(_) => self.set_slot(*key, Some(val)),
            None => (),
        }
    }

    /// Set the gauge with the given key to 0
    /// If the key hasn't been registered, this is ignored and the `Gauges` object will not be updated.
    pub fn clear(&mut self, key: &Metric)
        ensures
            final(self).slot(*key) == match old(self).slot(*key) {
                Some(_) => Some(0u64),
                None => None::<u64>,
            },
            forall|m: Metric| m != *key ==> final(self).slot(m) == old(self).slot(m),
    {
        self.set(key, 0);
    }

    /// Get the value of the gauge with the given key, if that key exists
    pub fn get(&self, key: &Metric) -> (r: Option<u64>)
        ensures
            r == self.slot(*key),
    {
        match key {
            Metric::Dns => self.dns,
            Metric::Connection => self.connection,
            Metric::Tls => self.tls,
            Metric::Headers => self.headers,
            Metric::FullResponse => self.full_response,
            Metric::HeaderLen => self.header_len,
            Metric::BodyLen => self.body_len,
        }
    }

    /// Remove (and unregister) the given key
    pub fn remove(&mut self, key: &Metric)
        ensures
            final(self).slot(*key) is None,
            forall|m: Metric| m != *key ==> final(self).slot(m) == old(self).slot(m),
    {
        self.set_slot(*key, None);
    }

    fn set_slot(&mut self, key: Metric, v: Option<u64>)
        ensures
            final(self).slot(key) == v,
            forall|m: Metric| m != key ==> final(self).slot(m) == old(self).slot(m),
    {
        match key {
            Metric::Dns => self.dns = v,
            Metric::Connection => self.connection = v,
            Metric::Tls => self.tls = v,
            Metric::Headers => self.headers = v,
            Metric::FullResponse => self.full_response = v,
            Metric::HeaderLen => self.header_len = v,
            Metric::BodyLen => self.body_len = v,
        }
    }
}

impl Default for Gauges {
    fn default() -> (r: Self)
        ensures
            forall|m: Metric| r.slot(m) is None,
    {
        Gauges::new()
    }
}

} // verus!
