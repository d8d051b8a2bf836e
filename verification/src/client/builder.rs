//! The settings of a client.

use crate::client::background::{Background, ClientView, StatusView};
use vstd::prelude::*;
use vstd::string::*;

verus! {

/// How many requests of a client are in flight at a time, unless told
/// otherwise.
pub const DEFAULT_MAX_CONCURRENT_REQUESTS: usize = 1024;

/// How many items wait in a subscription, unless told otherwise.
pub const DEFAULT_MAX_NOTIFS_PER_SUBSCRIPTION: usize = 4;

/// Where the certificates come from by which a server is trusted.
#[derive(Clone, Copy, Debug, PartialEq, Eq, Structural)]
pub enum CertificateStore {
    /// The certificates of the system.
    Native,
    /// The certificates of WebPKI.
    WebPki,
}

/// A header of the upgrade request.
#[derive(Debug)]
pub struct Header {
    pub name: String,
    pub value: String,
}

/// The settings of a client, set one by one before the client is built.
#[derive(Debug)]
pub struct WsClientBuilder {
    /// Where the certificates come from.
    pub certificate_store: CertificateStore,
    /// How long a request waits for its answer, in milliseconds; `None` for
    /// as long as it takes.
    pub request_timeout: Option<u64>,
    /// The headers of the upgrade request, each with its value.
    pub headers: Vec<Header>,
    /// How many requests are in flight at a time.
    pub max_concurrent_requests: usize,
    /// How many items wait in a subscription.
    pub max_notifs_per_subscription: usize,
}

impl Default for WsClientBuilder {
    fn default() -> (r: WsClientBuilder)
        ensures
            r.certificate_store == CertificateStore::Native,
            r.request_timeout == None::<u64>,
            r.headers@.len() == 0,
            r.max_concurrent_requests == DEFAULT_MAX_CONCURRENT_REQUESTS,
            r.max_notifs_per_subscription == DEFAULT_MAX_NOTIFS_PER_SUBSCRIPTION,
    {
        WsClientBuilder {
            certificate_store: CertificateStore::Native,
            request_timeout: None,
            headers: Vec::new(),
            max_concurrent_requests: DEFAULT_MAX_CONCURRENT_REQUESTS,
            max_notifs_per_subscription: DEFAULT_MAX_NOTIFS_PER_SUBSCRIPTION,
        }
    }
}

impl WsClientBuilder {
    /// Sets where the certificates come from.
    pub fn certificate_store(self, certificate_store: CertificateStore) -> (r: WsClientBuilder)
        ensures
            r == (WsClientBuilder { certificate_store, ..self }),
    {
        WsClientBuilder { certificate_store, ..self }
    }

    /// Sets how long a request waits for its answer, in milliseconds.
    pub fn request_timeout(self, timeout: Option<u64>) -> (r: WsClientBuilder)
        ensures
            r == (WsClientBuilder { request_timeout: timeout, ..self }),
    {
        WsClientBuilder { request_timeout: timeout, ..self }
    }

    /// Sets how many requests are in flight at a time.
    pub fn max_concurrent_requests(self, max: usize) -> (r: WsClientBuilder)
        ensures
            r == (WsClientBuilder { max_concurrent_requests: max, ..self }),
    {
        WsClientBuilder { max_concurrent_requests: max, ..self }
    }

    /// Sets how many items wait in a subscription.
    pub fn max_notifs_per_subscription(self, max: usize) -> (r: WsClientBuilder)
        ensures
            r == (WsClientBuilder { max_notifs_per_subscription: max, ..self }),
    {
        WsClientBuilder { max_notifs_per_subscription: max, ..self }
    }

    /// Adds a header to the upgrade request, behind those set before.
    pub fn header(self, name: String, value: String) -> (r: WsClientBuilder)
        ensures
            r.headers@ == self.headers@.push(Header { name, value }),
            r.certificate_store == self.certificate_store,
            r.request_timeout == self.request_timeout,
            r.max_concurrent_requests == self.max_concurrent_requests,
            r.max_notifs_per_subscription == self.max_notifs_per_subscription,
    {
        let mut r = self;
        r.headers.push(Header { name, value });
        r
    }

    /// The multiplexer of a client with these settings, for a connection
    /// that stands.
    pub fn multiplexer(&self) -> (r: Background)
        ensures
            r.wf(),
            r@ == (ClientView {
                status: StatusView::Connected,
                cause: Seq::empty(),
                next_id: 0,
                max_slots: self.max_concurrent_requests as nat,
                pending: Seq::empty(),
            }),
    {
        Background::new(self.max_concurrent_requests)
    }
}

} // verus!
