//! Binding a telemetry client for ambient use, and closing it when the
//! guard that holds it goes out of scope.
use vstd::prelude::*;
use std::sync::Arc;
use sentry_core::{Client, ClientOptions};

verus! {

#[verifier::external_type_specification]
#[verifier::external_body]
pub struct ExClient(Client);

#[verifier::external_type_specification]
#[verifier::external_body]
pub struct ExClientOptions(ClientOptions);

/// Relies on `sentry_core::Client::is_enabled`: whether the client has a
/// DSN and an open transport. Closing the client changes it, so nothing is
/// stated of the result.
pub assume_specification[ Client::is_enabled ](c: &Client) -> bool;

/// Relies on `sentry_core::Client::from`, which builds a client from its
/// options.
#[verifier::external_body]
fn client_from_options(opts: ClientOptions) -> (r: Client) {
    Client::from(opts)
}

/// Relies on `sentry_core::Hub::bind_client`: makes `client` the client of
/// the current thread's hub.
#[verifier::external_body]
fn bind_to_current_hub(client: &Arc<Client>) {
    sentry_core::Hub::current().bind_client(Some(client.clone()))
}

/// Holds the bound client. When it is dropped, queued events are drained
/// and the transport is shut down; no further events can be sent.
pub struct ClientInitGuard(Arc<Client>);

impl std::ops::Deref for ClientInitGuard {
    type Target = Client;

    fn deref(&self) -> (r: &Client)
        ensures
            *r == self.client(),
    {
        &*self.0
    }
}

impl ClientInitGuard {
    /// The guarded client.
    pub closed spec fn client(&self) -> Client {
        *self.0
    }

    /// Quick check if the client is enabled.
    pub fn is_enabled(&self) -> (r: bool) {
        self.0.is_enabled()
    }
}

impl Drop for ClientInitGuard {
    /// Relies on `sentry_core::Client::close`: drains the send queue within
    /// the configured shutdown timeout and shuts the transport down. Verus
    /// takes `drop` not to unwind; `close` unwinds only if the transport's
    /// own `shutdown` panics.
    #[verifier::external_body]
    fn drop(&mut self)
        opens_invariants none
        no_unwind
    {
        self.0.close(None);
    }
}

/// Creates a client from `opts`, binds it to the current hub, and returns
/// the guard that closes it.
pub fn init(opts: ClientOptions) -> (r: ClientInitGuard) {
    let client = Arc::new(client_from_options(opts));
    bind_to_current_hub(&client);
    ClientInitGuard(client)
}

} // verus!
