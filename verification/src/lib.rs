//! A minimal in-process TCP test server, split into its verified core and
//! the thin I/O shell around it.
//!
//! The core holds the request-header parsing (`headers`) and the server's
//! lifecycle logic (`server`): the shutdown flag, the accept loop's state
//! machine, and the bounded readiness probe run by the constructor. The
//! sockets and threads themselves live outside the library; they feed the
//! state machines here with plain values and act on the decisions.

pub mod headers;
pub mod server;

pub use headers::read_headers;
pub use headers::TestHeaders;
pub use server::TestServer;
