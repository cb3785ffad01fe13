//! Where received envelopes go.
use vstd::prelude::*;
use vstd::string::*;

use crate::envelope::WireError;
use crate::text::{decimal, decimal_text, texts};

verus! {

/// Receives the opaque envelope bytes that the network layer unpacks.
pub trait MessageIngress: Sized {
    /// Whether the receiver is in a state in which it takes envelopes.
    spec fn ready(&self) -> bool;

    /// Whether taking `bytes` can turn the receiver into `after` with the
    /// answer `out`.
    spec fn taken(&self, bytes: Seq<u8>, after: Self, out: Result<bool, WireError>) -> bool;

    /// Takes one envelope. `Ok(true)` says that it carried something new,
    /// `Ok(false)` that it changed nothing, and an error that the bytes
    /// were malformed.
    fn on_envelope(&mut self, bytes: &[u8]) -> (out: Result<bool, WireError>)
        requires
            old(self).ready(),
        ensures
            final(self).ready(),
            old(self).taken(bytes@, *final(self), out),
    ;
}

/// What is logged for an envelope of `len` bytes.
pub open spec fn logged_text(len: nat) -> Seq<char> {
    "Ingress: received "@ + decimal_text(len) + "-byte envelope"@
}

/// Takes every envelope and keeps the line to log for it.
pub struct LoggingIngress {
    pub lines: Vec<String>,
}

impl MessageIngress for LoggingIngress {
    open spec fn ready(&self) -> bool {
        true
    }

    /// The line is added, and the envelope always news.
    open spec fn taken(&self, bytes: Seq<u8>, after: Self, out: Result<bool, WireError>) -> bool {
        &&& out == Ok::<bool, WireError>(true)
        &&& texts(after.lines@) == texts(self.lines@).push(logged_text(bytes.len()))
    }

    fn on_envelope(&mut self, bytes: &[u8]) -> (out: Result<bool, WireError>) {
        let ghost before = texts(self.lines@);
        let mut line = String::from_str("Ingress: received ");
        line.append(decimal(bytes.len() as u64).as_str());
        line.append("-byte envelope");
        let ghost added = line@;
        self.lines.push(line);
        assert(texts(self.lines@) =~= before.push(added));
        Ok(true)
    }
}

} // verus!
