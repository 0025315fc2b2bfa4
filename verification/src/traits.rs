//! The capability contracts between commands, responses, URCs, the client,
//! and its external collaborators.
//!
//! A command type supplies a bounded byte encoding of itself, two declared
//! flags and a maximum wait time, and a parse function from a classified
//! reply to a typed result. A URC type supplies recognition and parsing of a
//! single unsolicited line. `AtatLen` gives the worst-case serialized length
//! of a field type, composed structurally over the field types of a command.
//! `Transport` and `Timer` are the two external collaborators of the client:
//! the serial write path and the countdown used for cooldown and timeouts.

use vstd::prelude::*;

use crate::error::Error;
use crate::error::InternalError;
use crate::error::InternalErrorView;

verus! {

/// Worst-case serialized byte length of a field type, known statically.
pub trait AtatLen {
    const LEN: usize;
}

/// Marker for types that can stand as a typed reply.
pub trait AtatResp {
}

/// The contract a command value must satisfy.
pub trait AtatCmd: Sized {
    /// The typed reply this command is answered with.
    type Response: View;

    /// The device-error type this command's error replies are mapped
    /// through.
    type CmdError;

    /// The full encoded wire form of the command, terminator included.
    spec fn encoded(&self) -> Seq<u8>;

    /// Whether the command expects a reply code. A command without one is
    /// fire-and-forget: `send` completes it with an empty success payload.
    spec fn spec_expects_response(&self) -> bool;

    /// Whether the ingress manager must be forced into the receiving state
    /// before the command bytes are written.
    spec fn spec_force_receive(&self) -> bool;

    /// The maximum time to wait for this command's reply, in milliseconds.
    spec fn spec_max_timeout_ms(&self) -> u32;

    /// What parsing a classified reply (success payload or device error)
    /// yields for this command, at the level of response values.
    spec fn spec_parse(&self, res: Result<Seq<u8>, InternalErrorView>) -> Result<
        <Self::Response as View>::V,
        Error<Self::CmdError>,
    >;

    /// Whether the command value is well formed: every text field stays
    /// within its declared capacity. Commands whose fields are all bounded
    /// by their types are always well formed.
    spec fn wf(&self) -> bool;

    /// An upper bound on the encoded length, composed from the declared
    /// lengths of the command's fields.
    spec fn spec_max_len(&self) -> nat;

    /// The encoding of every well-formed command value stays within its
    /// declared bound.
    proof fn encoded_len_bounded(&self)
        requires
            self.wf(),
        ensures
            self.encoded().len() <= self.spec_max_len(),
    ;

    fn as_bytes(&self) -> (r: Vec<u8>)
        ensures
            r@ == self.encoded(),
    ;

    fn expects_response(&self) -> (b: bool)
        ensures
            b == self.spec_expects_response(),
    ;

    fn force_receive(&self) -> (b: bool)
        ensures
            b == self.spec_force_receive(),
    ;

    fn max_timeout_ms(&self) -> (t: u32)
        ensures
            t == self.spec_max_timeout_ms(),
    ;

    fn parse(&self, res: Result<&[u8], &InternalError>) -> (r: Result<
        Self::Response,
        Error<Self::CmdError>,
    >)
        ensures
            ({
                let p = self.spec_parse(reply_view(res));
                match (r, p) {
                    (Ok(v), Ok(w)) => v@ == w,
                    (Err(e1), Err(e2)) => e1 == e2,
                    _ => false,
                }
            }),
    ;
}

/// The mathematical value of a classified reply handed to `parse`.
pub open spec fn reply_view(res: Result<&[u8], &InternalError>) -> Result<
    Seq<u8>,
    InternalErrorView,
> {
    match res {
        Ok(b) => Ok(b@),
        Err(e) => Err(e@),
    }
}

/// The contract a URC type must satisfy: parsing one unsolicited line into
/// a typed payload, or nothing when the line is not recognized.
pub trait AtatUrc {
    /// The typed payload of a recognized unsolicited line.
    type Response;

    spec fn spec_parse(data: Seq<u8>) -> Option<Self::Response>;

    fn parse(data: &[u8]) -> (r: Option<Self::Response>)
        ensures
            r == Self::spec_parse(data@),
    ;
}

/// The serial write path. The client is its only writer; `written` is the
/// whole byte stream handed to the device so far.
pub trait Transport {
    /// The bytes written to the transport so far, oldest first. The
    /// trivial default stands for deployment transports that the verifier
    /// never sees; every verified implementation overrides it.
    open spec fn written(&self) -> Seq<u8> {
        Seq::empty()
    }

    /// How many flushes have been performed so far. As with `written`, the
    /// trivial default stands for transports outside the verifier; every
    /// verified implementation overrides it.
    open spec fn flushed(&self) -> nat {
        0
    }

    /// Writes all of `buf`, retrying transient back-pressure internally, or
    /// reports failure after writing some prefix of it. Never flushes.
    fn write_all(&mut self, buf: &[u8]) -> (r: Result<(), ()>)
        ensures
            final(self).flushed() == old(self).flushed(),
            r is Ok ==> final(self).written() == old(self).written() + buf@,
            r is Err ==> exists|i: int|
                0 <= i <= buf@.len() && final(self).written() == old(self).written()
                    + buf@.subrange(0, i),
    ;

    /// Completes any buffered transmission: one more flush, with what
    /// counts as written unchanged.
    fn flush(&mut self) -> (r: Result<(), ()>)
        ensures
            final(self).written() == old(self).written(),
            final(self).flushed() == old(self).flushed() + 1,
    ;
}

/// The countdown collaborator: armed for the inter-command cooldown after
/// every terminal reply or URC, and for the declared maximum wait of a
/// command under the timeout policy. When a countdown expires is decided by
/// the deployment's clock, so nothing is promised about it.
pub trait Timer {
    /// Arms the countdown for `ms` milliseconds.
    fn start(&mut self, ms: u32);

    /// Returns once the armed countdown has elapsed.
    fn wait(&mut self);

    /// Polls the countdown without blocking; true once it has expired.
    fn expired(&mut self) -> bool;
}

} // verus!
