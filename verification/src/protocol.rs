//! The protocol state: the owned record of which frame is displayed and which
//! resize request, if any, is still outstanding.
//!
//! The render loop owns one `ProtocolState` and drives it from two sides:
//! `replace` records that a new resize request has been issued (the caller
//! submits the request to the background relay, tagged with the sequence
//! number that `replace` returns), and `try_absorb` feeds it the result of one
//! non-blocking poll of the response channel.  A response is applied only when
//! its tag matches the pending request; a stale response — one superseded by a
//! later `replace` — is ignored, so the displayed frame is always the result
//! of the most recently issued request that has completed.  This is the
//! "ignore stale responses" policy, chosen for determinism.

use vstd::prelude::*;

use crate::ErrorKind;

verus! {

/// What the display surface should report beside the kept frame.
///
/// `Pending`: a resize request is outstanding; the previous frame stays
/// visible until its replacement arrives.  `Displaying`: the displayed frame
/// is the result of the last completed request.  `Errored`: the last step
/// failed; the previous frame stays visible and the reason is shown.
#[derive(Clone, Copy, PartialEq, Eq, Structural, Debug)]
pub enum Status {
    Pending,
    Displaying,
    Errored(ErrorKind),
}

/// The outcome of one non-blocking poll of the response channel.
///
/// `Ready` carries the sequence number the request was tagged with and the
/// worker's result: a finished frame, or the reason the resize failed.
pub enum Poll<F> {
    Empty,
    Disconnected,
    Ready(u64, Result<F, ErrorKind>),
}

/// The mutable protocol record.  `displayed` is the last successfully
/// completed frame (initially a placeholder), `pending` the tag of the
/// outstanding request if one exists, `next_seq` the tag the next request
/// will get, and `pipeline_ok` whether the background relay has ever been
/// observed dead.
pub struct ProtocolState<F> {
    pub displayed: F,
    pub status: Status,
    pub pending: Option<u64>,
    pub next_seq: u64,
    pub pipeline_ok: bool,
}

impl<F> ProtocolState<F> {
    /// Every tag ever handed out is below `next_seq`.
    pub open spec fn wf(self) -> bool {
        match self.pending {
            Some(s) => s < self.next_seq,
            None => true,
        }
    }

    /// The transition `replace` performs: the state afterwards and the
    /// sequence number the new request is tagged with.
    pub open spec fn spec_replace(self) -> (ProtocolState<F>, u64) {
        (
            (ProtocolState {
                status: Status::Pending,
                pending: Some(self.next_seq),
                next_seq: (self.next_seq + 1) as u64,
                ..self
            }),
            self.next_seq,
        )
    }

    /// The transition `try_absorb` performs for one poll outcome.
    pub open spec fn spec_absorb(self, poll: Poll<F>) -> ProtocolState<F> {
        match poll {
            Poll::Empty => self,
            Poll::Disconnected => (ProtocolState {
                status: Status::Errored(ErrorKind::ChannelClosed),
                pipeline_ok: false,
                ..self
            }),
            Poll::Ready(seq, res) => {
                if self.pending == Some(seq) {
                    match res {
                        Ok(f) => (ProtocolState {
                            displayed: f,
                            status: Status::Displaying,
                            pending: None,
                            ..self
                        }),
                        Err(e) => (ProtocolState {
                            status: Status::Errored(e),
                            pending: None,
                            ..self
                        }),
                    }
                } else {
                    self
                }
            },
        }
    }

    /// A fresh protocol record showing the placeholder frame.
    pub fn new(initial: F) -> (r: Self)
        ensures
            r.displayed == initial,
            r.status == Status::Displaying,
            r.pending is None,
            r.next_seq == 0,
            r.pipeline_ok,
            r.wf(),
    {
        ProtocolState {
            displayed: initial,
            status: Status::Displaying,
            pending: None,
            next_seq: 0,
            pipeline_ok: true,
        }
    }

    /// Record that a new resize request supersedes whatever was outstanding.
    /// The caller tags its submission with the returned sequence number.  The
    /// displayed frame is kept: nothing flickers while the replacement is
    /// computed.
    pub fn replace(&mut self) -> (seq: u64)
        requires
            old(self).next_seq < u64::MAX,
        ensures
            (*final(self), seq) == old(self).spec_replace(),
            seq == old(self).next_seq,
            final(self).displayed == old(self).displayed,
            final(self).pending == Some(seq),
            final(self).pipeline_ok == old(self).pipeline_ok,
            old(self).wf() ==> final(self).wf(),
    {
        let seq = self.next_seq;
        self.next_seq = self.next_seq + 1;
        self.pending = Some(seq);
        self.status = Status::Pending;
        seq
    }

    /// Absorb the outcome of one non-blocking poll.  A matching response
    /// replaces the displayed frame (or records the worker's error); a stale
    /// one is ignored; a dead channel is surfaced as `ChannelClosed`.  In no
    /// case does anything but a matching, successful response touch the
    /// displayed frame.
    pub fn try_absorb(&mut self, poll: Poll<F>)
        ensures
            *final(self) == old(self).spec_absorb(poll),
            final(self).next_seq == old(self).next_seq,
            old(self).wf() ==> final(self).wf(),
            (match poll {
                Poll::Ready(seq, Ok(f)) => final(self).displayed == old(self).displayed
                    || (old(self).pending == Some(seq) && final(self).displayed == f),
                _ => final(self).displayed == old(self).displayed,
            }),
    {
        match poll {
            Poll::Empty => {},
            Poll::Disconnected => {
                self.pipeline_ok = false;
                self.status = Status::Errored(ErrorKind::ChannelClosed);
            },
            Poll::Ready(seq, res) => {
                let is_current = match self.pending {
                    Some(p) => p == seq,
                    None => false,
                };
                if is_current {
                    self.pending = None;
                    match res {
                        Ok(f) => {
                            self.displayed = f;
                            self.status = Status::Displaying;
                        },
                        Err(e) => {
                            self.status = Status::Errored(e);
                        },
                    }
                }
            },
        }
    }

    /// The frame the render surface should draw this tick.
    pub fn current_frame(&self) -> (r: &F)
        ensures
            *r == self.displayed,
    {
        &self.displayed
    }

    /// Record a failure that happened before any request was issued, such as
    /// a decode error.  The displayed frame and the pending bookkeeping are
    /// untouched.
    pub fn record_error(&mut self, e: ErrorKind)
        ensures
            *final(self) == (ProtocolState { status: Status::Errored(e), ..*old(self) }),
    {
        self.status = Status::Errored(e);
    }

    /// Record that submitting a request failed because the relay is gone.
    pub fn note_channel_closed(&mut self)
        ensures
            *final(self) == (ProtocolState {
                status: Status::Errored(ErrorKind::ChannelClosed),
                pipeline_ok: false,
                ..*old(self)
            }),
    {
        self.pipeline_ok = false;
        self.status = Status::Errored(ErrorKind::ChannelClosed);
    }

    /// Law: issuing a request and then absorbing a response that carries its
    /// tag displays exactly the frame the worker produced.
    pub proof fn lemma_pending_completion_displayed(s: ProtocolState<F>, f: F)
        requires
            s.next_seq < u64::MAX,
        ensures
            ({
                let (s1, seq) = s.spec_replace();
                &&& s1.spec_absorb(Poll::Ready(seq, Ok(f))).displayed == f
                &&& s1.spec_absorb(Poll::Ready(seq, Ok(f))).status == Status::Displaying
                &&& s1.spec_absorb(Poll::Ready(seq, Ok(f))).pending is None
            }),
    {
    }

    /// Law: a response that reports a failure never touches the displayed
    /// frame, whatever request it answers.
    pub proof fn lemma_failure_keeps_frame(s: ProtocolState<F>, seq: u64, e: ErrorKind)
        ensures
            s.spec_absorb(Poll::Ready(seq, Err(e))).displayed == s.displayed,
    {
    }

    /// Law: after two requests in quick succession, draining their responses
    /// in either order leaves the second request's frame displayed — the
    /// first was superseded and its response is ignored.
    pub proof fn lemma_superseded_request_ignored(s: ProtocolState<F>, f1: F, f2: F)
        requires
            s.wf(),
            s.next_seq + 1 < u64::MAX,
        ensures
            ({
                let (s1, q1) = s.spec_replace();
                let (s2, q2) = s1.spec_replace();
                &&& s2.spec_absorb(Poll::Ready(q1, Ok(f1))).spec_absorb(
                    Poll::Ready(q2, Ok(f2)),
                ).displayed == f2
                &&& s2.spec_absorb(Poll::Ready(q2, Ok(f2))).spec_absorb(
                    Poll::Ready(q1, Ok(f1)),
                ).displayed == f2
            }),
    {
    }

    /// Law: with the pipeline dead, polling stays a no-op (or keeps reporting
    /// the closure) and a further request still leaves the displayed frame in
    /// place — nothing blocks and nothing is lost.
    pub proof fn lemma_dead_pipeline_safe(s: ProtocolState<F>)
        ensures
            s.spec_absorb(Poll::Empty) == s,
            s.spec_absorb(Poll::Disconnected).displayed == s.displayed,
            !s.spec_absorb(Poll::Disconnected).pipeline_ok,
            ({
                let (s1, _) = s.spec_absorb(Poll::Disconnected).spec_replace();
                &&& s1.displayed == s.displayed
                &&& !s1.pipeline_ok
            }),
    {
    }
}

} // verus!
