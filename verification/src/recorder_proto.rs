//! The recorder side of the session protocol: the controller client.
//!
//! The recorder sends one `Session` request and then consumes the runner's
//! phase acknowledgements in the prescribed order, checking each message's
//! kind against the phase and the `DownloadStatus` payloads against their
//! total order. Its contract pins down exactly which acknowledgement
//! transcripts it accepts: a run succeeds only on the happy transcript, and
//! on failure the messages consumed are a correctly ordered prefix followed
//! by at most one offending message.

use vstd::prelude::*;

use crate::message::{
    kind_of, status_rank, CreateProfile, DisableUpdates, DownloadBuild, DownloadStatus, Idle,
    KindMismatch, MessageContent, NewSessionRequest, NewSessionResponse, RecorderMessage,
    RecvProfile, Restarting, ResumeResponse, ResumeSessionRequest, RunnerMessage,
    RunnerMessageKind, RunnerMessageV, Session, WaitForIdle, WritePrefs,
};
use crate::prefs::PrefValue;
use crate::runner_proto::{db_acks, err_ack, new_session_happy, resume_happy, rp_acks};
use crate::ErrorMessage;

verus! {

/// An error in the protocol, as the recorder sees it.
#[derive(Debug)]
pub enum ProtoError {
    /// An I/O failure on the connection.
    Io(ErrorMessage),
    /// An error reported by the remote side, as text.
    Foreign(ErrorMessage),
    /// The connection closed where a message was due.
    EndOfStream,
    /// A message of an unexpected kind arrived.
    Unexpected(KindMismatch<RunnerMessageKind>),
}

/// An error in the recorder's handling of a session.
#[derive(Debug)]
pub enum RecorderProtoError {
    /// A protocol failure.
    Proto(ProtoError),
    /// A `DownloadStatus` acknowledgement broke the prescribed order.
    SequenceMismatch { expected: DownloadStatus, received: DownloadStatus },
}

/// The recorder's half of the connection.
///
/// `recv` yields the next whole message, `Ok(None)` at a clean end of
/// stream; sending and the raw profile copy are effects.
pub trait RecorderTransport: Sized {
    /// Send the one request to the runner.
    fn send(&mut self, msg: RecorderMessage) -> Result<(), ErrorMessage>;

    /// Receive the next message, or `None` at end of stream.
    fn recv(&mut self) -> Result<Option<RunnerMessage>, ErrorMessage>;

    /// Write the raw bytes of the profile archive at `profile_path` onto
    /// the connection.
    fn send_profile_raw(&mut self, profile_path: &str) -> Result<(), ErrorMessage>;
}

/// What a phase's receive loop may leave behind on an error, against the
/// phase's reference sequence `h`: the correctly ordered acknowledgements
/// it consumed, then at most one offending message — a foreign error of
/// the due kind, a message of another kind, or an out-of-order status.
pub open spec fn recorder_phase_err(
    pre: Seq<RunnerMessageV>,
    post: Seq<RunnerMessageV>,
    h: Seq<RunnerMessageV>,
    e: RecorderProtoError,
) -> bool {
    match e {
        RecorderProtoError::Proto(pe) => match pe {
            ProtoError::Io(_) | ProtoError::EndOfStream => exists|k: int|
                0 <= k <= h.len() && post == pre + h.take(k),
            ProtoError::Foreign(m) => exists|k: int|
                0 <= k < h.len() && post == pre + h.take(k).push(err_ack(kind_of(h[k]), m.0@)),
            ProtoError::Unexpected(km) => exists|k: int, v: RunnerMessageV|
                0 <= k < h.len() && post == pre + h.take(k).push(v) && kind_of(v) == km.actual
                    && km.expected == kind_of(h[k]) && km.actual != km.expected,
        },
        RecorderProtoError::SequenceMismatch { expected, received } => exists|k: int|
            0 <= k < h.len() && h[k] == ok_status_ack(kind_of(h[k]), expected) && post == pre
                + h.take(k).push(ok_status_ack(kind_of(h[k]), received)) && received != expected,
    }
}

/// The successful progress acknowledgement of the given kind carrying the
/// given status; kinds that carry no status map to a nominal error
/// acknowledgement and never occur in a mismatch.
pub open spec fn ok_status_ack(k: RunnerMessageKind, s: DownloadStatus) -> RunnerMessageV {
    match k {
        RunnerMessageKind::DownloadBuild => RunnerMessageV::DownloadBuildV(Ok(s)),
        RunnerMessageKind::RecvProfile => RunnerMessageV::RecvProfileV(Ok(s)),
        _ => err_ack(k, Seq::empty()),
    }
}

/// One failed build acknowledgement at step `k` leaves a legal
/// download-build phase transcript.
proof fn lemma_download_ack_err(
    pre: Seq<RunnerMessageV>,
    post: Seq<RunnerMessageV>,
    k: int,
    expected: DownloadStatus,
    e: RecorderProtoError,
)
    requires
        0 <= k < 3,
        db_acks()[k] == RunnerMessageV::DownloadBuildV(Ok(expected)),
        ({
            let mid = pre + db_acks().take(k);
            match e {
                RecorderProtoError::Proto(pe) => match pe {
                    ProtoError::Io(_) | ProtoError::EndOfStream => post == mid,
                    ProtoError::Foreign(m) => post == mid.push(
                        err_ack(RunnerMessageKind::DownloadBuild, m.0@),
                    ),
                    ProtoError::Unexpected(km) => km.expected == RunnerMessageKind::DownloadBuild
                        && km.actual != km.expected && exists|v: RunnerMessageV|
                        #![auto]
                        kind_of(v) == km.actual && post == mid.push(v),
                },
                RecorderProtoError::SequenceMismatch { expected: exp, received: st } => exp
                    == expected && st != expected && post == mid.push(
                    RunnerMessageV::DownloadBuildV(Ok(st)),
                ),
            }
        }),
    ensures
        recorder_phase_err(pre, post, db_acks(), e),
{
    let mid = pre + db_acks().take(k);
    assert(kind_of(db_acks()[k]) == RunnerMessageKind::DownloadBuild);
    match e {
        RecorderProtoError::Proto(pe) => match pe {
            ProtoError::Io(_) | ProtoError::EndOfStream => {
                assert(post =~= pre + db_acks().take(k));
            },
            ProtoError::Foreign(m) => {
                assert(post =~= pre + db_acks().take(k).push(
                    err_ack(kind_of(db_acks()[k]), m.0@),
                ));
            },
            ProtoError::Unexpected(km) => {
                let v = choose|v: RunnerMessageV|
                    #![auto]
                    kind_of(v) == km.actual && post == mid.push(v);
                assert(post =~= pre + db_acks().take(k).push(v));
                assert(0 <= k < db_acks().len() && post == pre + db_acks().take(k).push(v)
                    && kind_of(v) == km.actual && km.expected == kind_of(db_acks()[k])
                    && km.actual != km.expected);
            },
        },
        RecorderProtoError::SequenceMismatch { expected: exp, received: st } => {
            assert(db_acks()[k] == ok_status_ack(kind_of(db_acks()[k]), exp));
            assert(post =~= pre + db_acks().take(k).push(
                ok_status_ack(kind_of(db_acks()[k]), st),
            ));
        },
    }
}

/// One failed profile acknowledgement at step `k` of the phase order `hp`
/// leaves a legal profile phase transcript.
proof fn lemma_profile_ack_err(
    pre: Seq<RunnerMessageV>,
    post: Seq<RunnerMessageV>,
    hp: Seq<RunnerMessageV>,
    k: int,
    expected: DownloadStatus,
    e: RecorderProtoError,
)
    requires
        0 <= k < hp.len(),
        hp[k] == RunnerMessageV::RecvProfileV(Ok(expected)),
        ({
            let mid = pre + hp.take(k);
            match e {
                RecorderProtoError::Proto(pe) => match pe {
                    ProtoError::Io(_) | ProtoError::EndOfStream => post == mid,
                    ProtoError::Foreign(m) => post == mid.push(
                        err_ack(RunnerMessageKind::RecvProfile, m.0@),
                    ),
                    ProtoError::Unexpected(km) => km.expected == RunnerMessageKind::RecvProfile
                        && km.actual != km.expected && exists|v: RunnerMessageV|
                        #![auto]
                        kind_of(v) == km.actual && post == mid.push(v),
                },
                RecorderProtoError::SequenceMismatch { expected: exp, received: st } => exp
                    == expected && st != expected && post == mid.push(
                    RunnerMessageV::RecvProfileV(Ok(st)),
                ),
            }
        }),
    ensures
        recorder_phase_err(pre, post, hp, e),
{
    let mid = pre + hp.take(k);
    assert(kind_of(hp[k]) == RunnerMessageKind::RecvProfile);
    match e {
        RecorderProtoError::Proto(pe) => match pe {
            ProtoError::Io(_) | ProtoError::EndOfStream => {
                assert(post =~= pre + hp.take(k));
            },
            ProtoError::Foreign(m) => {
                assert(post =~= pre + hp.take(k).push(err_ack(kind_of(hp[k]), m.0@)));
            },
            ProtoError::Unexpected(km) => {
                let v = choose|v: RunnerMessageV|
                    #![auto]
                    kind_of(v) == km.actual && post == mid.push(v);
                assert(post =~= pre + hp.take(k).push(v));
                assert(0 <= k < hp.len() && post == pre + hp.take(k).push(v) && kind_of(v)
                    == km.actual && km.expected == kind_of(hp[k]) && km.actual != km.expected);
            },
        },
        RecorderProtoError::SequenceMismatch { expected: exp, received: st } => {
            assert(hp[k] == ok_status_ack(kind_of(hp[k]), exp));
            assert(post =~= pre + hp.take(k).push(ok_status_ack(kind_of(hp[k]), st)));
        },
    }
}

/// One failed typed receive at position `k` of the order `h` leaves a
/// legal phase transcript.
proof fn lemma_single_recv_err(
    pre: Seq<RunnerMessageV>,
    post: Seq<RunnerMessageV>,
    h: Seq<RunnerMessageV>,
    k: int,
    pe: ProtoError,
)
    requires
        0 <= k < h.len(),
        match pe {
            ProtoError::Io(_) | ProtoError::EndOfStream => post == pre + h.take(k),
            ProtoError::Foreign(_) => false,
            ProtoError::Unexpected(km) => km.expected == kind_of(h[k]) && km.actual != km.expected
                && exists|v: RunnerMessageV|
                #![auto]
                kind_of(v) == km.actual && post == (pre + h.take(k)).push(v),
        },
    ensures
        recorder_phase_err(pre, post, h, RecorderProtoError::Proto(pe)),
{
    match pe {
        ProtoError::Io(_) | ProtoError::EndOfStream => {
        },
        ProtoError::Foreign(_) => {
        },
        ProtoError::Unexpected(km) => {
            let v = choose|v: RunnerMessageV|
                #![auto]
                kind_of(v) == km.actual && post == (pre + h.take(k)).push(v);
            assert(post =~= pre + h.take(k).push(v));
            assert(0 <= k < h.len() && post == pre + h.take(k).push(v) && kind_of(v) == km.actual
                && km.expected == kind_of(h[k]) && km.actual != km.expected);
        },
    }
}

/// A phase error against a sub-sequence `hp` of `h` starting at `off`
/// lifts to a phase error against `h` itself.
pub proof fn lemma_lift_phase_err(
    pre: Seq<RunnerMessageV>,
    post: Seq<RunnerMessageV>,
    h: Seq<RunnerMessageV>,
    hp: Seq<RunnerMessageV>,
    off: int,
    e: RecorderProtoError,
)
    requires
        0 <= off,
        off + hp.len() <= h.len(),
        forall|k: int| 0 <= k <= hp.len() ==> #[trigger] h.take(off + k) == h.take(off) + hp.take(k),
        forall|k: int| 0 <= k < hp.len() ==> #[trigger] h[off + k] == hp[k],
        recorder_phase_err(pre + h.take(off), post, hp, e),
    ensures
        recorder_phase_err(pre, post, h, e),
{
    let mid = pre + h.take(off);
    match e {
        RecorderProtoError::Proto(pe) => match pe {
            ProtoError::Io(_) | ProtoError::EndOfStream => {
                let k = choose|k: int| 0 <= k <= hp.len() && post == mid + hp.take(k);
                assert(post =~= pre + h.take(off + k));
            },
            ProtoError::Foreign(m) => {
                let k = choose|k: int|
                    0 <= k < hp.len() && post == mid + hp.take(k).push(
                        err_ack(kind_of(hp[k]), m.0@),
                    );
                assert(h[off + k] == hp[k]);
                assert(post =~= pre + h.take(off + k).push(err_ack(kind_of(h[off + k]), m.0@)));
            },
            ProtoError::Unexpected(km) => {
                let (k, v) = choose|k: int, v: RunnerMessageV|
                    0 <= k < hp.len() && post == mid + hp.take(k).push(v) && kind_of(v)
                        == km.actual && km.expected == kind_of(hp[k]) && km.actual != km.expected;
                assert(h[off + k] == hp[k]);
                assert(post =~= pre + h.take(off + k).push(v));
            },
        },
        RecorderProtoError::SequenceMismatch { expected, received } => {
            let k = choose|k: int|
                0 <= k < hp.len() && hp[k] == ok_status_ack(kind_of(hp[k]), expected) && post
                    == mid + hp.take(k).push(ok_status_ack(kind_of(hp[k]), received)) && received
                    != expected;
            assert(h[off + k] == hp[k]);
            assert(post =~= pre + h.take(off + k).push(ok_status_ack(kind_of(h[off + k]), received)));
        },
    }
}

/// A recorder transport together with the ghost transcript of the
/// messages received so far, in order.
pub struct RecorderProto<C: RecorderTransport> {
    /// The underlying transport.
    pub inner: C,
    received: Ghost<Seq<RunnerMessageV>>,
}

impl<C: RecorderTransport> RecorderProto<C> {
    /// The messages received so far, in wire order.
    pub closed spec fn received(&self) -> Seq<RunnerMessageV> {
        self.received@
    }

    /// Wrap a connection; nothing has been received yet.
    pub fn new(inner: C) -> (r: Self)
        ensures
            r.received() == Seq::<RunnerMessageV>::empty(),
    {
        RecorderProto { inner, received: Ghost(Seq::empty()) }
    }

    /// Receive the acknowledgement the current phase calls for; any other
    /// kind is a protocol error.
    fn recv<M: MessageContent>(&mut self) -> (r: Result<M, ProtoError>)
        ensures
            match r {
                Ok(c) => final(self).received() == old(self).received().push(M::spec_wrap(c@))
                    && kind_of(M::spec_wrap(c@)) == M::spec_kind(),
                Err(pe) => match pe {
                    ProtoError::Unexpected(km) => {
                        &&& km.expected == M::spec_kind()
                        &&& km.actual != M::spec_kind()
                        &&& exists|v: RunnerMessageV|
                            #![auto]
                            kind_of(v) == km.actual && final(self).received() == old(
                                self,
                            ).received().push(v)
                    },
                    ProtoError::Foreign(_) => false,
                    _ => final(self).received() == old(self).received(),
                },
            },
    {
        let msg = match self.inner.recv() {
            Err(m) => {
                return Err(ProtoError::Io(m));
            },
            Ok(None) => {
                return Err(ProtoError::EndOfStream);
            },
            Ok(Some(msg)) => msg,
        };
        proof {
            self.received@ = self.received@.push(msg@);
        }
        match M::try_extract(msg) {
            Ok(c) => Ok(c),
            Err(km) => Err(ProtoError::Unexpected(km)),
        }
    }

    /// Send the one request; nothing is received.
    fn send_request(&mut self, msg: RecorderMessage) -> (r: Result<(), ErrorMessage>)
        ensures
            final(self).received() == old(self).received(),
    {
        self.inner.send(msg)
    }

    /// Receive one build-progress acknowledgement, requiring it to carry
    /// exactly the expected status.
    fn recv_download_ack(&mut self, expected: DownloadStatus) -> (r: Result<
        (),
        RecorderProtoError,
    >)
        ensures
            match r {
                Ok(()) => final(self).received() == old(self).received().push(
                    RunnerMessageV::DownloadBuildV(Ok(expected)),
                ),
                Err(e) => match e {
                    RecorderProtoError::Proto(pe) => match pe {
                        ProtoError::Io(_) | ProtoError::EndOfStream => final(self).received()
                            == old(self).received(),
                        ProtoError::Foreign(m) => final(self).received() == old(
                            self,
                        ).received().push(err_ack(RunnerMessageKind::DownloadBuild, m.0@)),
                        ProtoError::Unexpected(km) => {
                            &&& km.expected == RunnerMessageKind::DownloadBuild
                            &&& km.actual != km.expected
                            &&& exists|v: RunnerMessageV|
                                #![auto]
                                kind_of(v) == km.actual && final(self).received() == old(
                                    self,
                                ).received().push(v)
                        },
                    },
                    RecorderProtoError::SequenceMismatch { expected: exp, received: st } => {
                        &&& exp == expected
                        &&& st != expected
                        &&& final(self).received() == old(self).received().push(
                            RunnerMessageV::DownloadBuildV(Ok(st)),
                        )
                    },
                },
            },
    {
        let ack: DownloadBuild = match self.recv::<DownloadBuild>() {
            Ok(a) => a,
            Err(pe) => {
                return Err(RecorderProtoError::Proto(pe));
            },
        };
        let status = match ack.result {
            Ok(s) => s,
            Err(m) => {
                return Err(RecorderProtoError::Proto(ProtoError::Foreign(m)));
            },
        };
        if status != expected {
            return Err(RecorderProtoError::SequenceMismatch { expected, received: status });
        }
        Ok(())
    }

    /// Receive one profile-progress acknowledgement, requiring it to carry
    /// exactly the expected status.
    fn recv_profile_ack(&mut self, expected: DownloadStatus) -> (r: Result<
        (),
        RecorderProtoError,
    >)
        ensures
            match r {
                Ok(()) => final(self).received() == old(self).received().push(
                    RunnerMessageV::RecvProfileV(Ok(expected)),
                ),
                Err(e) => match e {
                    RecorderProtoError::Proto(pe) => match pe {
                        ProtoError::Io(_) | ProtoError::EndOfStream => final(self).received()
                            == old(self).received(),
                        ProtoError::Foreign(m) => final(self).received() == old(
                            self,
                        ).received().push(err_ack(RunnerMessageKind::RecvProfile, m.0@)),
                        ProtoError::Unexpected(km) => {
                            &&& km.expected == RunnerMessageKind::RecvProfile
                            &&& km.actual != km.expected
                            &&& exists|v: RunnerMessageV|
                                #![auto]
                                kind_of(v) == km.actual && final(self).received() == old(
                                    self,
                                ).received().push(v)
                        },
                    },
                    RecorderProtoError::SequenceMismatch { expected: exp, received: st } => {
                        &&& exp == expected
                        &&& st != expected
                        &&& final(self).received() == old(self).received().push(
                            RunnerMessageV::RecvProfileV(Ok(st)),
                        )
                    },
                },
            },
    {
        let ack: RecvProfile = match self.recv::<RecvProfile>() {
            Ok(a) => a,
            Err(pe) => {
                return Err(RecorderProtoError::Proto(pe));
            },
        };
        let status = match ack.result {
            Ok(s) => s,
            Err(m) => {
                return Err(RecorderProtoError::Proto(ProtoError::Foreign(m)));
            },
        };
        if status != expected {
            return Err(RecorderProtoError::SequenceMismatch { expected, received: status });
        }
        Ok(())
    }

    /// Consume the run of build-progress acknowledgements, requiring the
    /// strict order `Downloading`, `Downloaded`, `Extracted`.
    fn consume_download_build(&mut self) -> (r: Result<(), RecorderProtoError>)
        ensures
            match r {
                Ok(()) => final(self).received() == old(self).received() + db_acks(),
                Err(e) => recorder_phase_err(
                    old(self).received(),
                    final(self).received(),
                    db_acks(),
                    e,
                ),
            },
    {
        let ghost pre = self.received();
        proof {
            assert(db_acks().take(0) =~= Seq::<RunnerMessageV>::empty());
            assert(db_acks().take(1) =~= db_acks().take(0).push(db_acks()[0]));
            assert(db_acks().take(2) =~= db_acks().take(1).push(db_acks()[1]));
            assert(db_acks().take(3) =~= db_acks());
            assert(kind_of(db_acks()[0]) == RunnerMessageKind::DownloadBuild);
            assert(kind_of(db_acks()[1]) == RunnerMessageKind::DownloadBuild);
            assert(kind_of(db_acks()[2]) == RunnerMessageKind::DownloadBuild);
            assert(db_acks()[0] == ok_status_ack(
                RunnerMessageKind::DownloadBuild,
                DownloadStatus::Downloading,
            ));
            assert(db_acks()[1] == ok_status_ack(
                RunnerMessageKind::DownloadBuild,
                DownloadStatus::Downloaded,
            ));
            assert(db_acks()[2] == ok_status_ack(
                RunnerMessageKind::DownloadBuild,
                DownloadStatus::Extracted,
            ));
        }
        if let Err(e) = self.recv_download_ack(DownloadStatus::Downloading) {
            proof {
                lemma_download_ack_err(pre, self.received(), 0, DownloadStatus::Downloading, e);
            }
            return Err(e);
        }
        proof {
            assert(self.received() =~= pre + db_acks().take(1));
        }
        if let Err(e) = self.recv_download_ack(DownloadStatus::Downloaded) {
            proof {
                lemma_download_ack_err(pre, self.received(), 1, DownloadStatus::Downloaded, e);
            }
            return Err(e);
        }
        proof {
            assert(self.received() =~= pre + db_acks().take(2));
        }
        if let Err(e) = self.recv_download_ack(DownloadStatus::Extracted) {
            proof {
                lemma_download_ack_err(pre, self.received(), 2, DownloadStatus::Extracted, e);
            }
            return Err(e);
        }
        proof {
            assert(self.received() =~= pre + db_acks());
        }
        Ok(())
    }

    /// Consume the remaining profile-progress acknowledgements after
    /// `Downloading`, requiring the order `Downloaded`, `Extracted`.
    fn consume_recv_profile_rest(&mut self) -> (r: Result<(), RecorderProtoError>)
        ensures
            match r {
                Ok(()) => final(self).received() == old(self).received() + rp_acks().skip(1),
                Err(e) => recorder_phase_err(
                    old(self).received(),
                    final(self).received(),
                    rp_acks().skip(1),
                    e,
                ),
            },
    {
        let ghost pre = self.received();
        let ghost hp = rp_acks().skip(1);
        proof {
            assert(hp.take(0) =~= Seq::<RunnerMessageV>::empty());
            assert(hp.take(1) =~= hp.take(0).push(hp[0]));
            assert(hp.take(2) =~= hp);
            assert(kind_of(hp[0]) == RunnerMessageKind::RecvProfile);
            assert(kind_of(hp[1]) == RunnerMessageKind::RecvProfile);
            assert(hp[0] == ok_status_ack(
                RunnerMessageKind::RecvProfile,
                DownloadStatus::Downloaded,
            ));
            assert(hp[1] == ok_status_ack(
                RunnerMessageKind::RecvProfile,
                DownloadStatus::Extracted,
            ));
        }
        if let Err(e) = self.recv_profile_ack(DownloadStatus::Downloaded) {
            proof {
                lemma_profile_ack_err(pre, self.received(), hp, 0, DownloadStatus::Downloaded, e);
            }
            return Err(e);
        }
        proof {
            assert(self.received() =~= pre + hp.take(1));
        }
        if let Err(e) = self.recv_profile_ack(DownloadStatus::Extracted) {
            proof {
                lemma_profile_ack_err(pre, self.received(), hp, 1, DownloadStatus::Extracted, e);
            }
            return Err(e);
        }
        proof {
            assert(self.received() =~= pre + hp);
        }
        Ok(())
    }

    /// Send the profile archive: consume the `Downloading` acknowledgement,
    /// stream the raw bytes, then consume the remaining progress.
    fn send_profile(&mut self, profile_path: &str) -> (r: Result<(), RecorderProtoError>)
        ensures
            match r {
                Ok(()) => final(self).received() == old(self).received() + rp_acks(),
                Err(e) => recorder_phase_err(
                    old(self).received(),
                    final(self).received(),
                    rp_acks(),
                    e,
                ),
            },
    {
        let ghost pre = self.received();
        proof {
            assert(rp_acks()[0] == RunnerMessageV::RecvProfileV(Ok(DownloadStatus::Downloading)));
            assert(kind_of(rp_acks()[0]) == RunnerMessageKind::RecvProfile);
            assert(rp_acks().take(0) =~= Seq::<RunnerMessageV>::empty());
        }
        let ack: RecvProfile = match self.recv::<RecvProfile>() {
            Ok(a) => a,
            Err(pe) => {
                proof {
                    match &pe {
                        ProtoError::Unexpected(km) => {
                            let v = choose|v: RunnerMessageV|
                                #![auto]
                                kind_of(v) == km.actual && self.received() == pre.push(v);
                            assert(self.received() =~= pre + rp_acks().take(0).push(v));
                            assert(0 <= 0 < rp_acks().len() && self.received() == pre
                                + rp_acks().take(0).push(v) && kind_of(v) == km.actual
                                && km.expected == kind_of(rp_acks()[0]) && km.actual
                                != km.expected);
                        },
                        _ => {
                            assert(self.received() =~= pre + rp_acks().take(0));
                        },
                    }
                    assert(recorder_phase_err(
                        pre,
                        self.received(),
                        rp_acks(),
                        RecorderProtoError::Proto(pe),
                    ));
                }
                return Err(RecorderProtoError::Proto(pe));
            },
        };
        let status = match ack.result {
            Ok(s) => s,
            Err(m) => {
                proof {
                    assert(self.received() =~= pre + rp_acks().take(0).push(
                        err_ack(RunnerMessageKind::RecvProfile, m.0@),
                    ));
                    assert(recorder_phase_err(
                        pre,
                        self.received(),
                        rp_acks(),
                        RecorderProtoError::Proto(ProtoError::Foreign(m)),
                    ));
                }
                return Err(RecorderProtoError::Proto(ProtoError::Foreign(m)));
            },
        };
        if status != DownloadStatus::Downloading {
            proof {
                assert(rp_acks()[0] == ok_status_ack(
                    RunnerMessageKind::RecvProfile,
                    DownloadStatus::Downloading,
                ));
                assert(self.received() =~= pre + rp_acks().take(0).push(
                    ok_status_ack(RunnerMessageKind::RecvProfile, status),
                ));
                assert(recorder_phase_err(
                    pre,
                    self.received(),
                    rp_acks(),
                    RecorderProtoError::SequenceMismatch {
                        expected: DownloadStatus::Downloading,
                        received: status,
                    },
                ));
            }
            return Err(
                RecorderProtoError::SequenceMismatch {
                    expected: DownloadStatus::Downloading,
                    received: status,
                },
            );
        }
        proof {
            assert(self.received() =~= pre + rp_acks().take(1));
        }
        if let Err(m) = self.inner.send_profile_raw(profile_path) {
            proof {
                assert(self.received() =~= pre + rp_acks().take(1));
                assert(recorder_phase_err(
                    pre,
                    self.received(),
                    rp_acks(),
                    RecorderProtoError::Proto(ProtoError::Io(m)),
                ));
            }
            return Err(RecorderProtoError::Proto(ProtoError::Io(m)));
        }
        let ghost mid = self.received();
        match self.consume_recv_profile_rest() {
            Ok(()) => {
                proof {
                    assert(self.received() =~= pre + rp_acks());
                }
                Ok(())
            },
            Err(e) => {
                proof {
                    assert forall|k: int| 0 <= k <= rp_acks().skip(1).len() implies #[trigger]
                        rp_acks().take(1 + k) == rp_acks().take(1) + rp_acks().skip(1).take(k) by {
                        assert(rp_acks().take(1 + k) =~= rp_acks().take(1) + rp_acks().skip(1).take(
                            k,
                        ));
                    }
                    assert forall|k: int| 0 <= k < rp_acks().skip(1).len() implies #[trigger]
                        rp_acks()[1 + k] == rp_acks().skip(1)[k] by {}
                    lemma_lift_phase_err(pre, self.received(), rp_acks(), rp_acks().skip(1), 1, e);
                }
                Err(e)
            },
        }
    }

    /// Request a new session and consume the runner's phase
    /// acknowledgements; return the new session's ID.
    ///
    /// `profile` carries the path and byte size of the profile archive to
    /// stream, if one is supplied.
    pub fn new_session(
        &mut self,
        task_id: &str,
        profile: Option<(&str, u64)>,
        prefs: Vec<(String, PrefValue)>,
    ) -> (r: Result<String, RecorderProtoError>)
        ensures
            ({
                let pre = old(self).received();
                let post = final(self).received();
                let wp = profile is Some;
                match r {
                    Ok(sid) => post == pre + new_session_happy(sid@, wp),
                    Err(e) => exists|id: Seq<char>|
                        #![auto]
                        recorder_phase_err(pre, post, new_session_happy(id, wp), e),
                }
            }),
    {
        let ghost pre = self.received();
        let ghost wp = profile is Some;
        let ghost h0 = new_session_happy(Seq::<char>::empty(), wp);
        proof {
            assert(h0.take(0) =~= Seq::<RunnerMessageV>::empty());
            assert(kind_of(h0[0]) == RunnerMessageKind::NewSessionResponse);
        }
        let profile_size: Option<u64> = match profile {
            Some((_, size)) => Some(size),
            None => None,
        };
        let req = NewSessionRequest { build_task_id: task_id.to_owned(), profile_size, prefs };
        if let Err(m) = self.send_request(RecorderMessage::Session(Session::NewSession(req))) {
            proof {
                assert(self.received() =~= pre + h0.take(0));
                assert(recorder_phase_err(
                    pre,
                    self.received(),
                    h0,
                    RecorderProtoError::Proto(ProtoError::Io(m)),
                ));
            }
            return Err(RecorderProtoError::Proto(ProtoError::Io(m)));
        }
        let resp: NewSessionResponse = match self.recv::<NewSessionResponse>() {
            Ok(c) => c,
            Err(pe) => {
                proof {
                    assert(pre =~= pre + h0.take(0));
                    lemma_single_recv_err(pre, self.received(), h0, 0, pe);
                }
                return Err(RecorderProtoError::Proto(pe));
            },
        };
        let session_id: String = match resp.session_id {
            Ok(sid) => sid,
            Err(m) => {
                proof {
                    assert(self.received() =~= pre + h0.take(0).push(
                        err_ack(RunnerMessageKind::NewSessionResponse, m.0@),
                    ));
                    assert(recorder_phase_err(
                        pre,
                        self.received(),
                        h0,
                        RecorderProtoError::Proto(ProtoError::Foreign(m)),
                    ));
                }
                return Err(RecorderProtoError::Proto(ProtoError::Foreign(m)));
            },
        };
        let ghost id = session_id@;
        let ghost h = new_session_happy(id, wp);
        proof {
            assert(h == new_session_happy(id, wp));
            assert(kind_of(h[0]) == RunnerMessageKind::NewSessionResponse);
            assert(h.take(1) =~= seq![RunnerMessageV::NewSessionResponseV(Ok(id))]);
            assert(self.received() =~= pre + h.take(1));
            assert(h.take(4) =~= h.take(1) + db_acks());
            assert(h.take(5) =~= h.take(4).push(RunnerMessageV::DisableUpdatesV(Ok(()))));
            assert(kind_of(h[4]) == RunnerMessageKind::DisableUpdates);
            if wp {
                assert(h.take(8) =~= h.take(5) + rp_acks());
                assert(kind_of(h[5]) == RunnerMessageKind::RecvProfile);
            } else {
                assert(h.take(6) =~= h.take(5).push(RunnerMessageV::CreateProfileV(Ok(()))));
                assert(kind_of(h[5]) == RunnerMessageKind::CreateProfile);
            }
        }
        let ghost sent1 = self.received();
        if let Err(e) = self.consume_download_build() {
            proof {
                assert forall|k: int| 0 <= k <= db_acks().len() implies #[trigger] h.take(1 + k)
                    == h.take(1) + db_acks().take(k) by {
                    assert(h.take(1 + k) =~= h.take(1) + db_acks().take(k));
                }
                assert forall|k: int| 0 <= k < db_acks().len() implies #[trigger] h[1 + k]
                    == db_acks()[k] by {}
                lemma_lift_phase_err(pre, self.received(), h, db_acks(), 1, e);
            }
            return Err(e);
        }
        proof {
            assert(self.received() =~= pre + h.take(4));
        }
        let du: DisableUpdates = match self.recv::<DisableUpdates>() {
            Ok(c) => c,
            Err(pe) => {
                proof {
                    lemma_single_recv_err(pre, self.received(), h, 4, pe);
                }
                return Err(RecorderProtoError::Proto(pe));
            },
        };
        if let Err(m) = du.result {
            proof {
                assert(self.received() =~= pre + h.take(4).push(
                    err_ack(RunnerMessageKind::DisableUpdates, m.0@),
                ));
                assert(recorder_phase_err(
                    pre,
                    self.received(),
                    h,
                    RecorderProtoError::Proto(ProtoError::Foreign(m)),
                ));
            }
            return Err(RecorderProtoError::Proto(ProtoError::Foreign(m)));
        }
        proof {
            assert(self.received() =~= pre + h.take(5));
        }
        match profile {
            Some((profile_path, _)) => {
                if let Err(e) = self.send_profile(profile_path) {
                    proof {
                        assert forall|k: int| 0 <= k <= rp_acks().len() implies #[trigger] h.take(
                            5 + k,
                        ) == h.take(5) + rp_acks().take(k) by {
                            assert(h.take(5 + k) =~= h.take(5) + rp_acks().take(k));
                        }
                        assert forall|k: int| 0 <= k < rp_acks().len() implies #[trigger] h[5 + k]
                            == rp_acks()[k] by {}
                        lemma_lift_phase_err(pre, self.received(), h, rp_acks(), 5, e);
                    }
                    return Err(e);
                }
                proof {
                    assert(self.received() =~= pre + h.take(8));
                }
            },
            None => {
                let cp: CreateProfile = match self.recv::<CreateProfile>() {
                    Ok(c) => c,
                    Err(pe) => {
                        proof {
                            lemma_single_recv_err(pre, self.received(), h, 5, pe);
                        }
                        return Err(RecorderProtoError::Proto(pe));
                    },
                };
                if let Err(m) = cp.result {
                    proof {
                        assert(self.received() =~= pre + h.take(5).push(
                            err_ack(RunnerMessageKind::CreateProfile, m.0@),
                        ));
                        assert(recorder_phase_err(
                            pre,
                            self.received(),
                            h,
                            RecorderProtoError::Proto(ProtoError::Foreign(m)),
                        ));
                    }
                    return Err(RecorderProtoError::Proto(ProtoError::Foreign(m)));
                }
                proof {
                    assert(self.received() =~= pre + h.take(6));
                }
            },
        }
        let ghost steps_done: int = if wp {
            8
        } else {
            6
        };
        proof {
            assert(self.received() =~= pre + h.take(steps_done));
            assert(kind_of(h[steps_done]) == RunnerMessageKind::WritePrefs);
            assert(h.take(steps_done + 1) =~= h.take(steps_done).push(
                RunnerMessageV::WritePrefsV(Ok(())),
            ));
            assert(kind_of(h[steps_done + 1]) == RunnerMessageKind::Restarting);
            assert(h.take(steps_done + 2) =~= h.take(steps_done + 1).push(
                RunnerMessageV::RestartingV(Ok(())),
            ));
            assert(h.take(h.len() as int) =~= h);
        }
        let wps: WritePrefs = match self.recv::<WritePrefs>() {
            Ok(c) => c,
            Err(pe) => {
                proof {
                    lemma_single_recv_err(pre, self.received(), h, steps_done, pe);
                }
                return Err(RecorderProtoError::Proto(pe));
            },
        };
        if let Err(m) = wps.result {
            proof {
                assert(self.received() =~= pre + h.take(steps_done).push(
                    err_ack(RunnerMessageKind::WritePrefs, m.0@),
                ));
                assert(recorder_phase_err(
                    pre,
                    self.received(),
                    h,
                    RecorderProtoError::Proto(ProtoError::Foreign(m)),
                ));
            }
            return Err(RecorderProtoError::Proto(ProtoError::Foreign(m)));
        }
        let rs: Restarting = match self.recv::<Restarting>() {
            Ok(c) => c,
            Err(pe) => {
                proof {
                    lemma_single_recv_err(pre, self.received(), h, steps_done + 1, pe);
                }
                return Err(RecorderProtoError::Proto(pe));
            },
        };
        if let Err(m) = rs.result {
            proof {
                assert(self.received() =~= pre + h.take(steps_done + 1).push(
                    err_ack(RunnerMessageKind::Restarting, m.0@),
                ));
                assert(recorder_phase_err(
                    pre,
                    self.received(),
                    h,
                    RecorderProtoError::Proto(ProtoError::Foreign(m)),
                ));
            }
            return Err(RecorderProtoError::Proto(ProtoError::Foreign(m)));
        }
        proof {
            assert(self.received() =~= pre + h);
        }
        Ok(session_id)
    }

    /// Resume a prepared session after the reconnection, optionally waiting
    /// for the runner to report that it became idle.
    pub fn resume_session(&mut self, session_id: &str, idle: Idle) -> (r: Result<
        (),
        RecorderProtoError,
    >)
        ensures
            ({
                let pre = old(self).received();
                let post = final(self).received();
                let wait = idle is Wait;
                match r {
                    Ok(()) => post == pre + resume_happy(wait),
                    Err(e) => recorder_phase_err(pre, post, resume_happy(wait), e),
                }
            }),
    {
        let ghost pre = self.received();
        let ghost h = resume_happy(idle is Wait);
        proof {
            assert(kind_of(h[0]) == RunnerMessageKind::ResumeResponse);
            assert(h.take(0) =~= Seq::<RunnerMessageV>::empty());
            assert(h.take(1) =~= seq![RunnerMessageV::ResumeResponseV(Ok(()))]);
            assert(h.take(h.len() as int) =~= h);
        }
        let req = ResumeSessionRequest { session_id: session_id.to_owned(), idle };
        if let Err(m) = self.send_request(RecorderMessage::Session(Session::ResumeSession(req))) {
            proof {
                assert(self.received() =~= pre + h.take(0));
                assert(recorder_phase_err(
                    pre,
                    self.received(),
                    h,
                    RecorderProtoError::Proto(ProtoError::Io(m)),
                ));
            }
            return Err(RecorderProtoError::Proto(ProtoError::Io(m)));
        }
        let resp: ResumeResponse = match self.recv::<ResumeResponse>() {
            Ok(c) => c,
            Err(pe) => {
                proof {
                    assert(pre =~= pre + h.take(0));
                    lemma_single_recv_err(pre, self.received(), h, 0, pe);
                }
                return Err(RecorderProtoError::Proto(pe));
            },
        };
        if let Err(m) = resp.result {
            proof {
                assert(self.received() =~= pre + h.take(0).push(
                    err_ack(RunnerMessageKind::ResumeResponse, m.0@),
                ));
                assert(recorder_phase_err(
                    pre,
                    self.received(),
                    h,
                    RecorderProtoError::Proto(ProtoError::Foreign(m)),
                ));
            }
            return Err(RecorderProtoError::Proto(ProtoError::Foreign(m)));
        }
        proof {
            assert(self.received() =~= pre + h.take(1));
        }
        if idle == Idle::Wait {
            proof {
                assert(h.len() == 2);
                assert(kind_of(h[1]) == RunnerMessageKind::WaitForIdle);
            }
            let wfi: WaitForIdle = match self.recv::<WaitForIdle>() {
                Ok(c) => c,
                Err(pe) => {
                    proof {
                        lemma_single_recv_err(pre, self.received(), h, 1, pe);
                    }
                    return Err(RecorderProtoError::Proto(pe));
                },
            };
            if let Err(m) = wfi.result {
                proof {
                    assert(self.received() =~= pre + h.take(1).push(
                        err_ack(RunnerMessageKind::WaitForIdle, m.0@),
                    ));
                    assert(recorder_phase_err(
                        pre,
                        self.received(),
                        h,
                        RecorderProtoError::Proto(ProtoError::Foreign(m)),
                    ));
                }
                return Err(RecorderProtoError::Proto(ProtoError::Foreign(m)));
            }
        }
        proof {
            assert(self.received() =~= pre + h);
        }
        Ok(())
    }
}

} // verus!
