//! The stream manager's decisions: which sessions exist, what a setup-endpoint or
//! selected-stream-configuration write asks the media provider to do, and what the
//! streaming-status characteristic reads.
//!
//! The provider's work (looking up its address, starting and stopping streams) and
//! the delivery of answers happen outside; their outcomes come back in as arguments.

use vstd::prelude::*;
use std::collections::HashMap;
use crate::protocol::{
    EndpointAddress, EndpointResponse, ProtocolError, SelectedStreamRequestKind, SessionId,
    SetupEndpointCrypto, SetupEndpointRequest, SpecAddress, SpecCrypto, SpecSetupRequest,
    SpecStreamInfo, StreamInfo, STREAMING_STATUS_AVAILABLE, STREAMING_STATUS_STREAMING,
    endpoint_response, selected_stream_configuration_request, setup_endpoint_request,
    setup_request_lacks_audio_suite, spec_selected_stream_request, spec_setup_endpoint_address,
    spec_setup_endpoint_request,
    spec_setup_endpoint_response, spec_stream_info, stream_info_overflows, stream_info_response,
};
use crate::tlv::{encode, encode_items, items_view};
use crate::text::random_u32;

verus! {

broadcast use vstd::std_specs::hash::group_hash_axioms;

/// Whether a stream is running.
#[derive(Debug, Clone, Copy, PartialEq, Eq)]
pub enum StreamingStatus {
    Streaming,
    Available,
}

/// A stream session set up by a controller.
#[derive(Debug, Clone)]
pub struct SessionState {
    pub session_id: SessionId,
    pub address: EndpointAddress,
    pub video_port: u16,
    pub audio_port: u16,
    pub video_crypto: SetupEndpointCrypto,
    pub audio_crypto: SetupEndpointCrypto,
    pub video_ssrc: u32,
    pub audio_ssrc: u32,
}

pub struct SpecSessionState {
    pub session_id: Seq<u8>,
    pub address: SpecAddress,
    pub video_port: u16,
    pub audio_port: u16,
    pub video_crypto: SpecCrypto,
    pub audio_crypto: SpecCrypto,
    pub video_ssrc: u32,
    pub audio_ssrc: u32,
}

impl View for SessionState {
    type V = SpecSessionState;

    open spec fn view(&self) -> SpecSessionState {
        SpecSessionState {
            session_id: self.session_id@,
            address: self.address@,
            video_port: self.video_port,
            audio_port: self.audio_port,
            video_crypto: self.video_crypto@,
            audio_crypto: self.audio_crypto@,
            video_ssrc: self.video_ssrc,
            audio_ssrc: self.audio_ssrc,
        }
    }
}

/// The session that a setup request opens, with the SSRCs the accessory announced.
pub open spec fn session_of_request(req: SpecSetupRequest, video_ssrc: u32, audio_ssrc: u32) -> SpecSessionState {
    SpecSessionState {
        session_id: req.session_id,
        address: req.address,
        video_port: req.video_port,
        audio_port: req.audio_port,
        video_crypto: req.video_crypto,
        audio_crypto: req.audio_crypto,
        video_ssrc,
        audio_ssrc,
    }
}

fn copy_bytes(v: &Vec<u8>) -> (r: Vec<u8>)
    ensures
        r@ == v@,
{
    let c = v.clone();
    assert(c@ =~= v@);
    c
}

fn copy_crypto(c: &SetupEndpointCrypto) -> (r: SetupEndpointCrypto)
    ensures
        r@ == c@,
{
    SetupEndpointCrypto {
        cypto_suite: c.cypto_suite,
        master_key: copy_bytes(&c.master_key),
        master_salt: copy_bytes(&c.master_salt),
    }
}

impl SessionState {
    /// A copy of the session.
    pub fn duplicate(&self) -> (r: SessionState)
        ensures
            r@ == self@,
    {
        let text = self.address.text.clone();
        SessionState {
            session_id: self.session_id,
            address: EndpointAddress { is_ipv6: self.address.is_ipv6, text },
            video_port: self.video_port,
            audio_port: self.audio_port,
            video_crypto: copy_crypto(&self.video_crypto),
            audio_crypto: copy_crypto(&self.audio_crypto),
            video_ssrc: self.video_ssrc,
            audio_ssrc: self.audio_ssrc,
        }
    }
}

/// Errors of the stream manager.
#[derive(Debug, Clone, PartialEq, Eq)]
pub enum StreamManagerError {
    InvalidAccessory,
    MissingCharacteristic,
    /// A selected-stream request names a session that was never set up.
    SessionNotFound,
    /// The media provider failed; the text is its message.
    Provider(String),
    /// An accessory or characteristic operation failed; the text is its message.
    Hap(String),
    ProtocolError(ProtocolError),
}

/// What the media provider is asked to do for a selected-stream request.
#[derive(Debug)]
pub struct StreamCommand {
    pub kind: SelectedStreamRequestKind,
    pub session: SessionState,
    /// The stream parameters; present for start and reconfigure, absent for stop.
    pub info: Option<StreamInfo>,
}

pub struct SpecStreamCommand {
    pub kind: SelectedStreamRequestKind,
    pub session: SpecSessionState,
    pub info: Option<SpecStreamInfo>,
}

impl View for StreamCommand {
    type V = SpecStreamCommand;

    open spec fn view(&self) -> SpecStreamCommand {
        SpecStreamCommand {
            kind: self.kind,
            session: self.session@,
            info: match self.info {
                Some(i) => Some(i@),
                None => None,
            },
        }
    }
}

/// Whether no two sessions share an id.
pub open spec fn ids_distinct(ss: Seq<SpecSessionState>) -> bool {
    forall|i: int, j: int|
        0 <= i < ss.len() && 0 <= j < ss.len() && i != j ==> #[trigger] ss[i].session_id != #[trigger] ss[j].session_id
}

/// Whether a session with id `id` exists.
pub open spec fn has_session(ss: Seq<SpecSessionState>, id: Seq<u8>) -> bool {
    exists|i: int| 0 <= i < ss.len() && #[trigger] ss[i].session_id == id
}

/// The session with id `id`, if there is one.
pub open spec fn lookup(ss: Seq<SpecSessionState>, id: Seq<u8>) -> Option<SpecSessionState> {
    if has_session(ss, id) {
        Some(ss[choose|i: int| 0 <= i < ss.len() && #[trigger] ss[i].session_id == id])
    } else {
        None
    }
}

/// The sessions after storing `st`: it replaces the session of its id, or comes last.
pub open spec fn with_session(ss: Seq<SpecSessionState>, st: SpecSessionState) -> Seq<SpecSessionState> {
    if has_session(ss, st.session_id) {
        ss.update(choose|i: int| 0 <= i < ss.len() && #[trigger] ss[i].session_id == st.session_id, st)
    } else {
        ss.push(st)
    }
}

/// The status byte of the streaming-status characteristic: streaming or available
/// (also for a stream never started).
pub open spec fn status_byte(s: Option<StreamingStatus>) -> u8 {
    match s {
        Some(StreamingStatus::Streaming) => STREAMING_STATUS_STREAMING,
        _ => STREAMING_STATUS_AVAILABLE,
    }
}

/// The streaming-status value of stream `idx` under the statuses `m`.
pub open spec fn spec_streaming_status(m: Map<usize, StreamingStatus>, idx: usize) -> Seq<u8> {
    encode_items(seq![(0x01u8, seq![status_byte(if m.contains_key(idx) { Some(m[idx]) } else { None })])])
}

/// The status of stream `idx` after the provider carried out a command of `kind`:
/// a start or reconfigure leaves it streaming if it succeeded and available if not;
/// a stop leaves it available if it succeeded and unchanged if not.
pub open spec fn status_after(
    m: Map<usize, StreamingStatus>,
    idx: usize,
    kind: SelectedStreamRequestKind,
    succeeded: bool,
) -> Map<usize, StreamingStatus> {
    match kind {
        SelectedStreamRequestKind::Stop => if succeeded {
            m.insert(idx, StreamingStatus::Available)
        } else {
            m
        },
        _ => m.insert(idx, if succeeded { StreamingStatus::Streaming } else { StreamingStatus::Available }),
    }
}

/// What a selected-stream write asks for, given the sessions `ss`: the request's error,
/// `SessionNotFound`, a stop of the session, or a start or reconfigure of the session
/// with the stream parameters (or their error).
pub open spec fn spec_selected_command(ss: Seq<SpecSessionState>, b: Seq<u8>) -> Result<SpecStreamCommand, StreamManagerError> {
    match spec_selected_stream_request(b) {
        Err(e) => Err(StreamManagerError::ProtocolError(e)),
        Ok((id, kind)) => match lookup(ss, id) {
            None => Err(StreamManagerError::SessionNotFound),
            Some(st) => match kind {
                SelectedStreamRequestKind::Stop => Ok(SpecStreamCommand { kind, session: st, info: None }),
                _ => match spec_stream_info(b) {
                    Err(e) => Err(StreamManagerError::ProtocolError(e)),
                    Ok(info) => Ok(SpecStreamCommand { kind, session: st, info: Some(info) }),
                },
            },
        },
    }
}

/// Whether a selected-stream write reaches the reading of stream parameters, which is
/// not defined where an audio sample rate does not fit a byte.
pub open spec fn selected_reads_stream_info(ss: Seq<SpecSessionState>, b: Seq<u8>) -> bool {
    &&& spec_selected_stream_request(b) matches Ok((id, kind))
    &&& has_session(ss, id)
    &&& kind != SelectedStreamRequestKind::Stop
}

/// The sessions and stream statuses of a camera's stream management.
pub struct StreamManagerState {
    sessions: Vec<SessionState>,
    streaming_status: HashMap<usize, StreamingStatus>,
}

impl StreamManagerState {
    /// The sessions, in the order they were set up.
    pub closed spec fn spec_sessions(&self) -> Seq<SpecSessionState> {
        self.sessions@.map_values(|s: SessionState| s@)
    }

    /// The status of each stream that has one.
    pub closed spec fn spec_statuses(&self) -> Map<usize, StreamingStatus> {
        self.streaming_status@
    }

    #[verifier::type_invariant]
    closed spec fn inv(&self) -> bool {
        ids_distinct(self.spec_sessions())
    }

    /// No sessions, no statuses.
    pub fn new() -> (r: StreamManagerState)
        ensures
            r.spec_sessions() == Seq::<SpecSessionState>::empty(),
            r.spec_statuses() == Map::<usize, StreamingStatus>::empty(),
    {
        let r = StreamManagerState { sessions: Vec::new(), streaming_status: HashMap::new() };
        assert(r.spec_sessions() =~= Seq::<SpecSessionState>::empty());
        r
    }

    /// The sessions, in the order they were set up.
    pub fn sessions(&self) -> (r: &Vec<SessionState>)
        ensures
            r@.map_values(|s: SessionState| s@) == self.spec_sessions(),
    {
        &self.sessions
    }

    /// Where the session with id `id` stands, if it exists.
    fn find(&self, id: &SessionId) -> (r: Option<usize>)
        ensures
            r is Some <==> has_session(self.spec_sessions(), id@),
            r matches Some(i) ==> i < self.spec_sessions().len() && self.spec_sessions()[i as int].session_id == id@
                && lookup(self.spec_sessions(), id@) == Some(self.spec_sessions()[i as int]),
    {
        proof {
            use_type_invariant(self);
        }
        let ghost ss = self.spec_sessions();
        let mut i: usize = 0;
        while i < self.sessions.len()
            invariant
                i <= self.sessions@.len(),
                ss == self.spec_sessions(),
                ss.len() == self.sessions@.len(),
                ids_distinct(ss),
                forall|j: int| 0 <= j < i ==> ss[j].session_id != id@,
            decreases self.sessions@.len() - i,
        {
            assert(ss[i as int] == self.sessions@[i as int]@);
            if self.sessions[i].session_id.same(id) {
                proof {
                    assert(ss[i as int].session_id == id@);
                    let k = choose|k: int| 0 <= k < ss.len() && #[trigger] ss[k].session_id == id@;
                    assert(k == i as int);
                }
                return Some(i);
            }
            i = i + 1;
        }
        None
    }

    /// The session with id `id`, if it exists.
    pub fn session(&self, id: &SessionId) -> (r: Option<&SessionState>)
        ensures
            match r {
                Some(s) => lookup(self.spec_sessions(), id@) == Some(s@),
                None => lookup(self.spec_sessions(), id@) is None,
            },
    {
        match self.find(id) {
            Some(i) => Some(&self.sessions[i]),
            None => None,
        }
    }

    /// Reads a setup-endpoint write, whose address text reads as `ip_text` (see
    /// `setup_endpoint_request`). A request for a session that already exists asks for
    /// nothing (`Ok(None)`): it is the accessory's own answer coming back. Any other
    /// request is handed back to be answered by `open_session`.
    pub fn receive_setup_endpoint(&self, value: &[u8], ip_text: Option<String>) -> (r: Result<
        Option<SetupEndpointRequest>,
        StreamManagerError,
    >)
        requires
            ip_text is Some ==> !setup_request_lacks_audio_suite(value@),
        ensures
            match spec_setup_endpoint_address(value@) {
                Err(e) => r == Err::<Option<SetupEndpointRequest>, StreamManagerError>(
                    StreamManagerError::ProtocolError(e),
                ),
                Ok(a) => match ip_text {
                    None => match r {
                        Err(StreamManagerError::ProtocolError(ProtocolError::Ip(t))) => t@ == a.text,
                        _ => false,
                    },
                    Some(t) => match spec_setup_endpoint_request(value@, SpecAddress { is_ipv6: a.is_ipv6, text: t@ }) {
                        Err(e) => r == Err::<Option<SetupEndpointRequest>, StreamManagerError>(
                            StreamManagerError::ProtocolError(e),
                        ),
                        Ok(req) => if has_session(self.spec_sessions(), req.session_id) {
                            r matches Ok(None)
                        } else {
                            r matches Ok(Some(x)) && x@ == req
                        },
                    },
                },
            },
    {
        let req = match setup_endpoint_request(value, ip_text) {
            Ok(req) => req,
            Err(e) => return Err(StreamManagerError::ProtocolError(e)),
        };
        if self.find(&req.session_id).is_some() {
            return Ok(None);
        }
        Ok(Some(req))
    }

    /// Stores `st`, replacing the session of its id if there is one.
    fn store(&mut self, st: SessionState)
        ensures
            final(self).spec_sessions() == with_session(old(self).spec_sessions(), st@),
            final(self).spec_statuses() == old(self).spec_statuses(),
    {
        proof {
            use_type_invariant(&*self);
        }
        let ghost ss = self.spec_sessions();
        let ghost sv = st@;
        match self.find(&st.session_id) {
            Some(i) => {
                let ghost k = choose|k: int| 0 <= k < ss.len() && #[trigger] ss[k].session_id == sv.session_id;
                assert(ss[k].session_id == ss[i as int].session_id);
                assert(k == i as int);
                let mut sessions: Vec<SessionState> = Vec::new();
                std::mem::swap(&mut sessions, &mut self.sessions);
                sessions.set(i, st);
                assert(sessions@.map_values(|s: SessionState| s@) =~= ss.update(i as int, sv));
                assert(ids_distinct(ss.update(i as int, sv)));
                self.sessions = sessions;
            },
            None => {
                let mut sessions: Vec<SessionState> = Vec::new();
                std::mem::swap(&mut sessions, &mut self.sessions);
                sessions.push(st);
                assert(sessions@.map_values(|s: SessionState| s@) =~= ss.push(sv));
                assert(ids_distinct(ss.push(sv)));
                self.sessions = sessions;
            },
        }
    }

    /// Opens the session of `request`: draws the two SSRCs, stores the session (in place
    /// of one with the same id) and returns the setup-endpoint answer with the
    /// accessory's `address`.
    pub fn open_session(&mut self, request: SetupEndpointRequest, address: &EndpointAddress) -> (r: EndpointResponse)
        ensures
            r.tlv@ == spec_setup_endpoint_response(request@, address@, r.video_ssrc, r.audio_ssrc),
            final(self).spec_sessions() == with_session(
                old(self).spec_sessions(),
                session_of_request(request@, r.video_ssrc, r.audio_ssrc),
            ),
            final(self).spec_statuses() == old(self).spec_statuses(),
            lookup(final(self).spec_sessions(), request@.session_id) matches Some(s) && s.session_id == request@.session_id
                && s.address == request@.address && s.video_port == request.video_port
                && s.audio_port == request.audio_port && s.video_crypto == request@.video_crypto
                && s.audio_crypto == request@.audio_crypto && s.video_ssrc == r.video_ssrc
                && s.audio_ssrc == r.audio_ssrc,
    {
        proof {
            use_type_invariant(&*self);
        }
        let ghost req = request@;
        let video_ssrc = random_u32();
        let audio_ssrc = random_u32();
        let res = endpoint_response(&request, address, video_ssrc, audio_ssrc);
        let st = SessionState {
            session_id: request.session_id,
            address: request.address,
            video_port: request.video_port,
            audio_port: request.audio_port,
            video_crypto: request.video_crypto,
            audio_crypto: request.audio_crypto,
            video_ssrc,
            audio_ssrc,
        };
        self.store(st);
        proof {
            assert(req.session_id.push(0u8).len() != req.session_id.len());
            lemma_open_session_stores_request(old(self).spec_sessions(), req, video_ssrc, audio_ssrc, req.session_id.push(0u8));
        }
        res
    }

    /// Reads a selected-stream-configuration write and says what the provider is to do
    /// (see `spec_selected_command`). Nothing changes here; `record_outcome` takes the
    /// provider's result.
    pub fn selected_stream_configuration(&self, value: &[u8]) -> (r: Result<StreamCommand, StreamManagerError>)
        requires
            selected_reads_stream_info(self.spec_sessions(), value@) ==> !stream_info_overflows(value@),
        ensures
            match r {
                Ok(c) => spec_selected_command(self.spec_sessions(), value@) == Ok::<SpecStreamCommand, StreamManagerError>(c@),
                Err(e) => spec_selected_command(self.spec_sessions(), value@) == Err::<SpecStreamCommand, StreamManagerError>(e),
            },
    {
        let req = match selected_stream_configuration_request(value) {
            Ok(req) => req,
            Err(e) => return Err(StreamManagerError::ProtocolError(e)),
        };
        let session = match self.session(&req.session_id) {
            Some(s) => s.duplicate(),
            None => return Err(StreamManagerError::SessionNotFound),
        };
        match req.kind {
            SelectedStreamRequestKind::Stop => Ok(StreamCommand { kind: req.kind, session, info: None }),
            _ => match stream_info_response(value) {
                Ok(info) => Ok(StreamCommand { kind: req.kind, session, info: Some(info) }),
                Err(e) => Err(StreamManagerError::ProtocolError(e)),
            },
        }
    }

    /// Whether `selected_stream_configuration` is defined on `value`.
    pub fn selected_stream_configuration_defined(&self, value: &[u8]) -> (r: bool)
        ensures
            r == (selected_reads_stream_info(self.spec_sessions(), value@) ==> !stream_info_overflows(value@)),
    {
        let req = match selected_stream_configuration_request(value) {
            Ok(req) => req,
            Err(_) => return true,
        };
        if self.find(&req.session_id).is_none() {
            return true;
        }
        match req.kind {
            SelectedStreamRequestKind::Stop => true,
            _ => crate::protocol::stream_info_response_defined(value),
        }
    }

    /// Records how the provider carried out a command of `kind` on stream `idx` (see
    /// `status_after`).
    pub fn record_outcome(&mut self, idx: usize, kind: SelectedStreamRequestKind, succeeded: bool)
        ensures
            final(self).spec_statuses() == status_after(old(self).spec_statuses(), idx, kind, succeeded),
            final(self).spec_sessions() == old(self).spec_sessions(),
    {
        proof {
            use_type_invariant(&*self);
        }
        let mut statuses: HashMap<usize, StreamingStatus> = HashMap::new();
        std::mem::swap(&mut statuses, &mut self.streaming_status);
        match kind {
            SelectedStreamRequestKind::Stop => {
                if succeeded {
                    statuses.insert(idx, StreamingStatus::Available);
                }
            },
            _ => {
                let status = if succeeded { StreamingStatus::Streaming } else { StreamingStatus::Available };
                statuses.insert(idx, status);
            },
        }
        std::mem::swap(&mut statuses, &mut self.streaming_status);
    }

    /// The streaming-status value of stream `idx` (see `spec_streaming_status`).
    pub fn streaming_status(&self, idx: usize) -> (r: Vec<u8>)
        ensures
            r@ == spec_streaming_status(self.spec_statuses(), idx),
    {
        let byte = match self.streaming_status.get(&idx) {
            Some(StreamingStatus::Streaming) => STREAMING_STATUS_STREAMING,
            Some(StreamingStatus::Available) => STREAMING_STATUS_AVAILABLE,
            None => STREAMING_STATUS_AVAILABLE,
        };
        let items = vec![(0x01u8, vec![byte])];
        proof {
            assert(items@[0].1@ =~= seq![byte]);
            assert(items_view(items@) =~= seq![(0x01u8, seq![byte])]);
        }
        encode(items)
    }
}

/// Storing a session keeps the ids distinct, makes the session the one found under its
/// id, and leaves the session found under any other id as it was.
pub proof fn lemma_store_then_lookup(ss: Seq<SpecSessionState>, st: SpecSessionState, other: Seq<u8>)
    requires
        ids_distinct(ss),
        other != st.session_id,
    ensures
        ids_distinct(with_session(ss, st)),
        lookup(with_session(ss, st), st.session_id) == Some(st),
        lookup(with_session(ss, st), other) == lookup(ss, other),
{
    let ns = with_session(ss, st);
    if has_session(ss, st.session_id) {
        let k = choose|i: int| 0 <= i < ss.len() && #[trigger] ss[i].session_id == st.session_id;
        assert(ns[k].session_id == st.session_id);
        assert(has_session(ns, st.session_id));
        let k2 = choose|i: int| 0 <= i < ns.len() && #[trigger] ns[i].session_id == st.session_id;
        if k2 != k {
            assert(ss[k2].session_id == st.session_id);
        }
        if has_session(ss, other) {
            let j = choose|i: int| 0 <= i < ss.len() && #[trigger] ss[i].session_id == other;
            assert(ns[j].session_id == other);
            let j2 = choose|i: int| 0 <= i < ns.len() && #[trigger] ns[i].session_id == other;
            assert(j2 != k);
            assert(ss[j2].session_id == other);
        } else {
            if has_session(ns, other) {
                let j2 = choose|i: int| 0 <= i < ns.len() && #[trigger] ns[i].session_id == other;
                assert(j2 != k);
                assert(ss[j2].session_id == other);
            }
        }
    } else {
        assert(ns[ss.len() as int].session_id == st.session_id);
        assert(has_session(ns, st.session_id));
        let k2 = choose|i: int| 0 <= i < ns.len() && #[trigger] ns[i].session_id == st.session_id;
        if k2 < ss.len() {
            assert(ss[k2].session_id == st.session_id);
        }
        if has_session(ss, other) {
            let j = choose|i: int| 0 <= i < ss.len() && #[trigger] ss[i].session_id == other;
            assert(ns[j].session_id == other);
            let j2 = choose|i: int| 0 <= i < ns.len() && #[trigger] ns[i].session_id == other;
            assert(j2 < ss.len());
            assert(ss[j2].session_id == other);
        } else {
            if has_session(ns, other) {
                let j2 = choose|i: int| 0 <= i < ns.len() && #[trigger] ns[i].session_id == other;
                assert(j2 < ss.len());
                assert(ss[j2].session_id == other);
            }
        }
    }
}

/// Opening a session for a setup request stores, under the request's session id, a
/// session whose every field is the request's field of the same name (session id,
/// address, video port, audio port, video and audio SRTP parameters), with the SSRCs
/// the accessory drew; the session found under any other id is as before.
pub proof fn lemma_open_session_stores_request(
    ss: Seq<SpecSessionState>,
    req: SpecSetupRequest,
    video_ssrc: u32,
    audio_ssrc: u32,
    other: Seq<u8>,
)
    requires
        ids_distinct(ss),
        other != req.session_id,
    ensures
        lookup(with_session(ss, session_of_request(req, video_ssrc, audio_ssrc)), req.session_id) matches Some(s)
            && s.session_id == req.session_id && s.address == req.address && s.video_port == req.video_port
            && s.audio_port == req.audio_port && s.video_crypto == req.video_crypto
            && s.audio_crypto == req.audio_crypto && s.video_ssrc == video_ssrc && s.audio_ssrc == audio_ssrc,
        lookup(with_session(ss, session_of_request(req, video_ssrc, audio_ssrc)), other) == lookup(ss, other),
        ids_distinct(with_session(ss, session_of_request(req, video_ssrc, audio_ssrc))),
{
    lemma_store_then_lookup(ss, session_of_request(req, video_ssrc, audio_ssrc), other);
}

/// A start or reconfigure request naming a known session, whose stream parameters read
/// as `info`, asks for that command on that session with those parameters: a
/// reconfigure carries the stream parameters just as a start does.
pub proof fn lemma_select_carries_stream_info(
    ss: Seq<SpecSessionState>,
    b: Seq<u8>,
    id: Seq<u8>,
    kind: SelectedStreamRequestKind,
    info: SpecStreamInfo,
)
    requires
        spec_selected_stream_request(b) == Ok::<(Seq<u8>, SelectedStreamRequestKind), ProtocolError>((id, kind)),
        kind != SelectedStreamRequestKind::Stop,
        has_session(ss, id),
        spec_stream_info(b) == Ok::<SpecStreamInfo, ProtocolError>(info),
    ensures
        spec_selected_command(ss, b) is Ok,
        spec_selected_command(ss, b)->Ok_0.kind == kind,
        spec_selected_command(ss, b)->Ok_0.session.session_id == id,
        spec_selected_command(ss, b)->Ok_0.info == Some(info),
{
    let k = choose|i: int| 0 <= i < ss.len() && #[trigger] ss[i].session_id == id;
    assert(ss[k].session_id == id);
}

/// A stop request naming a known session asks to stop that session, with no stream
/// parameters.
pub proof fn lemma_select_stop(ss: Seq<SpecSessionState>, b: Seq<u8>, id: Seq<u8>)
    requires
        spec_selected_stream_request(b) == Ok::<(Seq<u8>, SelectedStreamRequestKind), ProtocolError>(
            (id, SelectedStreamRequestKind::Stop),
        ),
        has_session(ss, id),
    ensures
        spec_selected_command(ss, b) is Ok,
        spec_selected_command(ss, b)->Ok_0.kind == SelectedStreamRequestKind::Stop,
        spec_selected_command(ss, b)->Ok_0.session.session_id == id,
        spec_selected_command(ss, b)->Ok_0.info is None,
{
    let k = choose|i: int| 0 <= i < ss.len() && #[trigger] ss[i].session_id == id;
    assert(ss[k].session_id == id);
}

/// Once a session is set up, a selected-stream write that names it is never refused
/// with `SessionNotFound`: what it asks for is carried out on that session, and a stop
/// asks for nothing more.
pub proof fn lemma_setup_then_select(ss: Seq<SpecSessionState>, st: SpecSessionState, b: Seq<u8>)
    requires
        ids_distinct(ss),
        spec_selected_stream_request(b) matches Ok((id, _)) && id == st.session_id,
    ensures
        spec_selected_command(with_session(ss, st), b) != Err::<SpecStreamCommand, StreamManagerError>(
            StreamManagerError::SessionNotFound,
        ),
        spec_selected_command(with_session(ss, st), b) matches Ok(c) ==> c.session == st,
        spec_selected_stream_request(b) == Ok::<(Seq<u8>, SelectedStreamRequestKind), ProtocolError>(
            (st.session_id, SelectedStreamRequestKind::Stop),
        ) ==> spec_selected_command(with_session(ss, st), b) == Ok::<SpecStreamCommand, StreamManagerError>(
            SpecStreamCommand { kind: SelectedStreamRequestKind::Stop, session: st, info: None },
        ),
{
    lemma_store_then_lookup(ss, st, st.session_id.push(0u8));
}

/// After the provider carried out a command on stream `idx`, the streaming-status value
/// of that stream is streaming exactly when a start or reconfigure succeeded, available
/// when a stop succeeded or a start or reconfigure failed, and unchanged when a stop
/// failed; other streams keep their values.
pub proof fn lemma_status_after_outcome(
    m: Map<usize, StreamingStatus>,
    idx: usize,
    other: usize,
    kind: SelectedStreamRequestKind,
    succeeded: bool,
)
    requires
        other != idx,
    ensures
        spec_streaming_status(status_after(m, idx, kind, succeeded), idx) == if kind
            != SelectedStreamRequestKind::Stop {
            encode_items(seq![(0x01u8, seq![if succeeded { STREAMING_STATUS_STREAMING } else { STREAMING_STATUS_AVAILABLE }])])
        } else if succeeded {
            encode_items(seq![(0x01u8, seq![STREAMING_STATUS_AVAILABLE])])
        } else {
            spec_streaming_status(m, idx)
        },
        spec_streaming_status(status_after(m, idx, kind, succeeded), other) == spec_streaming_status(m, other),
{
}

/// Before any command, every stream reads as available.
pub proof fn lemma_status_initially_available(idx: usize)
    ensures
        spec_streaming_status(Map::<usize, StreamingStatus>::empty(), idx) == encode_items(
            seq![(0x01u8, seq![STREAMING_STATUS_AVAILABLE])],
        ),
{
}

} // verus!
