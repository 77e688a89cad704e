//! The GStreamer media provider's decisions: its per-stream configuration, the pipeline
//! description it launches for a session, and the bookkeeping of running pipelines.
//! Launching and stopping pipelines is left to the caller.

use vstd::prelude::*;
use crate::manager::{SessionState, SpecSessionState};
use crate::protocol::{
    AudioStreamOptions, EndpointAddress, SessionId, SpecStreamInfo, StreamInfo, VideoStreamOptions,
};
use crate::text::{decimal, decimal_text, hex_encode, hex_lower};

verus! {

/// The formats a stream offers and whether it uses SRTP.
#[derive(Debug, Clone)]
pub struct StreamOptions {
    pub video: VideoStreamOptions,
    pub audio: AudioStreamOptions,
    pub srtp: bool,
}

/// One stream of the provider: the address it sends from, the GStreamer source
/// description, and the formats it offers.
#[derive(Debug, Clone)]
pub struct StreamConfig {
    pub address: EndpointAddress,
    pub pipeline: String,
    pub options: StreamOptions,
}

/// Errors of the GStreamer provider.
#[derive(Debug, Clone, PartialEq, Eq)]
pub enum GstreamerError {
    StreamNotFound,
    CannotAcquireLock,
    CannotRestartSession,
    MissingProperty,
    /// GStreamer itself failed; the text is its message.
    Glib(String),
}

/// The pipeline text for a stream: the source description, then rate, scaling,
/// H.264 encoding at the given bit rate, RTP payloading with the SSRC, SRTP with the
/// key, and the UDP sink to the host and port.
pub open spec fn spec_pipeline_text(
    pipeline: Seq<char>,
    fps: u8,
    width: u16,
    height: u16,
    max_bitrate: u16,
    ssrc: u32,
    key: Seq<char>,
    host: Seq<char>,
    port: u16,
) -> Seq<char> {
    pipeline + " ! videorate ! video/x-raw,framerate="@ + decimal(fps as nat) + "/1 ! videoconvert ! videoscale ! video/x-raw,width="@
        + decimal(width as nat) + ",height="@ + decimal(height as nat) + " ! x264enc tune=zerolatency bitrate="@
        + decimal(max_bitrate as nat) + " ! video/x-h264,profile=baseline ! rtph264pay config-interval=1 pt=99 ssrc="@
        + decimal(ssrc as nat) + " ! srtpenc key="@ + key + " ! udpsink host="@ + host + " port="@ + decimal(port as nat)
        + " async=false"@
}

/// Writes the pipeline text of `spec_pipeline_text`.
fn pipeline_text(
    pipeline: &str,
    fps: u8,
    width: u16,
    height: u16,
    max_bitrate: u16,
    ssrc: u32,
    key: &str,
    host: &str,
    port: u16,
) -> (r: String)
    ensures
        r@ == spec_pipeline_text(pipeline@, fps, width, height, max_bitrate, ssrc, key@, host@, port),
{
    let mut s = String::from_str(pipeline);
    s.append(" ! videorate ! video/x-raw,framerate=");
    s.append(decimal_text(fps as u32).as_str());
    s.append("/1 ! videoconvert ! videoscale ! video/x-raw,width=");
    s.append(decimal_text(width as u32).as_str());
    s.append(",height=");
    s.append(decimal_text(height as u32).as_str());
    s.append(" ! x264enc tune=zerolatency bitrate=");
    s.append(decimal_text(max_bitrate as u32).as_str());
    s.append(" ! video/x-h264,profile=baseline ! rtph264pay config-interval=1 pt=99 ssrc=");
    s.append(decimal_text(ssrc).as_str());
    s.append(" ! srtpenc key=");
    s.append(key);
    s.append(" ! udpsink host=");
    s.append(host);
    s.append(" port=");
    s.append(decimal_text(port as u32).as_str());
    s.append(" async=false");
    s
}

/// The pipeline for stream `idx` of a provider whose source descriptions are
/// `pipelines`: it needs the selected maximum bit rate and picture attributes
/// (`MissingProperty` otherwise) and a configured stream (`StreamNotFound`); its key is
/// the hex of the session's video master key followed by its salt.
pub open spec fn spec_pipeline(
    pipelines: Seq<Seq<char>>,
    idx: usize,
    info: SpecStreamInfo,
    session: SpecSessionState,
) -> Result<Seq<char>, GstreamerError> {
    match info.video_rtp {
        Some(rtp) if rtp.max_bitrate is Some => match info.video_attributes {
            Some(va) => if idx < pipelines.len() {
                Ok(
                    spec_pipeline_text(
                        pipelines[idx as int],
                        va.fps,
                        va.width,
                        va.height,
                        rtp.max_bitrate->Some_0,
                        session.video_ssrc,
                        hex_lower(session.video_crypto.master_key + session.video_crypto.master_salt),
                        session.address.text,
                        session.video_port,
                    ),
                )
            } else {
                Err(GstreamerError::StreamNotFound)
            },
            None => Err(GstreamerError::MissingProperty),
        },
        _ => Err(GstreamerError::MissingProperty),
    }
}

/// The provider's configuration of its streams.
pub struct Gstreamer {
    configs: Vec<StreamConfig>,
}

impl Gstreamer {
    /// The source descriptions of the streams, by index.
    pub closed spec fn pipelines(&self) -> Seq<Seq<char>> {
        self.configs@.map_values(|c: StreamConfig| c.pipeline@)
    }

    /// The configured streams.
    pub closed spec fn spec_configs(&self) -> Seq<StreamConfig> {
        self.configs@
    }

    pub fn new(configs: Vec<StreamConfig>) -> (r: Gstreamer)
        ensures
            r.spec_configs() == configs@,
            r.pipelines() == configs@.map_values(|c: StreamConfig| c.pipeline@),
    {
        Gstreamer { configs }
    }

    /// The address stream `idx` sends from, or `StreamNotFound`.
    pub fn address(&self, idx: usize) -> (r: Result<&EndpointAddress, GstreamerError>)
        ensures
            idx < self.spec_configs().len() ==> r == Ok::<&EndpointAddress, GstreamerError>(
                &self.spec_configs()[idx as int].address,
            ),
            idx >= self.spec_configs().len() ==> r == Err::<&EndpointAddress, GstreamerError>(
                GstreamerError::StreamNotFound,
            ),
    {
        if idx < self.configs.len() {
            Ok(&self.configs[idx].address)
        } else {
            Err(GstreamerError::StreamNotFound)
        }
    }

    /// The formats stream `idx` offers, or `StreamNotFound`.
    pub fn options(&self, idx: usize) -> (r: Result<&StreamOptions, GstreamerError>)
        ensures
            idx < self.spec_configs().len() ==> r == Ok::<&StreamOptions, GstreamerError>(
                &self.spec_configs()[idx as int].options,
            ),
            idx >= self.spec_configs().len() ==> r == Err::<&StreamOptions, GstreamerError>(
                GstreamerError::StreamNotFound,
            ),
    {
        if idx < self.configs.len() {
            Ok(&self.configs[idx].options)
        } else {
            Err(GstreamerError::StreamNotFound)
        }
    }

    /// The pipeline to launch for stream `idx` (see `spec_pipeline`).
    pub fn pipeline(&self, idx: usize, stream: &StreamInfo, session: &SessionState) -> (r: Result<String, GstreamerError>)
        ensures
            match r {
                Ok(s) => spec_pipeline(self.pipelines(), idx, stream@, session@) == Ok::<Seq<char>, GstreamerError>(s@),
                Err(e) => spec_pipeline(self.pipelines(), idx, stream@, session@) == Err::<Seq<char>, GstreamerError>(e),
            },
    {
        let mut both = session.video_crypto.master_key.clone();
        let mut salt = session.video_crypto.master_salt.clone();
        assert(both@ =~= session.video_crypto.master_key@);
        assert(salt@ =~= session.video_crypto.master_salt@);
        both.append(&mut salt);
        let key = hex_encode(both.as_slice());
        let max_bitrate = match &stream.video_rtp {
            Some(rtp) => match rtp.max_bitrate {
                Some(b) => b,
                None => return Err(GstreamerError::MissingProperty),
            },
            None => return Err(GstreamerError::MissingProperty),
        };
        let attributes = match &stream.video_attributes {
            Some(va) => *va,
            None => return Err(GstreamerError::MissingProperty),
        };
        if idx >= self.configs.len() {
            return Err(GstreamerError::StreamNotFound);
        }
        let config = &self.configs[idx];
        Ok(
            pipeline_text(
                config.pipeline.as_str(),
                attributes.fps,
                attributes.width,
                attributes.height,
                max_bitrate,
                session.video_ssrc,
                key.as_str(),
                session.address.text.as_str(),
                session.video_port,
            ),
        )
    }
}

/// For a configured stream, a pipeline that can be built begins with that stream's own
/// source description, and is refused with `StreamNotFound` for no other stream.
pub proof fn lemma_pipeline_starts_with_source(
    pipelines: Seq<Seq<char>>,
    idx: usize,
    info: SpecStreamInfo,
    session: SpecSessionState,
)
    requires
        idx < pipelines.len(),
    ensures
        spec_pipeline(pipelines, idx, info, session) != Err::<Seq<char>, GstreamerError>(GstreamerError::StreamNotFound),
        spec_pipeline(pipelines, idx, info, session) matches Ok(t) ==> t.len() >= pipelines[idx as int].len()
            && t.subrange(0, pipelines[idx as int].len() as int) == pipelines[idx as int],
{
    if let Ok(t) = spec_pipeline(pipelines, idx, info, session) {
        let p = pipelines[idx as int];
        assert(t.subrange(0, p.len() as int) =~= p);
    }
}

/// A running pipeline: the session and stream it serves, and the caller's handle on it.
pub struct RunningStream<H> {
    pub session_id: SessionId,
    pub idx: usize,
    pub handle: H,
}

/// The running pipelines, at most one per session and stream.
pub struct StreamRegistry<H> {
    running: Vec<RunningStream<H>>,
}

impl<H> StreamRegistry<H> {
    /// The session and stream of each running pipeline, in the order they started.
    pub closed spec fn keys(&self) -> Seq<(Seq<u8>, usize)> {
        self.running@.map_values(|r: RunningStream<H>| (r.session_id@, r.idx))
    }

    /// The caller's handle of each running pipeline, in the same order as `keys`.
    pub closed spec fn handles(&self) -> Seq<H> {
        self.running@.map_values(|r: RunningStream<H>| r.handle)
    }

    #[verifier::type_invariant]
    closed spec fn inv(&self) -> bool {
        self.keys().no_duplicates()
    }

    pub fn new() -> (r: StreamRegistry<H>)
        ensures
            r.keys() == Seq::<(Seq<u8>, usize)>::empty(),
            r.handles() == Seq::<H>::empty(),
    {
        let r = StreamRegistry { running: Vec::new() };
        assert(r.keys() =~= Seq::<(Seq<u8>, usize)>::empty());
        assert(r.handles() =~= Seq::<H>::empty());
        r
    }

    /// Where the pipeline of session `id` and stream `idx` stands, if it runs.
    fn position(&self, id: &SessionId, idx: usize) -> (r: Option<usize>)
        ensures
            r is None <==> !self.keys().contains((id@, idx)),
            r matches Some(i) ==> i < self.keys().len() && self.keys()[i as int] == (id@, idx)
                && forall|j: int| 0 <= j < i ==> self.keys()[j] != (id@, idx),
    {
        let ghost ks = self.keys();
        let mut i: usize = 0;
        while i < self.running.len()
            invariant
                i <= self.running@.len(),
                ks == self.keys(),
                ks.len() == self.running@.len(),
                forall|j: int| 0 <= j < i ==> ks[j] != (id@, idx),
            decreases self.running@.len() - i,
        {
            let r = &self.running[i];
            assert(ks[i as int] == (r.session_id@, r.idx));
            if r.idx == idx && r.session_id.same(id) {
                return Some(i);
            }
            i = i + 1;
        }
        proof {
            if ks.contains((id@, idx)) {
                let k = choose|k: int| 0 <= k < ks.len() && ks[k] == (id@, idx);
                assert(ks[k] != (id@, idx));
            }
        }
        None
    }

    /// Whether a pipeline runs for session `id` and stream `idx`.
    pub fn is_running(&self, id: &SessionId, idx: usize) -> (r: bool)
        ensures
            r == self.keys().contains((id@, idx)),
    {
        self.position(id, idx).is_some()
    }

    /// Records a pipeline started for session `id` and stream `idx`, which must not
    /// run yet: a session's stream cannot be restarted while it runs.
    pub fn start(&mut self, id: SessionId, idx: usize, handle: H) -> (r: Result<(), GstreamerError>)
        ensures
            old(self).keys().contains((id@, idx)) ==> r == Err::<(), GstreamerError>(
                GstreamerError::CannotRestartSession,
            ) && final(self).keys() == old(self).keys() && final(self).handles() == old(self).handles(),
            !old(self).keys().contains((id@, idx)) ==> r is Ok && final(self).keys() == old(self).keys().push(
                (id@, idx),
            ) && final(self).handles() == old(self).handles().push(handle),
    {
        if self.is_running(&id, idx) {
            return Err(GstreamerError::CannotRestartSession);
        }
        proof {
            use_type_invariant(&*self);
        }
        let ghost k = self.keys();
        let ghost hs = self.handles();
        let ghost h = handle;
        let mut running: Vec<RunningStream<H>> = Vec::new();
        std::mem::swap(&mut running, &mut self.running);
        running.push(RunningStream { session_id: id, idx, handle });
        assert(running@.map_values(|r: RunningStream<H>| (r.session_id@, r.idx)) =~= k.push((id@, idx)));
        assert(running@.map_values(|r: RunningStream<H>| r.handle) =~= hs.push(h));
        std::mem::swap(&mut running, &mut self.running);
        Ok(())
    }

    /// Removes the pipeline of session `id` and stream `idx` and hands back its handle;
    /// `None` when none runs.
    pub fn stop(&mut self, id: &SessionId, idx: usize) -> (r: Option<H>)
        ensures
            r is Some <==> old(self).keys().contains((id@, idx)),
            !final(self).keys().contains((id@, idx)) || r is None,
            r is None ==> final(self).keys() == old(self).keys() && final(self).handles() == old(self).handles(),
            r is Some ==> exists|i: int|
                0 <= i < old(self).keys().len() && old(self).keys()[i] == (id@, idx)
                    && final(self).keys() == old(self).keys().remove(i)
                    && final(self).handles() == old(self).handles().remove(i)
                    && r == Some(old(self).handles()[i]),
    {
        match self.position(id, idx) {
            None => None,
            Some(i) => {
                proof {
                    use_type_invariant(&*self);
                }
                let ghost k = self.keys();
                let ghost hs = self.handles();
                let mut running: Vec<RunningStream<H>> = Vec::new();
                std::mem::swap(&mut running, &mut self.running);
                let r = running.remove(i);
                proof {
                    assert(running@.map_values(|r: RunningStream<H>| r.handle) =~= hs.remove(i as int));
                    assert(r.handle == hs[i as int]);
                    let nk = running@.map_values(|r: RunningStream<H>| (r.session_id@, r.idx));
                    assert(nk =~= k.remove(i as int));
                    assert forall|a: int, b: int| 0 <= a < nk.len() && 0 <= b < nk.len() && a != b implies nk[a] != nk[b] by {
                        let a2 = if a < i { a } else { a + 1 };
                        let b2 = if b < i { b } else { b + 1 };
                        assert(nk[a] == k[a2] && nk[b] == k[b2]);
                    }
                    if nk.contains((id@, idx)) {
                        let j = choose|j: int| 0 <= j < nk.len() && nk[j] == (id@, idx);
                        let j2 = if j < i { j } else { j + 1 };
                        assert(k[j2] == (id@, idx));
                    }
                }
                std::mem::swap(&mut running, &mut self.running);
                Some(r.handle)
            },
        }
    }
}

} // verus!
