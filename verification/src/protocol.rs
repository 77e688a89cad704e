//! The camera stream-management messages: the TLV8 payloads of the setup-endpoint,
//! selected-stream-configuration and supported-configuration characteristics.

use vstd::prelude::*;
use vstd::utf8::*;
use crate::tlv::{TlvMap, decode, encode, encode_item, encode_items, items_map, items_view, lemma_decode_encode, lemma_items_map_distinct, neighbours_differ, push_item, spec_decode};
use crate::text::{uuid_hyphenated, uuid_text, utf8_text, uuid_le_bytes, random_u32};

verus! {

pub const SETUP_TYPES_SESSION_ID: u8 = 0x01;
pub const SETUP_TYPES_STATUS: u8 = 0x02;
pub const SETUP_TYPES_ADDRESS: u8 = 0x03;
pub const SETUP_TYPES_VIDEO_SRTP_PARAM: u8 = 0x04;
pub const SETUP_TYPES_AUDIO_SRTP_PARAM: u8 = 0x05;
pub const SETUP_TYPES_VIDEO_SSRC: u8 = 0x06;
pub const SETUP_TYPES_AUDIO_SSRC: u8 = 0x07;

pub const SETUP_STATUS_SUCCESS: u8 = 0x00;
pub const SETUP_STATUS_BUSY: u8 = 0x01;
pub const SETUP_STATUS_ERROR: u8 = 0x02;

pub const SETUP_IPV_IPV4: u8 = 0x00;
pub const SETUP_IPV_IPV6: u8 = 0x01;

pub const SETUP_ADDR_INFO_ADDRESS_VER: u8 = 0x01;
pub const SETUP_ADDR_INFO_ADDRESS: u8 = 0x02;
pub const SETUP_ADDR_INFO_VIDEO_RTP_PORT: u8 = 0x03;
pub const SETUP_ADDR_INFO_AUDIO_RTP_PORT: u8 = 0x04;

pub const SETUP_SRTP_PARAM_CRYPTO: u8 = 0x01;
pub const SETUP_SRTP_PARAM_MASTER_KEY: u8 = 0x02;
pub const SETUP_SRTP_PARAM_MASTER_SALT: u8 = 0x03;

pub const STREAMING_STATUS_AVAILABLE: u8 = 0x00;
pub const STREAMING_STATUS_STREAMING: u8 = 0x01;
pub const STREAMING_STATUS_BUSY: u8 = 0x02;

pub const RTP_CONFIG_TYPES_CRYPTO: u8 = 0x02;

pub const SRTP_CRYPTO_SUITES_AES_CM_128_HMAC_SHA1_80: u8 = 0x00;
pub const SRTP_CRYPTO_SUITES_AES_CM_256_HMAC_SHA1_80: u8 = 0x01;
pub const SRTP_CRYPTO_SUITES_NONE: u8 = 0x02;

pub const VIDEO_TYPES_CODEC: u8 = 0x01;
pub const VIDEO_TYPES_CODEC_PARAM: u8 = 0x02;
pub const VIDEO_TYPES_ATTRIBUTES: u8 = 0x03;
pub const VIDEO_TYPES_RTP_PARAM: u8 = 0x04;

pub const VIDEO_CODEC_TYPES_H264: u8 = 0x00;

pub const VIDEO_CODEC_PARAM_TYPES_PROFILE_ID: u8 = 0x01;
pub const VIDEO_CODEC_PARAM_TYPES_LEVEL: u8 = 0x02;
pub const VIDEO_CODEC_PARAM_TYPES_PACKETIZATION_MODE: u8 = 0x03;
pub const VIDEO_CODEC_PARAM_TYPES_CVO_ENABLED: u8 = 0x04;
pub const VIDEO_CODEC_PARAM_TYPES_CVO_ID: u8 = 0x05;

pub const VIDEO_CODEC_PARAM_CVO_TYPES_UNSUPPORTED: u8 = 0x01;
pub const VIDEO_CODEC_PARAM_CVO_TYPES_SUPPORTED: u8 = 0x02;

pub const VIDEO_CODEC_PARAM_PROFILE_ID_TYPES_BASELINE: u8 = 0x00;
pub const VIDEO_CODEC_PARAM_PROFILE_ID_TYPES_MAIN: u8 = 0x01;
pub const VIDEO_CODEC_PARAM_PROFILE_ID_TYPES_HIGH: u8 = 0x02;

pub const VIDEO_CODEC_PARAM_LEVEL_TYPES_TYPE3_1: u8 = 0x00;
pub const VIDEO_CODEC_PARAM_LEVEL_TYPES_TYPE3_2: u8 = 0x01;
pub const VIDEO_CODEC_PARAM_LEVEL_TYPES_TYPE4_0: u8 = 0x02;

pub const VIDEO_CODEC_PARAM_PACKETIZATION_MODE_TYPES_NON_INTERLEAVED: u8 = 0x00;

pub const VIDEO_ATTRIBUTES_TYPES_IMAGE_WIDTH: u8 = 0x01;
pub const VIDEO_ATTRIBUTES_TYPES_IMAGE_HEIGHT: u8 = 0x02;
pub const VIDEO_ATTRIBUTES_TYPES_FRAME_RATE: u8 = 0x03;

pub const SUPPORTED_VIDEO_CONFIG_TAG: u8 = 0x01;

pub const SELECTED_STREAM_CONFIGURATION_TYPES_SESSION: u8 = 0x01;
pub const SELECTED_STREAM_CONFIGURATION_TYPES_VIDEO: u8 = 0x02;
pub const SELECTED_STREAM_CONFIGURATION_TYPES_AUDIO: u8 = 0x03;

pub const RTP_PARAM_TYPES_PAYLOAD_TYPE: u8 = 0x01;
pub const RTP_PARAM_TYPES_SYNCHRONIZATION_SOURCE: u8 = 0x02;
pub const RTP_PARAM_TYPES_MAX_BIT_RATE: u8 = 0x03;
pub const RTP_PARAM_TYPES_RTCP_SEND_INTERVAL: u8 = 0x04;
pub const RTP_PARAM_TYPES_MAX_MTU: u8 = 0x05;
pub const RTP_PARAM_TYPES_COMFORT_NOISE_PAYLOAD_TYPE: u8 = 0x06;

pub const AUDIO_TYPES_CODEC: u8 = 0x01;
pub const AUDIO_TYPES_CODEC_PARAM: u8 = 0x02;
pub const AUDIO_TYPES_RTP_PARAM: u8 = 0x03;
pub const AUDIO_TYPES_COMFORT_NOISE: u8 = 0x04;

pub const AUDIO_CODEC_TYPES_PCMU: u8 = 0x00;
pub const AUDIO_CODEC_TYPES_PCMA: u8 = 0x01;
pub const AUDIO_CODEC_TYPES_AACELD: u8 = 0x02;
pub const AUDIO_CODEC_TYPES_OPUS: u8 = 0x03;

pub const AUDIO_CODEC_PARAM_TYPES_CHANNEL: u8 = 0x01;
pub const AUDIO_CODEC_PARAM_TYPES_BIT_RATE: u8 = 0x02;
pub const AUDIO_CODEC_PARAM_TYPES_SAMPLE_RATE: u8 = 0x03;
pub const AUDIO_CODEC_PARAM_TYPES_PACKET_TIME: u8 = 0x04;

pub const AUDIO_CODEC_PARAM_BIT_RATE_TYPES_VARIABLE: u8 = 0x00;
pub const AUDIO_CODEC_PARAM_BIT_RATE_TYPES_CONSTANT: u8 = 0x01;

pub const AUDIO_CODEC_PARAM_SAMPLE_RATE_TYPES_KHZ_8: u8 = 0x00;
pub const AUDIO_CODEC_PARAM_SAMPLE_RATE_TYPES_KHZ_16: u8 = 0x01;
pub const AUDIO_CODEC_PARAM_SAMPLE_RATE_TYPES_KHZ_24: u8 = 0x02;

pub const SUPPORTED_AUDIO_CODECS_TAG: u8 = 0x01;
pub const SUPPORTED_COMFORT_NOISE_TAG: u8 = 0x02;
pub const SUPPORTED_AUDIO_CONFIG_TAG: u8 = 0x02;
pub const SET_CONFIG_REQUEST_TAG: u8 = 0x02;
pub const SESSION_ID: u8 = 0x01;

/// Errors in reading a stream-management message.
#[derive(Debug, Clone, PartialEq, Eq)]
pub enum ProtocolError {
    /// A required entry is absent (or an entry that must hold a byte is empty).
    MissingProperty,
    /// An entry has the wrong number of bytes for its fixed-size value.
    ArrayConversion,
    /// The address text is not valid UTF-8.
    Utf8,
    /// The address text is not an IP address of the announced version.
    Ip(String),
}

/// The 16 bytes of a stream session's UUID, as they come on the wire.
#[derive(Debug, Clone, Copy)]
pub struct SessionId {
    pub bytes: [u8; 16],
}

impl View for SessionId {
    type V = Seq<u8>;

    open spec fn view(&self) -> Seq<u8> {
        self.bytes@
    }
}

impl SessionId {
    /// The session id held by exactly 16 bytes; `None` for any other length.
    pub fn from_slice(b: &[u8]) -> (r: Option<SessionId>)
        ensures
            r is Some <==> b@.len() == 16,
            r matches Some(id) ==> id@ == b@,
    {
        if b.len() != 16 {
            return None;
        }
        let bytes: [u8; 16] = [
            b[0], b[1], b[2], b[3], b[4], b[5], b[6], b[7],
            b[8], b[9], b[10], b[11], b[12], b[13], b[14], b[15],
        ];
        let id = SessionId { bytes };
        assert(id@ =~= b@);
        Some(id)
    }

    /// Whether two ids hold the same bytes.
    pub fn same(&self, other: &SessionId) -> (r: bool)
        ensures
            r == (self@ == other@),
    {
        let mut i: usize = 0;
        while i < 16
            invariant
                i <= 16,
                self@.len() == 16 && other@.len() == 16,
                forall|j: int| 0 <= j < i ==> self@[j] == other@[j],
            decreases 16 - i,
        {
            if self.bytes[i] != other.bytes[i] {
                assert(self@[i as int] != other@[i as int]);
                return false;
            }
            i = i + 1;
        }
        assert(self@ =~= other@);
        true
    }

    /// The hyphenated lower-case text of the UUID, as `uuid` writes it.
    pub fn to_string(&self) -> (r: String)
        ensures
            r@ == uuid_text(self@),
    {
        uuid_hyphenated(self.bytes)
    }
}

/// The address a stream is sent to or from: the IP version flag and the address text.
#[derive(Debug, Clone)]
pub struct EndpointAddress {
    pub is_ipv6: bool,
    pub text: String,
}

/// The address as the specification sees it.
pub struct SpecAddress {
    pub is_ipv6: bool,
    pub text: Seq<char>,
}

impl View for EndpointAddress {
    type V = SpecAddress;

    open spec fn view(&self) -> SpecAddress {
        SpecAddress { is_ipv6: self.is_ipv6, text: self.text@ }
    }
}

/// SRTP parameters of one direction of a stream.
#[derive(Debug, Clone)]
pub struct SetupEndpointCrypto {
    pub cypto_suite: u8,
    pub master_key: Vec<u8>,
    pub master_salt: Vec<u8>,
}

pub struct SpecCrypto {
    pub cypto_suite: u8,
    pub master_key: Seq<u8>,
    pub master_salt: Seq<u8>,
}

impl View for SetupEndpointCrypto {
    type V = SpecCrypto;

    open spec fn view(&self) -> SpecCrypto {
        SpecCrypto {
            cypto_suite: self.cypto_suite,
            master_key: self.master_key@,
            master_salt: self.master_salt@,
        }
    }
}

/// A controller's request to set up a stream endpoint.
#[derive(Debug)]
pub struct SetupEndpointRequest {
    pub session_id: SessionId,
    pub address: EndpointAddress,
    pub video_port: u16,
    pub audio_port: u16,
    pub video_crypto: SetupEndpointCrypto,
    pub audio_crypto: SetupEndpointCrypto,
}

pub struct SpecSetupRequest {
    pub session_id: Seq<u8>,
    pub address: SpecAddress,
    pub video_port: u16,
    pub audio_port: u16,
    pub video_crypto: SpecCrypto,
    pub audio_crypto: SpecCrypto,
}

impl View for SetupEndpointRequest {
    type V = SpecSetupRequest;

    open spec fn view(&self) -> SpecSetupRequest {
        SpecSetupRequest {
            session_id: self.session_id@,
            address: self.address@,
            video_port: self.video_port,
            audio_port: self.audio_port,
            video_crypto: self.video_crypto@,
            audio_crypto: self.audio_crypto@,
        }
    }
}

/// What a selected-stream-configuration request asks for.
#[derive(Debug, Clone, Copy, PartialEq, Eq)]
pub enum SelectedStreamRequestKind {
    Start,
    Stop,
    StartAndReconfigure,
}

/// A controller's request to start, stop or reconfigure a stream.
#[derive(Debug)]
pub struct SelectedStreamRequest {
    pub session_id: SessionId,
    pub kind: SelectedStreamRequestKind,
}

/// The bytes of `setup_endpoint_response` and the two SSRCs it announced.
#[derive(Debug)]
pub struct EndpointResponse {
    pub tlv: Vec<u8>,
    pub video_ssrc: u32,
    pub audio_ssrc: u32,
}

/// A little-endian `u16` of two bytes.
pub open spec fn le_u16(b: Seq<u8>) -> u16 {
    (b[0] + 256 * b[1]) as u16
}

/// A little-endian `u32` of four bytes.
pub open spec fn le_u32(b: Seq<u8>) -> u32 {
    (b[0] + 256 * b[1] + 65536 * b[2] + 16777216 * b[3]) as u32
}

/// The two little-endian bytes of a `u16`.
pub open spec fn u16_le(x: u16) -> Seq<u8> {
    seq![(x % 256) as u8, (x / 256) as u8]
}

/// The four little-endian bytes of a `u32`.
pub open spec fn u32_le(x: u32) -> Seq<u8> {
    seq![(x % 256) as u8, ((x / 256) % 256) as u8, ((x / 65536) % 256) as u8, (x / 16777216) as u8]
}

pub(crate) fn read_le_u16(b: &Vec<u8>) -> (r: u16)
    requires
        b@.len() == 2,
    ensures
        r == le_u16(b@),
{
    b[0] as u16 + (b[1] as u16) * 256
}

pub(crate) fn read_le_u32(b: &Vec<u8>) -> (r: u32)
    requires
        b@.len() == 4,
    ensures
        r == le_u32(b@),
{
    b[0] as u32 + (b[1] as u32) * 256 + (b[2] as u32) * 65536 + (b[3] as u32) * 16777216
}

pub(crate) fn write_le_u16(x: u16) -> (r: Vec<u8>)
    ensures
        r@ == u16_le(x),
{
    let r = vec![(x % 256) as u8, (x / 256) as u8];
    assert(r@ =~= u16_le(x));
    r
}

pub(crate) fn write_le_u32(x: u32) -> (r: Vec<u8>)
    ensures
        r@ == u32_le(x),
{
    let r = vec![(x % 256) as u8, ((x / 256) % 256) as u8, ((x / 65536) % 256) as u8, (x / 16777216) as u8];
    assert(r@ =~= u32_le(x));
    r
}

/// The value of entry `k`, or `MissingProperty`.
pub open spec fn field(m: Map<u8, Seq<u8>>, k: u8) -> Result<Seq<u8>, ProtocolError> {
    if m.contains_key(k) {
        Ok(m[k])
    } else {
        Err(ProtocolError::MissingProperty)
    }
}

/// The first byte of entry `k`, or `MissingProperty` when the entry is absent or empty.
pub open spec fn first_byte(m: Map<u8, Seq<u8>>, k: u8) -> Result<u8, ProtocolError> {
    if m.contains_key(k) && m[k].len() > 0 {
        Ok(m[k][0])
    } else {
        Err(ProtocolError::MissingProperty)
    }
}

/// The value of entry `k`, which must have exactly `n` bytes: `MissingProperty` when
/// it is absent, `ArrayConversion` when its length differs.
pub open spec fn fixed_field(m: Map<u8, Seq<u8>>, k: u8, n: nat) -> Result<Seq<u8>, ProtocolError> {
    if !m.contains_key(k) {
        Err(ProtocolError::MissingProperty)
    } else if m[k].len() != n {
        Err(ProtocolError::ArrayConversion)
    } else {
        Ok(m[k])
    }
}

/// An optional entry of `n` bytes: `None` when absent, `ArrayConversion` when its
/// length differs.
pub open spec fn optional_fixed(m: Map<u8, Seq<u8>>, k: u8, n: nat) -> Result<Option<Seq<u8>>, ProtocolError> {
    if !m.contains_key(k) {
        Ok(None)
    } else if m[k].len() != n {
        Err(ProtocolError::ArrayConversion)
    } else {
        Ok(Some(m[k]))
    }
}

/// Whether an exec result agrees with a specified one, values taken by view.
pub open spec fn agrees<T: View>(r: Result<T, ProtocolError>, s: Result<T::V, ProtocolError>) -> bool {
    match r {
        Ok(v) => s == Ok::<T::V, ProtocolError>(v@),
        Err(e) => s == Err::<T::V, ProtocolError>(e),
    }
}

fn get_field(m: &TlvMap, k: u8) -> (r: Result<&Vec<u8>, ProtocolError>)
    requires
        m.wf(),
    ensures
        r matches Ok(v) ==> field(m@, k) == Ok::<Seq<u8>, ProtocolError>(v@),
        r matches Err(e) ==> field(m@, k) == Err::<Seq<u8>, ProtocolError>(e),
{
    match m.get(k) {
        Some(v) => Ok(v),
        None => Err(ProtocolError::MissingProperty),
    }
}

fn get_first_byte(m: &TlvMap, k: u8) -> (r: Result<u8, ProtocolError>)
    requires
        m.wf(),
    ensures
        r == first_byte(m@, k),
{
    match m.get(k) {
        Some(v) => {
            if v.len() > 0 {
                Ok(v[0])
            } else {
                Err(ProtocolError::MissingProperty)
            }
        },
        None => Err(ProtocolError::MissingProperty),
    }
}

fn get_fixed(m: &TlvMap, k: u8, n: usize) -> (r: Result<&Vec<u8>, ProtocolError>)
    requires
        m.wf(),
    ensures
        r matches Ok(v) ==> fixed_field(m@, k, n as nat) == Ok::<Seq<u8>, ProtocolError>(v@),
        r matches Err(e) ==> fixed_field(m@, k, n as nat) == Err::<Seq<u8>, ProtocolError>(e),
{
    match m.get(k) {
        Some(v) => {
            if v.len() == n {
                Ok(v)
            } else {
                Err(ProtocolError::ArrayConversion)
            }
        },
        None => Err(ProtocolError::MissingProperty),
    }
}

fn get_session_id(m: &TlvMap, k: u8) -> (r: Result<SessionId, ProtocolError>)
    requires
        m.wf(),
    ensures
        r matches Ok(id) ==> fixed_field(m@, k, 16) == Ok::<Seq<u8>, ProtocolError>(id@),
        r matches Err(e) ==> fixed_field(m@, k, 16) == Err::<Seq<u8>, ProtocolError>(e),
{
    let v = get_fixed(m, k, 16)?;
    match SessionId::from_slice(v.as_slice()) {
        Some(id) => Ok(id),
        None => Err(ProtocolError::ArrayConversion),
    }
}

/// The SRTP parameters of one direction, read from its TLV: suite, key and salt.
pub open spec fn spec_crypto(m: Map<u8, Seq<u8>>) -> Result<SpecCrypto, ProtocolError> {
    match first_byte(m, SETUP_SRTP_PARAM_CRYPTO) {
        Err(e) => Err(e),
        Ok(suite) => match field(m, SETUP_SRTP_PARAM_MASTER_KEY) {
            Err(e) => Err(e),
            Ok(key) => match field(m, SETUP_SRTP_PARAM_MASTER_SALT) {
                Err(e) => Err(e),
                Ok(salt) => Ok(SpecCrypto { cypto_suite: suite, master_key: key, master_salt: salt }),
            },
        },
    }
}

/// The first part of reading a setup-endpoint request, up to its address: the session
/// id (16 bytes), the address TLV, its version byte and its text, which must be UTF-8.
pub open spec fn spec_setup_endpoint_address(b: Seq<u8>) -> Result<SpecAddress, ProtocolError> {
    let objs = spec_decode(b);
    match fixed_field(objs, SETUP_TYPES_SESSION_ID, 16) {
        Err(e) => Err(e),
        Ok(_) => match field(objs, SETUP_TYPES_ADDRESS) {
            Err(e) => Err(e),
            Ok(at) => {
                let a = spec_decode(at);
                match first_byte(a, SETUP_ADDR_INFO_ADDRESS_VER) {
                    Err(e) => Err(e),
                    Ok(ver) => match field(a, SETUP_ADDR_INFO_ADDRESS) {
                        Err(e) => Err(e),
                        Ok(text) => if valid_utf8(text) {
                            Ok(SpecAddress { is_ipv6: ver != 0, text: decode_utf8(text) })
                        } else {
                            Err(ProtocolError::Utf8)
                        },
                    },
                }
            },
        },
    }
}

/// Whether reading the setup-endpoint request `b` gets as far as the audio SRTP
/// parameters and finds no crypto-suite byte there, where the reading is not defined.
pub open spec fn setup_request_lacks_audio_suite(b: Seq<u8>) -> bool {
    let objs = spec_decode(b);
    let a = spec_decode(objs[SETUP_TYPES_ADDRESS]);
    &&& spec_setup_endpoint_address(b) is Ok
    &&& fixed_field(a, SETUP_ADDR_INFO_VIDEO_RTP_PORT, 2) is Ok
    &&& fixed_field(a, SETUP_ADDR_INFO_AUDIO_RTP_PORT, 2) is Ok
    &&& field(objs, SETUP_TYPES_VIDEO_SRTP_PARAM) is Ok
    &&& spec_crypto(spec_decode(objs[SETUP_TYPES_VIDEO_SRTP_PARAM])) is Ok
    &&& field(objs, SETUP_TYPES_AUDIO_SRTP_PARAM) is Ok
    &&& first_byte(spec_decode(objs[SETUP_TYPES_AUDIO_SRTP_PARAM]), SETUP_SRTP_PARAM_CRYPTO) is Err
}

/// The rest of reading a setup-endpoint request, once its address part is read and its
/// text is an IP address that is written `ip`: the video and audio RTP ports (2 bytes
/// each), then the video and audio SRTP parameters. The request keeps `ip` as its address.
pub open spec fn spec_setup_endpoint_request(b: Seq<u8>, ip: SpecAddress) -> Result<SpecSetupRequest, ProtocolError> {
    let objs = spec_decode(b);
    let a = spec_decode(objs[SETUP_TYPES_ADDRESS]);
    match fixed_field(a, SETUP_ADDR_INFO_VIDEO_RTP_PORT, 2) {
        Err(e) => Err(e),
        Ok(vp) => match fixed_field(a, SETUP_ADDR_INFO_AUDIO_RTP_PORT, 2) {
            Err(e) => Err(e),
            Ok(ap) => match field(objs, SETUP_TYPES_VIDEO_SRTP_PARAM) {
                Err(e) => Err(e),
                Ok(vt) => match spec_crypto(spec_decode(vt)) {
                    Err(e) => Err(e),
                    Ok(video) => match field(objs, SETUP_TYPES_AUDIO_SRTP_PARAM) {
                        Err(e) => Err(e),
                        Ok(at) => match spec_crypto(spec_decode(at)) {
                            Err(e) => Err(e),
                            Ok(audio) => Ok(
                                SpecSetupRequest {
                                    session_id: objs[SETUP_TYPES_SESSION_ID],
                                    address: ip,
                                    video_port: le_u16(vp),
                                    audio_port: le_u16(ap),
                                    video_crypto: video,
                                    audio_crypto: audio,
                                },
                            ),
                        },
                    },
                },
            },
        },
    }
}

fn read_crypto(m: &TlvMap) -> (r: Result<SetupEndpointCrypto, ProtocolError>)
    requires
        m.wf(),
    ensures
        agrees(r, spec_crypto(m@)),
{
    let suite = get_first_byte(m, SETUP_SRTP_PARAM_CRYPTO)?;
    let key = get_field(m, SETUP_SRTP_PARAM_MASTER_KEY)?;
    let salt = get_field(m, SETUP_SRTP_PARAM_MASTER_SALT)?;
    let c = SetupEndpointCrypto { cypto_suite: suite, master_key: key.clone(), master_salt: salt.clone() };
    assert(c.master_key@ =~= key@ && c.master_salt@ =~= salt@);
    Ok(c)
}

/// Reads the address part of a setup-endpoint request (see `spec_setup_endpoint_address`).
/// The address text still has to be read as an IP address of the announced version.
pub fn setup_endpoint_address(bytes: &[u8]) -> (r: Result<EndpointAddress, ProtocolError>)
    ensures
        agrees(r, spec_setup_endpoint_address(bytes@)),
{
    let objs = decode(bytes);
    let _session_id = get_session_id(&objs, SETUP_TYPES_SESSION_ID)?;
    let address_tlv = get_field(&objs, SETUP_TYPES_ADDRESS)?;
    let address = decode(address_tlv.as_slice());
    let ver = get_first_byte(&address, SETUP_ADDR_INFO_ADDRESS_VER)?;
    let addr = get_field(&address, SETUP_ADDR_INFO_ADDRESS)?;
    match utf8_text(addr) {
        Some(text) => {
            proof {
                vstd::utf8::encode_utf8_decode_utf8(text@);
            }
            Ok(EndpointAddress { is_ipv6: ver != 0, text })
        },
        None => Err(ProtocolError::Utf8),
    }
}

/// Reads a setup-endpoint request. `ip_text` is what the address text reads as: an IP
/// address of the announced version, written in its canonical form (as `std::net`
/// writes it), or `None` when the text is no such address. The reading fails as the
/// address part fails; then with `Ip` and the address text when `ip_text` is `None`;
/// then as the rest fails. The request keeps the canonical text. The reading is defined
/// on every input but those where the rest is reached and the audio SRTP parameters
/// lack a crypto-suite byte.
pub fn setup_endpoint_request(bytes: &[u8], ip_text: Option<String>) -> (r: Result<SetupEndpointRequest, ProtocolError>)
    requires
        ip_text is Some ==> !setup_request_lacks_audio_suite(bytes@),
    ensures
        match spec_setup_endpoint_address(bytes@) {
            Err(e) => r == Err::<SetupEndpointRequest, ProtocolError>(e),
            Ok(a) => match ip_text {
                None => match r {
                    Err(ProtocolError::Ip(t)) => t@ == a.text,
                    _ => false,
                },
                Some(t) => agrees(r, spec_setup_endpoint_request(bytes@, SpecAddress { is_ipv6: a.is_ipv6, text: t@ })),
            },
        },
{
    let address = setup_endpoint_address(bytes)?;
    let ip = match ip_text {
        Some(text) => EndpointAddress { is_ipv6: address.is_ipv6, text },
        None => return Err(ProtocolError::Ip(address.text)),
    };
    let objs = decode(bytes);
    let session_id = get_session_id(&objs, SETUP_TYPES_SESSION_ID)?;
    let address_tlv = get_field(&objs, SETUP_TYPES_ADDRESS)?;
    let addr_objs = decode(address_tlv.as_slice());
    let video_port = read_le_u16(get_fixed(&addr_objs, SETUP_ADDR_INFO_VIDEO_RTP_PORT, 2)?);
    let audio_port = read_le_u16(get_fixed(&addr_objs, SETUP_ADDR_INFO_AUDIO_RTP_PORT, 2)?);
    let video_tlv = get_field(&objs, SETUP_TYPES_VIDEO_SRTP_PARAM)?;
    let video_crypto = read_crypto(&decode(video_tlv.as_slice()))?;
    let audio_tlv = get_field(&objs, SETUP_TYPES_AUDIO_SRTP_PARAM)?;
    let audio_crypto = read_crypto(&decode(audio_tlv.as_slice()))?;
    Ok(SetupEndpointRequest { session_id, address: ip, video_port, audio_port, video_crypto, audio_crypto })
}

/// Whether `setup_endpoint_request` is defined on `bytes` with an address that reads as
/// an IP address: false exactly where the audio SRTP parameters are reached and lack a
/// crypto-suite byte.
pub fn setup_endpoint_request_defined(bytes: &[u8]) -> (r: bool)
    ensures
        r == !setup_request_lacks_audio_suite(bytes@),
{
    if setup_endpoint_address(bytes).is_err() {
        return true;
    }
    let objs = decode(bytes);
    let address_tlv = match objs.get(SETUP_TYPES_ADDRESS) {
        Some(t) => t,
        None => return true,
    };
    let addr_objs = decode(address_tlv.as_slice());
    if get_fixed(&addr_objs, SETUP_ADDR_INFO_VIDEO_RTP_PORT, 2).is_err()
        || get_fixed(&addr_objs, SETUP_ADDR_INFO_AUDIO_RTP_PORT, 2).is_err() {
        return true;
    }
    let video_tlv = match objs.get(SETUP_TYPES_VIDEO_SRTP_PARAM) {
        Some(t) => t,
        None => return true,
    };
    if read_crypto(&decode(video_tlv.as_slice())).is_err() {
        return true;
    }
    let audio_tlv = match objs.get(SETUP_TYPES_AUDIO_SRTP_PARAM) {
        Some(t) => t,
        None => return true,
    };
    get_first_byte(&decode(audio_tlv.as_slice()), SETUP_SRTP_PARAM_CRYPTO).is_ok()
}

/// The SRTP parameters the accessory answers with: the AES_CM_128_HMAC_SHA1_80 suite
/// and the controller's own key and salt.
pub open spec fn spec_srtp_answer(c: SpecCrypto) -> Seq<u8> {
    encode_items(
        seq![
            (SETUP_SRTP_PARAM_CRYPTO, seq![SRTP_CRYPTO_SUITES_AES_CM_128_HMAC_SHA1_80]),
            (SETUP_SRTP_PARAM_MASTER_KEY, c.master_key),
            (SETUP_SRTP_PARAM_MASTER_SALT, c.master_salt),
        ],
    )
}

/// The accessory's address TLV: version (1 for IPv6, else 0), the UTF-8 address text
/// and the request's video and audio ports, little-endian.
pub open spec fn spec_address_answer(req: SpecSetupRequest, address: SpecAddress) -> Seq<u8> {
    encode_items(
        seq![
            (SETUP_ADDR_INFO_ADDRESS_VER, seq![if address.is_ipv6 { 1u8 } else { 0u8 }]),
            (SETUP_ADDR_INFO_ADDRESS, encode_utf8(address.text)),
            (SETUP_ADDR_INFO_VIDEO_RTP_PORT, u16_le(req.video_port)),
            (SETUP_ADDR_INFO_AUDIO_RTP_PORT, u16_le(req.audio_port)),
        ],
    )
}

/// The setup-endpoint answer: session id, success status, address, video and audio
/// SRTP parameters and the two SSRCs, little-endian.
pub open spec fn spec_setup_endpoint_response(
    req: SpecSetupRequest,
    address: SpecAddress,
    video_ssrc: u32,
    audio_ssrc: u32,
) -> Seq<u8> {
    encode_items(
        seq![
            (SETUP_TYPES_SESSION_ID, req.session_id),
            (SETUP_TYPES_STATUS, seq![SETUP_STATUS_SUCCESS]),
            (SETUP_TYPES_ADDRESS, spec_address_answer(req, address)),
            (SETUP_TYPES_VIDEO_SRTP_PARAM, spec_srtp_answer(req.video_crypto)),
            (SETUP_TYPES_AUDIO_SRTP_PARAM, spec_srtp_answer(req.audio_crypto)),
            (SETUP_TYPES_VIDEO_SSRC, u32_le(video_ssrc)),
            (SETUP_TYPES_AUDIO_SSRC, u32_le(audio_ssrc)),
        ],
    )
}

fn srtp_answer(c: &SetupEndpointCrypto) -> (r: Vec<u8>)
    ensures
        r@ == spec_srtp_answer(c@),
{
    let items = vec![
        (SETUP_SRTP_PARAM_CRYPTO, vec![SRTP_CRYPTO_SUITES_AES_CM_128_HMAC_SHA1_80]),
        (SETUP_SRTP_PARAM_MASTER_KEY, c.master_key.clone()),
        (SETUP_SRTP_PARAM_MASTER_SALT, c.master_salt.clone()),
    ];
    proof {
        assert(items@[0].1@ =~= seq![SRTP_CRYPTO_SUITES_AES_CM_128_HMAC_SHA1_80]);
        assert(items@[1].1@ =~= c.master_key@);
        assert(items@[2].1@ =~= c.master_salt@);
        assert(items_view(items@) =~= seq![
            (SETUP_SRTP_PARAM_CRYPTO, seq![SRTP_CRYPTO_SUITES_AES_CM_128_HMAC_SHA1_80]),
            (SETUP_SRTP_PARAM_MASTER_KEY, c.master_key@),
            (SETUP_SRTP_PARAM_MASTER_SALT, c.master_salt@),
        ]);
    }
    encode(items)
}

/// The setup-endpoint answer for `request` with the accessory's `address` and the
/// given SSRCs (see `spec_setup_endpoint_response`).
pub fn endpoint_response(
    request: &SetupEndpointRequest,
    address: &EndpointAddress,
    video_ssrc: u32,
    audio_ssrc: u32,
) -> (r: EndpointResponse)
    ensures
        r.tlv@ == spec_setup_endpoint_response(request@, address@, video_ssrc, audio_ssrc),
        r.video_ssrc == video_ssrc,
        r.audio_ssrc == audio_ssrc,
{
    let video_srtp_tlv = srtp_answer(&request.video_crypto);
    let audio_srtp_tlv = srtp_answer(&request.audio_crypto);
    let version: u8 = if address.is_ipv6 { 1 } else { 0 };
    let text = vstd::slice::slice_to_vec(address.text.as_str().as_bytes());
    let address_items = vec![
        (SETUP_ADDR_INFO_ADDRESS_VER, vec![version]),
        (SETUP_ADDR_INFO_ADDRESS, text),
        (SETUP_ADDR_INFO_VIDEO_RTP_PORT, write_le_u16(request.video_port)),
        (SETUP_ADDR_INFO_AUDIO_RTP_PORT, write_le_u16(request.audio_port)),
    ];
    proof {
        assert(address_items@[0].1@ =~= seq![version]);
        assert(items_view(address_items@) =~= seq![
            (SETUP_ADDR_INFO_ADDRESS_VER, seq![if address.is_ipv6 { 1u8 } else { 0u8 }]),
            (SETUP_ADDR_INFO_ADDRESS, encode_utf8(address.text@)),
            (SETUP_ADDR_INFO_VIDEO_RTP_PORT, u16_le(request.video_port)),
            (SETUP_ADDR_INFO_AUDIO_RTP_PORT, u16_le(request.audio_port)),
        ]);
    }
    let address_tlv = encode(address_items);
    let items = vec![
        (SETUP_TYPES_SESSION_ID, uuid_le_bytes(request.session_id.bytes)),
        (SETUP_TYPES_STATUS, vec![SETUP_STATUS_SUCCESS]),
        (SETUP_TYPES_ADDRESS, address_tlv),
        (SETUP_TYPES_VIDEO_SRTP_PARAM, video_srtp_tlv),
        (SETUP_TYPES_AUDIO_SRTP_PARAM, audio_srtp_tlv),
        (SETUP_TYPES_VIDEO_SSRC, write_le_u32(video_ssrc)),
        (SETUP_TYPES_AUDIO_SSRC, write_le_u32(audio_ssrc)),
    ];
    proof {
        assert(items@[1].1@ =~= seq![SETUP_STATUS_SUCCESS]);
        assert(items_view(items@) =~= seq![
            (SETUP_TYPES_SESSION_ID, request@.session_id),
            (SETUP_TYPES_STATUS, seq![SETUP_STATUS_SUCCESS]),
            (SETUP_TYPES_ADDRESS, spec_address_answer(request@, address@)),
            (SETUP_TYPES_VIDEO_SRTP_PARAM, spec_srtp_answer(request@.video_crypto)),
            (SETUP_TYPES_AUDIO_SRTP_PARAM, spec_srtp_answer(request@.audio_crypto)),
            (SETUP_TYPES_VIDEO_SSRC, u32_le(video_ssrc)),
            (SETUP_TYPES_AUDIO_SSRC, u32_le(audio_ssrc)),
        ]);
    }
    EndpointResponse { tlv: encode(items), video_ssrc, audio_ssrc }
}

/// The setup-endpoint answer with two freshly drawn random SSRCs, which the result
/// also carries.
pub fn setup_endpoint_response(request: &SetupEndpointRequest, address: &EndpointAddress) -> (r: EndpointResponse)
    ensures
        r.tlv@ == spec_setup_endpoint_response(request@, address@, r.video_ssrc, r.audio_ssrc),
{
    let video_ssrc = random_u32();
    let audio_ssrc = random_u32();
    endpoint_response(request, address, video_ssrc, audio_ssrc)
}

/// The supported-RTP-configuration value: the crypto suite offered, AES_CM_128_HMAC_SHA1_80
/// when SRTP is enabled and none otherwise.
pub open spec fn spec_supported_rtp_config(enabled: bool) -> Seq<u8> {
    encode_items(
        seq![
            (
                RTP_CONFIG_TYPES_CRYPTO,
                seq![if enabled { SRTP_CRYPTO_SUITES_AES_CM_128_HMAC_SHA1_80 } else { SRTP_CRYPTO_SUITES_NONE }],
            ),
        ],
    )
}

pub fn supported_rtp_config(enabled: bool) -> (r: Vec<u8>)
    ensures
        r@ == spec_supported_rtp_config(enabled),
{
    let support_srtp = if enabled {
        SRTP_CRYPTO_SUITES_AES_CM_128_HMAC_SHA1_80
    } else {
        SRTP_CRYPTO_SUITES_NONE
    };
    let items = vec![(RTP_CONFIG_TYPES_CRYPTO, vec![support_srtp])];
    proof {
        assert(items@[0].1@ =~= seq![support_srtp]);
        assert(items_view(items@) =~= seq![(RTP_CONFIG_TYPES_CRYPTO, seq![support_srtp])]);
    }
    encode(items)
}

/// Reading a selected-stream-configuration request: the session TLV, its 16-byte id and
/// its command byte (0 stop, 1 start, 4 start and reconfigure; any other is
/// `MissingProperty`).
pub open spec fn spec_selected_stream_request(b: Seq<u8>) -> Result<(Seq<u8>, SelectedStreamRequestKind), ProtocolError> {
    let objs = spec_decode(b);
    match field(objs, SELECTED_STREAM_CONFIGURATION_TYPES_SESSION) {
        Err(e) => Err(e),
        Ok(st) => {
            let so = spec_decode(st);
            match fixed_field(so, SETUP_TYPES_SESSION_ID, 16) {
                Err(e) => Err(e),
                Ok(id) => match first_byte(so, 0x02) {
                    Err(e) => Err(e),
                    Ok(c) => if c == 0 {
                        Ok((id, SelectedStreamRequestKind::Stop))
                    } else if c == 1 {
                        Ok((id, SelectedStreamRequestKind::Start))
                    } else if c == 4 {
                        Ok((id, SelectedStreamRequestKind::StartAndReconfigure))
                    } else {
                        Err(ProtocolError::MissingProperty)
                    },
                },
            }
        },
    }
}

impl View for SelectedStreamRequest {
    type V = (Seq<u8>, SelectedStreamRequestKind);

    open spec fn view(&self) -> (Seq<u8>, SelectedStreamRequestKind) {
        (self.session_id@, self.kind)
    }
}

pub fn selected_stream_configuration_request(bytes: &[u8]) -> (r: Result<SelectedStreamRequest, ProtocolError>)
    ensures
        agrees(r, spec_selected_stream_request(bytes@)),
{
    let objs = decode(bytes);
    let session_tlv = get_field(&objs, SELECTED_STREAM_CONFIGURATION_TYPES_SESSION)?;
    let session_objs = decode(session_tlv.as_slice());
    let session_id = get_session_id(&session_objs, SETUP_TYPES_SESSION_ID)?;
    let request_type = get_first_byte(&session_objs, 0x02)?;
    let kind = if request_type == 0 {
        SelectedStreamRequestKind::Stop
    } else if request_type == 1 {
        SelectedStreamRequestKind::Start
    } else if request_type == 4 {
        SelectedStreamRequestKind::StartAndReconfigure
    } else {
        return Err(ProtocolError::MissingProperty);
    };
    Ok(SelectedStreamRequest { session_id, kind })
}

/// The H.264 profile and level the controller selected.
#[derive(Debug, Clone)]
pub struct StreamVideoCodec {
    pub profile_id: Vec<u8>,
    pub level: Vec<u8>,
}

pub struct SpecVideoCodec {
    pub profile_id: Seq<u8>,
    pub level: Seq<u8>,
}

impl View for StreamVideoCodec {
    type V = SpecVideoCodec;

    open spec fn view(&self) -> SpecVideoCodec {
        SpecVideoCodec { profile_id: self.profile_id@, level: self.level@ }
    }
}

/// The picture size and frame rate the controller selected.
#[derive(Debug, Clone, Copy, PartialEq, Eq)]
pub struct StreamVideoAttributes {
    pub width: u16,
    pub height: u16,
    pub fps: u8,
}

/// The video RTP parameters the controller selected. `rtcp_interval` holds the bits of
/// the little-endian IEEE-754 `f32` that the message carries.
#[derive(Debug, Clone)]
pub struct StreamVideoRtp {
    pub ssrc: Option<u32>,
    pub payload_type: Option<Vec<u8>>,
    pub max_bitrate: Option<u16>,
    pub rtcp_interval: Option<u32>,
    pub max_mtu: Option<Vec<u8>>,
}

pub struct SpecVideoRtp {
    pub ssrc: Option<u32>,
    pub payload_type: Option<Seq<u8>>,
    pub max_bitrate: Option<u16>,
    pub rtcp_interval: Option<u32>,
    pub max_mtu: Option<Seq<u8>>,
}

pub open spec fn opt_view(o: Option<Vec<u8>>) -> Option<Seq<u8>> {
    match o {
        Some(v) => Some(v@),
        None => None,
    }
}

impl View for StreamVideoRtp {
    type V = SpecVideoRtp;

    open spec fn view(&self) -> SpecVideoRtp {
        SpecVideoRtp {
            ssrc: self.ssrc,
            payload_type: opt_view(self.payload_type),
            max_bitrate: self.max_bitrate,
            rtcp_interval: self.rtcp_interval,
            max_mtu: opt_view(self.max_mtu),
        }
    }
}

/// The audio parameters the controller selected. `sample_rate` is in kHz;
/// `rtcp_interval` holds the bits of the little-endian IEEE-754 `f32` of the message.
#[derive(Debug, Clone)]
pub struct StreamAudio {
    pub codec: Vec<u8>,
    pub comfort_noise: Vec<u8>,
    pub channel: u8,
    pub bitrate: bool,
    pub sample_rate: u8,
    pub packet_time: u8,
    pub ssrc: u32,
    pub payload_type: Vec<u8>,
    pub max_bitrate: u16,
    pub rtcp_interval: u32,
    pub comfort_payload_type: Vec<u8>,
}

pub struct SpecAudio {
    pub codec: Seq<u8>,
    pub comfort_noise: Seq<u8>,
    pub channel: u8,
    pub bitrate: bool,
    pub sample_rate: u8,
    pub packet_time: u8,
    pub ssrc: u32,
    pub payload_type: Seq<u8>,
    pub max_bitrate: u16,
    pub rtcp_interval: u32,
    pub comfort_payload_type: Seq<u8>,
}

impl View for StreamAudio {
    type V = SpecAudio;

    open spec fn view(&self) -> SpecAudio {
        SpecAudio {
            codec: self.codec@,
            comfort_noise: self.comfort_noise@,
            channel: self.channel,
            bitrate: self.bitrate,
            sample_rate: self.sample_rate,
            packet_time: self.packet_time,
            ssrc: self.ssrc,
            payload_type: self.payload_type@,
            max_bitrate: self.max_bitrate,
            rtcp_interval: self.rtcp_interval,
            comfort_payload_type: self.comfort_payload_type@,
        }
    }
}

/// The stream parameters of a start or reconfigure request.
#[derive(Debug)]
pub struct StreamInfo {
    pub session_id: SessionId,
    pub video_codec: Option<StreamVideoCodec>,
    pub video_attributes: Option<StreamVideoAttributes>,
    pub video_rtp: Option<StreamVideoRtp>,
    pub audio: Option<StreamAudio>,
}

pub struct SpecStreamInfo {
    pub session_id: Seq<u8>,
    pub video_codec: Option<SpecVideoCodec>,
    pub video_attributes: Option<StreamVideoAttributes>,
    pub video_rtp: Option<SpecVideoRtp>,
    pub audio: Option<SpecAudio>,
}

impl View for StreamInfo {
    type V = SpecStreamInfo;

    open spec fn view(&self) -> SpecStreamInfo {
        SpecStreamInfo {
            session_id: self.session_id@,
            video_codec: match self.video_codec {
                Some(c) => Some(c@),
                None => None,
            },
            video_attributes: self.video_attributes,
            video_rtp: match self.video_rtp {
                Some(r) => Some(r@),
                None => None,
            },
            audio: match self.audio {
                Some(a) => Some(a@),
                None => None,
            },
        }
    }
}

impl StreamInfo {
    /// Stream parameters of the session with nothing selected yet.
    pub fn new(session_id: SessionId) -> (r: StreamInfo)
        ensures
            r@ == (SpecStreamInfo {
                session_id: session_id@,
                video_codec: None,
                video_attributes: None,
                video_rtp: None,
                audio: None,
            }),
    {
        StreamInfo { session_id, video_codec: None, video_attributes: None, video_rtp: None, audio: None }
    }
}

/// The video codec parameters of the video TLV `vo`, when it has them: the profile and
/// the level are then both required.
pub open spec fn spec_video_codec(vo: Map<u8, Seq<u8>>) -> Result<Option<SpecVideoCodec>, ProtocolError> {
    if !vo.contains_key(VIDEO_TYPES_CODEC_PARAM) {
        Ok(None)
    } else {
        let cp = spec_decode(vo[VIDEO_TYPES_CODEC_PARAM]);
        match field(cp, VIDEO_CODEC_PARAM_TYPES_PROFILE_ID) {
            Err(e) => Err(e),
            Ok(p) => match field(cp, VIDEO_CODEC_PARAM_TYPES_LEVEL) {
                Err(e) => Err(e),
                Ok(l) => Ok(Some(SpecVideoCodec { profile_id: p, level: l })),
            },
        }
    }
}

/// The video attributes of `vo`, when it has them: width and height (2 bytes each,
/// little-endian) and the frame rate byte are then required.
pub open spec fn spec_video_attributes(vo: Map<u8, Seq<u8>>) -> Result<Option<StreamVideoAttributes>, ProtocolError> {
    if !vo.contains_key(VIDEO_TYPES_ATTRIBUTES) {
        Ok(None)
    } else {
        let va = spec_decode(vo[VIDEO_TYPES_ATTRIBUTES]);
        match fixed_field(va, VIDEO_ATTRIBUTES_TYPES_IMAGE_WIDTH, 2) {
            Err(e) => Err(e),
            Ok(w) => match fixed_field(va, VIDEO_ATTRIBUTES_TYPES_IMAGE_HEIGHT, 2) {
                Err(e) => Err(e),
                Ok(h) => match first_byte(va, VIDEO_ATTRIBUTES_TYPES_FRAME_RATE) {
                    Err(e) => Err(e),
                    Ok(f) => Ok(Some(StreamVideoAttributes { width: le_u16(w), height: le_u16(h), fps: f })),
                },
            },
        }
    }
}

/// The video RTP parameters of `vo`, when it has them. Every entry is optional; the
/// SSRC (4 bytes), maximum bit rate (2) and RTCP interval (4) must have their sizes
/// when present. `max_mtu` takes the RTCP-interval entry.
pub open spec fn spec_video_rtp(vo: Map<u8, Seq<u8>>) -> Result<Option<SpecVideoRtp>, ProtocolError> {
    if !vo.contains_key(VIDEO_TYPES_RTP_PARAM) {
        Ok(None)
    } else {
        let vr = spec_decode(vo[VIDEO_TYPES_RTP_PARAM]);
        match optional_fixed(vr, RTP_PARAM_TYPES_SYNCHRONIZATION_SOURCE, 4) {
            Err(e) => Err(e),
            Ok(ssrc) => match optional_fixed(vr, RTP_PARAM_TYPES_MAX_BIT_RATE, 2) {
                Err(e) => Err(e),
                Ok(mb) => match optional_fixed(vr, RTP_PARAM_TYPES_RTCP_SEND_INTERVAL, 4) {
                    Err(e) => Err(e),
                    Ok(ri) => Ok(
                        Some(
                            SpecVideoRtp {
                                ssrc: match ssrc {
                                    Some(b) => Some(le_u32(b)),
                                    None => None,
                                },
                                payload_type: if vr.contains_key(RTP_PARAM_TYPES_PAYLOAD_TYPE) {
                                    Some(vr[RTP_PARAM_TYPES_PAYLOAD_TYPE])
                                } else {
                                    None
                                },
                                max_bitrate: match mb {
                                    Some(b) => Some(le_u16(b)),
                                    None => None,
                                },
                                rtcp_interval: match ri {
                                    Some(b) => Some(le_u32(b)),
                                    None => None,
                                },
                                max_mtu: if vr.contains_key(RTP_PARAM_TYPES_RTCP_SEND_INTERVAL) {
                                    Some(vr[RTP_PARAM_TYPES_RTCP_SEND_INTERVAL])
                                } else {
                                    None
                                },
                            },
                        ),
                    ),
                },
            },
        }
    }
}

/// The codec parameters, RTP parameters and comfort-noise entry of the audio TLV `ao`,
/// in the order they are read.
pub open spec fn spec_audio_parts(ao: Map<u8, Seq<u8>>) -> Result<(Seq<u8>, Map<u8, Seq<u8>>, Map<u8, Seq<u8>>, Seq<u8>), ProtocolError> {
    match field(ao, AUDIO_TYPES_CODEC) {
        Err(e) => Err(e),
        Ok(codec) => match field(ao, AUDIO_TYPES_CODEC_PARAM) {
            Err(e) => Err(e),
            Ok(cp) => match field(ao, AUDIO_TYPES_RTP_PARAM) {
                Err(e) => Err(e),
                Ok(rp) => match field(ao, AUDIO_TYPES_COMFORT_NOISE) {
                    Err(e) => Err(e),
                    Ok(cn) => Ok((codec, spec_decode(cp), spec_decode(rp), cn)),
                },
            },
        },
    }
}

/// The channel, bit-rate and sample-rate bytes of the audio codec parameters.
pub open spec fn spec_audio_rates(cp: Map<u8, Seq<u8>>) -> Result<(u8, u8, u8), ProtocolError> {
    match first_byte(cp, AUDIO_CODEC_PARAM_TYPES_CHANNEL) {
        Err(e) => Err(e),
        Ok(ch) => match first_byte(cp, AUDIO_CODEC_PARAM_TYPES_BIT_RATE) {
            Err(e) => Err(e),
            Ok(br) => match first_byte(cp, AUDIO_CODEC_PARAM_TYPES_SAMPLE_RATE) {
                Err(e) => Err(e),
                Ok(sr) => Ok((ch, br, sr)),
            },
        },
    }
}

/// Whether the audio part is read up to a sample-rate byte above 30, whose rate in kHz,
/// 8 * (1 + byte), does not fit a byte: there the reading is not defined.
pub open spec fn audio_rate_overflows(objs: Map<u8, Seq<u8>>) -> bool {
    &&& objs.contains_key(SELECTED_STREAM_CONFIGURATION_TYPES_AUDIO)
    &&& spec_audio_parts(spec_decode(objs[SELECTED_STREAM_CONFIGURATION_TYPES_AUDIO])) matches Ok(parts)
    &&& spec_audio_rates(parts.1) matches Ok(rates)
    &&& rates.2 > 30
}

/// The audio parameters of `objs`, when it has an audio TLV; all its entries are then
/// required, with the SSRC (4 bytes), maximum bit rate (2) and RTCP interval (4) of
/// their sizes.
pub open spec fn spec_audio(objs: Map<u8, Seq<u8>>) -> Result<Option<SpecAudio>, ProtocolError> {
    if !objs.contains_key(SELECTED_STREAM_CONFIGURATION_TYPES_AUDIO) {
        Ok(None)
    } else {
        match spec_audio_parts(spec_decode(objs[SELECTED_STREAM_CONFIGURATION_TYPES_AUDIO])) {
            Err(e) => Err(e),
            Ok((codec, cp, rp, cn)) => match spec_audio_rates(cp) {
                Err(e) => Err(e),
                Ok((ch, br, sr)) => match first_byte(cp, AUDIO_CODEC_PARAM_TYPES_PACKET_TIME) {
                    Err(e) => Err(e),
                    Ok(pt) => match fixed_field(rp, RTP_PARAM_TYPES_SYNCHRONIZATION_SOURCE, 4) {
                        Err(e) => Err(e),
                        Ok(ssrc) => match field(rp, RTP_PARAM_TYPES_PAYLOAD_TYPE) {
                            Err(e) => Err(e),
                            Ok(pl) => match fixed_field(rp, RTP_PARAM_TYPES_MAX_BIT_RATE, 2) {
                                Err(e) => Err(e),
                                Ok(mb) => match fixed_field(rp, RTP_PARAM_TYPES_RTCP_SEND_INTERVAL, 4) {
                                    Err(e) => Err(e),
                                    Ok(ri) => match field(rp, RTP_PARAM_TYPES_COMFORT_NOISE_PAYLOAD_TYPE) {
                                        Err(e) => Err(e),
                                        Ok(cpl) => Ok(
                                            Some(
                                                SpecAudio {
                                                    codec,
                                                    comfort_noise: cn,
                                                    channel: ch,
                                                    bitrate: br != 0,
                                                    sample_rate: (8 * (1 + sr)) as u8,
                                                    packet_time: pt,
                                                    ssrc: le_u32(ssrc),
                                                    payload_type: pl,
                                                    max_bitrate: le_u16(mb),
                                                    rtcp_interval: le_u32(ri),
                                                    comfort_payload_type: cpl,
                                                },
                                            ),
                                        ),
                                    },
                                },
                            },
                        },
                    },
                },
            },
        }
    }
}

/// The video codec, attributes and RTP parameters of `objs`, read in that order.
pub open spec fn spec_video(objs: Map<u8, Seq<u8>>) -> Result<(Option<SpecVideoCodec>, Option<StreamVideoAttributes>, Option<SpecVideoRtp>), ProtocolError> {
    if !objs.contains_key(SELECTED_STREAM_CONFIGURATION_TYPES_VIDEO) {
        Ok((None, None, None))
    } else {
        let vo = spec_decode(objs[SELECTED_STREAM_CONFIGURATION_TYPES_VIDEO]);
        match spec_video_codec(vo) {
            Err(e) => Err(e),
            Ok(c) => match spec_video_attributes(vo) {
                Err(e) => Err(e),
                Ok(a) => match spec_video_rtp(vo) {
                    Err(e) => Err(e),
                    Ok(r) => Ok((c, a, r)),
                },
            },
        }
    }
}

/// Reading the stream parameters of a start request: the session TLV and its 16-byte
/// id, then the video part, then the audio part.
pub open spec fn spec_stream_info(b: Seq<u8>) -> Result<SpecStreamInfo, ProtocolError> {
    let objs = spec_decode(b);
    match field(objs, SELECTED_STREAM_CONFIGURATION_TYPES_SESSION) {
        Err(e) => Err(e),
        Ok(st) => match fixed_field(spec_decode(st), SETUP_TYPES_SESSION_ID, 16) {
            Err(e) => Err(e),
            Ok(id) => match spec_video(objs) {
                Err(e) => Err(e),
                Ok((c, a, r)) => match spec_audio(objs) {
                    Err(e) => Err(e),
                    Ok(au) => Ok(
                        SpecStreamInfo {
                            session_id: id,
                            video_codec: c,
                            video_attributes: a,
                            video_rtp: r,
                            audio: au,
                        },
                    ),
                },
            },
        },
    }
}

/// Whether reading the stream parameters of `b` reaches an audio sample-rate byte whose
/// rate does not fit a byte, where the reading is not defined.
pub open spec fn stream_info_overflows(b: Seq<u8>) -> bool {
    let objs = spec_decode(b);
    &&& field(objs, SELECTED_STREAM_CONFIGURATION_TYPES_SESSION) matches Ok(st)
    &&& fixed_field(spec_decode(st), SETUP_TYPES_SESSION_ID, 16) is Ok
    &&& spec_video(objs) is Ok
    &&& audio_rate_overflows(objs)
}

fn read_video_codec(vo: &TlvMap) -> (r: Result<Option<StreamVideoCodec>, ProtocolError>)
    requires
        vo.wf(),
    ensures
        match r {
            Ok(c) => spec_video_codec(vo@) == Ok::<Option<SpecVideoCodec>, ProtocolError>(
                match c {
                    Some(c) => Some(c@),
                    None => None,
                },
            ),
            Err(e) => spec_video_codec(vo@) == Err::<Option<SpecVideoCodec>, ProtocolError>(e),
        },
{
    match vo.get(VIDEO_TYPES_CODEC_PARAM) {
        None => Ok(None),
        Some(t) => {
            let cp = decode(t.as_slice());
            let p = get_field(&cp, VIDEO_CODEC_PARAM_TYPES_PROFILE_ID)?;
            let l = get_field(&cp, VIDEO_CODEC_PARAM_TYPES_LEVEL)?;
            let c = StreamVideoCodec { profile_id: p.clone(), level: l.clone() };
            assert(c.profile_id@ =~= p@ && c.level@ =~= l@);
            Ok(Some(c))
        },
    }
}

fn read_video_attributes(vo: &TlvMap) -> (r: Result<Option<StreamVideoAttributes>, ProtocolError>)
    requires
        vo.wf(),
    ensures
        r == spec_video_attributes(vo@),
{
    match vo.get(VIDEO_TYPES_ATTRIBUTES) {
        None => Ok(None),
        Some(t) => {
            let va = decode(t.as_slice());
            let width = read_le_u16(get_fixed(&va, VIDEO_ATTRIBUTES_TYPES_IMAGE_WIDTH, 2)?);
            let height = read_le_u16(get_fixed(&va, VIDEO_ATTRIBUTES_TYPES_IMAGE_HEIGHT, 2)?);
            let fps = get_first_byte(&va, VIDEO_ATTRIBUTES_TYPES_FRAME_RATE)?;
            Ok(Some(StreamVideoAttributes { width, height, fps }))
        },
    }
}

fn get_optional_fixed(m: &TlvMap, k: u8, n: usize) -> (r: Result<Option<&Vec<u8>>, ProtocolError>)
    requires
        m.wf(),
    ensures
        match r {
            Ok(o) => optional_fixed(m@, k, n as nat) == Ok::<Option<Seq<u8>>, ProtocolError>(
                match o {
                    Some(v) => Some(v@),
                    None => None,
                },
            ),
            Err(e) => optional_fixed(m@, k, n as nat) == Err::<Option<Seq<u8>>, ProtocolError>(e),
        },
{
    match m.get(k) {
        None => Ok(None),
        Some(v) => if v.len() == n {
            Ok(Some(v))
        } else {
            Err(ProtocolError::ArrayConversion)
        },
    }
}

fn cloned_opt(o: Option<&Vec<u8>>) -> (r: Option<Vec<u8>>)
    ensures
        opt_view(r) == match o {
            Some(v) => Some(v@),
            None => None::<Seq<u8>>,
        },
{
    match o {
        Some(v) => {
            let c = v.clone();
            assert(c@ =~= v@);
            Some(c)
        },
        None => None,
    }
}

fn read_video_rtp(vo: &TlvMap) -> (r: Result<Option<StreamVideoRtp>, ProtocolError>)
    requires
        vo.wf(),
    ensures
        match r {
            Ok(x) => spec_video_rtp(vo@) == Ok::<Option<SpecVideoRtp>, ProtocolError>(
                match x {
                    Some(x) => Some(x@),
                    None => None,
                },
            ),
            Err(e) => spec_video_rtp(vo@) == Err::<Option<SpecVideoRtp>, ProtocolError>(e),
        },
{
    match vo.get(VIDEO_TYPES_RTP_PARAM) {
        None => Ok(None),
        Some(t) => {
            let vr = decode(t.as_slice());
            let ssrc = match get_optional_fixed(&vr, RTP_PARAM_TYPES_SYNCHRONIZATION_SOURCE, 4)? {
                Some(b) => Some(read_le_u32(b)),
                None => None,
            };
            let payload_type = cloned_opt(vr.get(RTP_PARAM_TYPES_PAYLOAD_TYPE));
            let max_bitrate = match get_optional_fixed(&vr, RTP_PARAM_TYPES_MAX_BIT_RATE, 2)? {
                Some(b) => Some(read_le_u16(b)),
                None => None,
            };
            let rtcp_interval = match get_optional_fixed(&vr, RTP_PARAM_TYPES_RTCP_SEND_INTERVAL, 4)? {
                Some(b) => Some(read_le_u32(b)),
                None => None,
            };
            let max_mtu = cloned_opt(vr.get(RTP_PARAM_TYPES_RTCP_SEND_INTERVAL));
            Ok(Some(StreamVideoRtp { ssrc, payload_type, max_bitrate, rtcp_interval, max_mtu }))
        },
    }
}

fn clone_bytes(v: &Vec<u8>) -> (r: Vec<u8>)
    ensures
        r@ == v@,
{
    let c = v.clone();
    assert(c@ =~= v@);
    c
}

/// The audio parameters, or `None` where the sample rate does not fit a byte.
fn read_audio(objs: &TlvMap) -> (r: Option<Result<Option<StreamAudio>, ProtocolError>>)
    requires
        objs.wf(),
    ensures
        r is None <==> audio_rate_overflows(objs@),
        r matches Some(Ok(a)) ==> spec_audio(objs@) == Ok::<Option<SpecAudio>, ProtocolError>(
            match a {
                Some(a) => Some(a@),
                None => None,
            },
        ),
        r matches Some(Err(e)) ==> spec_audio(objs@) == Err::<Option<SpecAudio>, ProtocolError>(e),
{
    let audio_tlv = match objs.get(SELECTED_STREAM_CONFIGURATION_TYPES_AUDIO) {
        None => return Some(Ok(None)),
        Some(t) => t,
    };
    let ao = decode(audio_tlv.as_slice());
    let codec = match get_field(&ao, AUDIO_TYPES_CODEC) {
        Ok(v) => clone_bytes(v),
        Err(e) => return Some(Err(e)),
    };
    let cp = match get_field(&ao, AUDIO_TYPES_CODEC_PARAM) {
        Ok(v) => decode(v.as_slice()),
        Err(e) => return Some(Err(e)),
    };
    let rp = match get_field(&ao, AUDIO_TYPES_RTP_PARAM) {
        Ok(v) => decode(v.as_slice()),
        Err(e) => return Some(Err(e)),
    };
    let comfort_noise = match get_field(&ao, AUDIO_TYPES_COMFORT_NOISE) {
        Ok(v) => clone_bytes(v),
        Err(e) => return Some(Err(e)),
    };
    let channel = match get_first_byte(&cp, AUDIO_CODEC_PARAM_TYPES_CHANNEL) {
        Ok(b) => b,
        Err(e) => return Some(Err(e)),
    };
    let bitrate = match get_first_byte(&cp, AUDIO_CODEC_PARAM_TYPES_BIT_RATE) {
        Ok(b) => b != 0,
        Err(e) => return Some(Err(e)),
    };
    let sample_rate = match get_first_byte(&cp, AUDIO_CODEC_PARAM_TYPES_SAMPLE_RATE) {
        Ok(b) => b,
        Err(e) => return Some(Err(e)),
    };
    if sample_rate > 30 {
        return None;
    }
    let sample_rate = 8 * (1 + sample_rate);
    let packet_time = match get_first_byte(&cp, AUDIO_CODEC_PARAM_TYPES_PACKET_TIME) {
        Ok(b) => b,
        Err(e) => return Some(Err(e)),
    };
    let ssrc = match get_fixed(&rp, RTP_PARAM_TYPES_SYNCHRONIZATION_SOURCE, 4) {
        Ok(b) => read_le_u32(b),
        Err(e) => return Some(Err(e)),
    };
    let payload_type = match get_field(&rp, RTP_PARAM_TYPES_PAYLOAD_TYPE) {
        Ok(v) => clone_bytes(v),
        Err(e) => return Some(Err(e)),
    };
    let max_bitrate = match get_fixed(&rp, RTP_PARAM_TYPES_MAX_BIT_RATE, 2) {
        Ok(b) => read_le_u16(b),
        Err(e) => return Some(Err(e)),
    };
    let rtcp_interval = match get_fixed(&rp, RTP_PARAM_TYPES_RTCP_SEND_INTERVAL, 4) {
        Ok(b) => read_le_u32(b),
        Err(e) => return Some(Err(e)),
    };
    let comfort_payload_type = match get_field(&rp, RTP_PARAM_TYPES_COMFORT_NOISE_PAYLOAD_TYPE) {
        Ok(v) => clone_bytes(v),
        Err(e) => return Some(Err(e)),
    };
    Some(
        Ok(
            Some(
                StreamAudio {
                    codec,
                    comfort_noise,
                    channel,
                    bitrate,
                    sample_rate,
                    packet_time,
                    ssrc,
                    payload_type,
                    max_bitrate,
                    rtcp_interval,
                    comfort_payload_type,
                },
            ),
        ),
    )
}

/// The stream parameters, or `None` where an audio sample rate does not fit a byte.
fn read_stream_info(bytes: &[u8]) -> (r: Option<Result<StreamInfo, ProtocolError>>)
    ensures
        r is None <==> stream_info_overflows(bytes@),
        r matches Some(x) ==> agrees(x, spec_stream_info(bytes@)),
{
    let objs = decode(bytes);
    let session_tlv = match get_field(&objs, SELECTED_STREAM_CONFIGURATION_TYPES_SESSION) {
        Ok(t) => t,
        Err(e) => return Some(Err(e)),
    };
    let session_objs = decode(session_tlv.as_slice());
    let session_id = match get_session_id(&session_objs, SETUP_TYPES_SESSION_ID) {
        Ok(id) => id,
        Err(e) => return Some(Err(e)),
    };
    let mut info = StreamInfo::new(session_id);
    match objs.get(SELECTED_STREAM_CONFIGURATION_TYPES_VIDEO) {
        None => {},
        Some(video_tlv) => {
            let vo = decode(video_tlv.as_slice());
            match read_video_codec(&vo) {
                Ok(c) => {
                    info.video_codec = c;
                },
                Err(e) => return Some(Err(e)),
            }
            match read_video_attributes(&vo) {
                Ok(a) => {
                    info.video_attributes = a;
                },
                Err(e) => return Some(Err(e)),
            }
            match read_video_rtp(&vo) {
                Ok(x) => {
                    info.video_rtp = x;
                },
                Err(e) => return Some(Err(e)),
            }
        },
    }
    match read_audio(&objs) {
        None => None,
        Some(Ok(a)) => {
            info.audio = a;
            Some(Ok(info))
        },
        Some(Err(e)) => Some(Err(e)),
    }
}

/// Reads the stream parameters of a start or reconfigure request, on every input on
/// which the reading is defined (see `stream_info_overflows`).
pub fn stream_info_response(bytes: &[u8]) -> (r: Result<StreamInfo, ProtocolError>)
    requires
        !stream_info_overflows(bytes@),
    ensures
        agrees(r, spec_stream_info(bytes@)),
{
    match read_stream_info(bytes) {
        Some(r) => r,
        None => Err(ProtocolError::MissingProperty),
    }
}

/// Whether `stream_info_response` is defined on `bytes`.
pub fn stream_info_response_defined(bytes: &[u8]) -> (r: bool)
    ensures
        r == !stream_info_overflows(bytes@),
{
    read_stream_info(bytes).is_some()
}

/// A value in a list of video options as the configuration gives it: a non-negative
/// integer, or anything else (text, a negative or fractional number, a list, ...).
#[derive(Debug, Clone, Copy, PartialEq, Eq, Structural)]
pub enum OptionNumber {
    Unsigned(u64),
    Other,
}

/// An entry of the picture formats as the configuration gives it: a list of values, or
/// anything else.
#[derive(Debug, Clone)]
pub enum VideoFormat {
    Numbers(Vec<OptionNumber>),
    Other,
}

impl View for VideoFormat {
    type V = Option<Seq<OptionNumber>>;

    open spec fn view(&self) -> Option<Seq<OptionNumber>> {
        match self {
            VideoFormat::Numbers(v) => Some(v@),
            VideoFormat::Other => None,
        }
    }
}

/// The video formats a stream offers: H.264 profile and level numbers, and picture
/// formats (width, height, frame rate). Only the non-negative integers of a list count,
/// and only the formats that are lists with exactly three of them.
#[derive(Debug, Clone)]
pub struct VideoStreamOptions {
    pub profiles: Vec<OptionNumber>,
    pub levels: Vec<OptionNumber>,
    pub resolutions: Vec<VideoFormat>,
}

/// One audio codec a stream offers: its name ("OPUS" or "AAC-eld") and its sample rate
/// in kHz (8, 16 or 24).
#[derive(Debug, Clone)]
pub struct AudioCodecOption {
    pub kind: String,
    pub samplerate: u8,
}

/// The audio codecs a stream offers.
#[derive(Debug, Clone)]
pub struct AudioStreamOptions {
    pub codecs: Vec<AudioCodecOption>,
}

/// Parts joined with the two-byte delimiter `00 00` between neighbours.
pub open spec fn delimited(parts: Seq<Seq<u8>>) -> Seq<u8>
    decreases parts.len(),
{
    if parts.len() == 0 {
        Seq::empty()
    } else if parts.len() == 1 {
        parts[0]
    } else {
        delimited(parts.drop_last()) + seq![0u8, 0u8] + parts.last()
    }
}

proof fn lemma_delimited_push(parts: Seq<Seq<u8>>, x: Seq<u8>)
    ensures
        delimited(parts.push(x)) == if parts.len() == 0 {
            x
        } else {
            delimited(parts) + seq![0u8, 0u8] + x
        },
{
    assert(parts.push(x).drop_last() =~= parts);
}

/// One TLV item of type `t` per number, holding its low byte.
pub open spec fn number_parts(ns: Seq<u64>, t: u8) -> Seq<Seq<u8>> {
    ns.map_values(|n: u64| encode_item(t, seq![n as u8]))
}

/// The attribute item of one picture format: width and height (low 16 bits,
/// little-endian) and the frame rate's low byte.
pub open spec fn resolution_part(w: u64, h: u64, r: u64) -> Seq<u8> {
    encode_item(
        VIDEO_TYPES_ATTRIBUTES,
        encode_items(
            seq![
                (VIDEO_ATTRIBUTES_TYPES_IMAGE_WIDTH, u16_le(w as u16)),
                (VIDEO_ATTRIBUTES_TYPES_IMAGE_HEIGHT, u16_le(h as u16)),
                (VIDEO_ATTRIBUTES_TYPES_FRAME_RATE, seq![(r as u16) as u8]),
            ],
        ),
    )
}

/// The non-negative integers of a list of values, in order; other values are ignored.
pub open spec fn usable_numbers(s: Seq<OptionNumber>) -> Seq<u64>
    decreases s.len(),
{
    if s.len() == 0 {
        Seq::empty()
    } else {
        let prev = usable_numbers(s.drop_last());
        match s.last() {
            OptionNumber::Unsigned(n) => prev.push(n),
            OptionNumber::Other => prev,
        }
    }
}

/// Whether a picture format is used: a list with exactly three non-negative integers.
pub open spec fn usable_format(f: Option<Seq<OptionNumber>>) -> bool {
    f matches Some(l) && usable_numbers(l).len() == 3
}

/// The attribute items of the picture formats that are used.
pub open spec fn resolution_parts(rs: Seq<Option<Seq<OptionNumber>>>) -> Seq<Seq<u8>>
    decreases rs.len(),
{
    if rs.len() == 0 {
        Seq::empty()
    } else {
        let prev = resolution_parts(rs.drop_last());
        if usable_format(rs.last()) {
            let n = usable_numbers(rs.last()->Some_0);
            prev.push(resolution_part(n[0], n[1], n[2]))
        } else {
            prev
        }
    }
}

pub struct SpecVideoOptions {
    pub profiles: Seq<OptionNumber>,
    pub levels: Seq<OptionNumber>,
    pub resolutions: Seq<Option<Seq<OptionNumber>>>,
}

impl View for VideoStreamOptions {
    type V = SpecVideoOptions;

    open spec fn view(&self) -> SpecVideoOptions {
        SpecVideoOptions {
            profiles: self.profiles@,
            levels: self.levels@,
            resolutions: self.resolutions@.map_values(|f: VideoFormat| f@),
        }
    }
}

/// The supported-video-stream-configuration value: one H.264 configuration with the
/// profiles and levels (each list delimited), non-interleaved packetization, and the
/// delimited picture formats.
pub open spec fn spec_video_stream_config(o: SpecVideoOptions) -> Seq<u8> {
    let codec_params = delimited(number_parts(usable_numbers(o.profiles), VIDEO_CODEC_PARAM_TYPES_PROFILE_ID))
        + delimited(number_parts(usable_numbers(o.levels), VIDEO_CODEC_PARAM_TYPES_LEVEL))
        + encode_item(VIDEO_CODEC_PARAM_TYPES_PACKETIZATION_MODE, seq![0u8]);
    let config = encode_items(
        seq![(VIDEO_TYPES_CODEC, seq![VIDEO_CODEC_TYPES_H264]), (VIDEO_TYPES_CODEC_PARAM, codec_params)],
    ) + delimited(resolution_parts(o.resolutions));
    encode_items(seq![(SUPPORTED_VIDEO_CONFIG_TAG, config)])
}

/// The non-negative integers of `ns`, in order.
fn usable(ns: &Vec<OptionNumber>) -> (r: Vec<u64>)
    ensures
        r@ == usable_numbers(ns@),
{
    let mut out: Vec<u64> = Vec::new();
    let mut i: usize = 0;
    while i < ns.len()
        invariant
            i <= ns@.len(),
            out@ == usable_numbers(ns@.take(i as int)),
        decreases ns@.len() - i,
    {
        proof {
            assert(ns@.take(i + 1).drop_last() =~= ns@.take(i as int));
            assert(ns@.take(i + 1).last() == ns@[i as int]);
        }
        match ns[i] {
            OptionNumber::Unsigned(n) => out.push(n),
            OptionNumber::Other => {},
        }
        i = i + 1;
    }
    assert(ns@.take(i as int) =~= ns@);
    out
}

fn delimited_numbers(ns: &Vec<u64>, t: u8) -> (r: Vec<u8>)
    ensures
        r@ == delimited(number_parts(ns@, t)),
{
    let mut out: Vec<u8> = Vec::new();
    let mut i: usize = 0;
    while i < ns.len()
        invariant
            i <= ns@.len(),
            out@ == delimited(number_parts(ns@, t).take(i as int)),
        decreases ns@.len() - i,
    {
        let ghost parts = number_parts(ns@, t);
        proof {
            lemma_delimited_push(parts.take(i as int), parts[i as int]);
            assert(parts.take(i + 1) =~= parts.take(i as int).push(parts[i as int]));
        }
        if i > 0 {
            out.push(0);
            out.push(0);
        }
        #[verifier::truncate]
        let b = ns[i] as u8;
        let one = [b];
        assert(one@ =~= seq![ns@[i as int] as u8]);
        push_item(&mut out, t, &one);
        i = i + 1;
    }
    assert(number_parts(ns@, t).take(i as int) =~= number_parts(ns@, t));
    out
}

fn resolution_item(w: u64, h: u64, r: u64) -> (out: Vec<u8>)
    ensures
        out@ == resolution_part(w, h, r),
{
    #[verifier::truncate]
    let w16 = w as u16;
    #[verifier::truncate]
    let h16 = h as u16;
    #[verifier::truncate]
    let r16 = r as u16;
    #[verifier::truncate]
    let r8 = r16 as u8;
    let items = vec![
        (VIDEO_ATTRIBUTES_TYPES_IMAGE_WIDTH, write_le_u16(w16)),
        (VIDEO_ATTRIBUTES_TYPES_IMAGE_HEIGHT, write_le_u16(h16)),
        (VIDEO_ATTRIBUTES_TYPES_FRAME_RATE, vec![r8]),
    ];
    proof {
        assert(items@[2].1@ =~= seq![(r as u16) as u8]);
        assert(items_view(items@) =~= seq![
            (VIDEO_ATTRIBUTES_TYPES_IMAGE_WIDTH, u16_le(w as u16)),
            (VIDEO_ATTRIBUTES_TYPES_IMAGE_HEIGHT, u16_le(h as u16)),
            (VIDEO_ATTRIBUTES_TYPES_FRAME_RATE, seq![(r as u16) as u8]),
        ]);
    }
    let inner = encode(items);
    let mut out: Vec<u8> = Vec::new();
    push_item(&mut out, VIDEO_TYPES_ATTRIBUTES, inner.as_slice());
    assert(out@ =~= resolution_part(w, h, r));
    out
}

fn delimited_resolutions(rs: &Vec<VideoFormat>) -> (r: Vec<u8>)
    ensures
        r@ == delimited(resolution_parts(rs@.map_values(|f: VideoFormat| f@))),
{
    let ghost rv = rs@.map_values(|f: VideoFormat| f@);
    let mut out: Vec<u8> = Vec::new();
    let mut count: usize = 0;
    let mut i: usize = 0;
    while i < rs.len()
        invariant
            i <= rs@.len(),
            rv == rs@.map_values(|f: VideoFormat| f@),
            count == resolution_parts(rv.take(i as int)).len(),
            count <= i,
            out@ == delimited(resolution_parts(rv.take(i as int))),
        decreases rs@.len() - i,
    {
        proof {
            assert(rv.take(i + 1).drop_last() =~= rv.take(i as int));
            assert(rv.take(i + 1).last() == rs@[i as int]@);
        }
        match &rs[i] {
            VideoFormat::Numbers(l) => {
                let dims = usable(l);
                if dims.len() == 3 {
                    let part = resolution_item(dims[0], dims[1], dims[2]);
                    proof {
                        lemma_delimited_push(resolution_parts(rv.take(i as int)), part@);
                    }
                    if count > 0 {
                        out.push(0);
                        out.push(0);
                    }
                    let mut part = part;
                    out.append(&mut part);
                    count = count + 1;
                }
            },
            VideoFormat::Other => {},
        }
        i = i + 1;
    }
    assert(rv.take(i as int) =~= rv);
    out
}

/// The supported-video-stream-configuration value of a stream (see
/// `spec_video_stream_config`).
pub fn video_stream_config(data: &VideoStreamOptions) -> (r: Vec<u8>)
    ensures
        r@ == spec_video_stream_config(data@),
{
    let mut codec_params_tlv: Vec<u8> = Vec::new();
    let mut profiles = delimited_numbers(&usable(&data.profiles), VIDEO_CODEC_PARAM_TYPES_PROFILE_ID);
    let mut levels = delimited_numbers(&usable(&data.levels), VIDEO_CODEC_PARAM_TYPES_LEVEL);
    codec_params_tlv.append(&mut profiles);
    codec_params_tlv.append(&mut levels);
    let zero = [0u8];
    assert(zero@ =~= seq![0u8]);
    push_item(&mut codec_params_tlv, VIDEO_CODEC_PARAM_TYPES_PACKETIZATION_MODE, &zero);
    let ghost cp = codec_params_tlv@;
    let items = vec![
        (VIDEO_TYPES_CODEC, vec![VIDEO_CODEC_TYPES_H264]),
        (VIDEO_TYPES_CODEC_PARAM, codec_params_tlv),
    ];
    proof {
        assert(items@[0].1@ =~= seq![VIDEO_CODEC_TYPES_H264]);
        assert(items_view(items@) =~= seq![
            (VIDEO_TYPES_CODEC, seq![VIDEO_CODEC_TYPES_H264]),
            (VIDEO_TYPES_CODEC_PARAM, cp),
        ]);
    }
    let mut config_tlv = encode(items);
    let mut attr_tlv = delimited_resolutions(&data.resolutions);
    config_tlv.append(&mut attr_tlv);
    let ghost cfg = config_tlv@;
    let outer = vec![(SUPPORTED_VIDEO_CONFIG_TAG, config_tlv)];
    proof {
        assert(items_view(outer@) =~= seq![(SUPPORTED_VIDEO_CONFIG_TAG, cfg)]);
    }
    encode(outer)
}

/// A value that is not a non-negative integer, put anywhere in a list, leaves its
/// non-negative integers as they were.
proof fn lemma_usable_numbers_insert(s: Seq<OptionNumber>, i: int)
    requires
        0 <= i <= s.len(),
    ensures
        usable_numbers(s.insert(i, OptionNumber::Other)) == usable_numbers(s),
    decreases s.len(),
{
    let t = s.insert(i, OptionNumber::Other);
    if i == s.len() {
        assert(t.drop_last() =~= s);
    } else {
        assert(t.drop_last() =~= s.drop_last().insert(i, OptionNumber::Other));
        assert(t.last() == s.last());
        lemma_usable_numbers_insert(s.drop_last(), i);
    }
}

/// A picture format that is not used, put anywhere among the formats, leaves their
/// attribute items as they were.
proof fn lemma_resolution_parts_insert(rs: Seq<Option<Seq<OptionNumber>>>, k: int, f: Option<Seq<OptionNumber>>)
    requires
        0 <= k <= rs.len(),
        !usable_format(f),
    ensures
        resolution_parts(rs.insert(k, f)) == resolution_parts(rs),
    decreases rs.len(),
{
    let t = rs.insert(k, f);
    if k == rs.len() {
        assert(t.drop_last() =~= rs);
    } else {
        assert(t.drop_last() =~= rs.drop_last().insert(k, f));
        assert(t.last() == rs.last());
        lemma_resolution_parts_insert(rs.drop_last(), k, f);
    }
}

/// Unusable entries do not change the supported-video-stream-configuration value: a
/// value that is not a non-negative integer added to the profiles (at `i`) and to the
/// levels (at `j`), and a picture format that is not a list of exactly three
/// non-negative integers added to the formats (at `k`), give the same value.
pub proof fn lemma_unusable_entries_ignored(o: SpecVideoOptions, i: int, j: int, k: int, f: Option<Seq<OptionNumber>>)
    requires
        0 <= i <= o.profiles.len(),
        0 <= j <= o.levels.len(),
        0 <= k <= o.resolutions.len(),
        !usable_format(f),
    ensures
        spec_video_stream_config(
            SpecVideoOptions {
                profiles: o.profiles.insert(i, OptionNumber::Other),
                levels: o.levels.insert(j, OptionNumber::Other),
                resolutions: o.resolutions.insert(k, f),
            },
        ) == spec_video_stream_config(o),
{
    lemma_usable_numbers_insert(o.profiles, i);
    lemma_usable_numbers_insert(o.levels, j);
    lemma_resolution_parts_insert(o.resolutions, k, f);
}

/// The UTF-8 bytes of "OPUS".
pub open spec fn opus_name() -> Seq<u8> {
    seq![79u8, 80, 85, 83]
}

/// The UTF-8 bytes of "AAC-eld".
pub open spec fn aac_eld_name() -> Seq<u8> {
    seq![65u8, 65, 67, 45, 101, 108, 100]
}

pub struct SpecAudioCodec {
    pub kind: Seq<char>,
    pub samplerate: u8,
}

impl View for AudioCodecOption {
    type V = SpecAudioCodec;

    open spec fn view(&self) -> SpecAudioCodec {
        SpecAudioCodec { kind: self.kind@, samplerate: self.samplerate }
    }
}

impl View for AudioStreamOptions {
    type V = Seq<SpecAudioCodec>;

    open spec fn view(&self) -> Seq<SpecAudioCodec> {
        self.codecs@.map_values(|c: AudioCodecOption| c@)
    }
}

/// Whether a codec is one the configuration can announce: named "OPUS" or "AAC-eld",
/// at 8, 16 or 24 kHz.
pub open spec fn supported_audio_codec(c: SpecAudioCodec) -> bool {
    &&& (encode_utf8(c.kind) == opus_name() || encode_utf8(c.kind) == aac_eld_name())
    &&& (c.samplerate == 8 || c.samplerate == 16 || c.samplerate == 24)
}

/// The configuration item of one codec: its type (3 for Opus, 2 for AAC-ELD) and its
/// parameters: one channel, variable bit rate, and the sample-rate code (0, 1, 2 for
/// 8, 16, 24 kHz).
pub open spec fn audio_codec_part(c: SpecAudioCodec) -> Seq<u8> {
    let code: u8 = if encode_utf8(c.kind) == opus_name() { AUDIO_CODEC_TYPES_OPUS } else { AUDIO_CODEC_TYPES_AACELD };
    let rate: u8 = if c.samplerate == 8 { 0u8 } else if c.samplerate == 16 { 1u8 } else { 2u8 };
    encode_item(
        SUPPORTED_AUDIO_CODECS_TAG,
        encode_items(
            seq![
                (AUDIO_TYPES_CODEC, seq![code]),
                (
                    AUDIO_TYPES_CODEC_PARAM,
                    encode_items(
                        seq![
                            (AUDIO_CODEC_PARAM_TYPES_CHANNEL, seq![1u8]),
                            (AUDIO_CODEC_PARAM_TYPES_BIT_RATE, seq![AUDIO_CODEC_PARAM_BIT_RATE_TYPES_VARIABLE]),
                            (AUDIO_CODEC_PARAM_TYPES_SAMPLE_RATE, seq![rate]),
                        ],
                    ),
                ),
            ],
        ),
    )
}

/// The codecs' items one after the other.
pub open spec fn audio_codec_parts(cs: Seq<SpecAudioCodec>) -> Seq<u8>
    decreases cs.len(),
{
    if cs.len() == 0 {
        Seq::empty()
    } else {
        audio_codec_parts(cs.drop_last()) + audio_codec_part(cs.last())
    }
}

/// The supported-audio-stream-configuration value: each codec's item, then comfort
/// noise not supported.
pub open spec fn spec_audio_stream_config(cs: Seq<SpecAudioCodec>) -> Seq<u8> {
    audio_codec_parts(cs) + encode_item(SUPPORTED_COMFORT_NOISE_TAG, seq![0u8])
}

fn bytes_equal(a: &[u8], b: &[u8]) -> (r: bool)
    ensures
        r == (a@ == b@),
{
    if a.len() != b.len() {
        return false;
    }
    let mut i: usize = 0;
    while i < a.len()
        invariant
            i <= a@.len(),
            a@.len() == b@.len(),
            forall|j: int| 0 <= j < i ==> a@[j] == b@[j],
        decreases a@.len() - i,
    {
        if a[i] != b[i] {
            return false;
        }
        i = i + 1;
    }
    assert(a@ =~= b@);
    true
}

fn audio_codec_item(c: &AudioCodecOption) -> (r: Vec<u8>)
    requires
        supported_audio_codec(c@),
    ensures
        r@ == audio_codec_part(c@),
{
    let opus: [u8; 4] = [79, 80, 85, 83];
    assert(opus@ =~= opus_name());
    let code: u8 = if bytes_equal(c.kind.as_str().as_bytes(), &opus) {
        AUDIO_CODEC_TYPES_OPUS
    } else {
        AUDIO_CODEC_TYPES_AACELD
    };
    let rate: u8 = if c.samplerate == 8 {
        0
    } else if c.samplerate == 16 {
        1
    } else {
        2
    };
    let params = vec![
        (AUDIO_CODEC_PARAM_TYPES_CHANNEL, vec![1u8]),
        (AUDIO_CODEC_PARAM_TYPES_BIT_RATE, vec![AUDIO_CODEC_PARAM_BIT_RATE_TYPES_VARIABLE]),
        (AUDIO_CODEC_PARAM_TYPES_SAMPLE_RATE, vec![rate]),
    ];
    let ghost pv = seq![
        (AUDIO_CODEC_PARAM_TYPES_CHANNEL, seq![1u8]),
        (AUDIO_CODEC_PARAM_TYPES_BIT_RATE, seq![AUDIO_CODEC_PARAM_BIT_RATE_TYPES_VARIABLE]),
        (AUDIO_CODEC_PARAM_TYPES_SAMPLE_RATE, seq![rate]),
    ];
    proof {
        assert(params@[0].1@ =~= seq![1u8]);
        assert(params@[1].1@ =~= seq![AUDIO_CODEC_PARAM_BIT_RATE_TYPES_VARIABLE]);
        assert(params@[2].1@ =~= seq![rate]);
        assert(items_view(params@) =~= pv);
    }
    let param_tlv = encode(params);
    let config = vec![(AUDIO_TYPES_CODEC, vec![code]), (AUDIO_TYPES_CODEC_PARAM, param_tlv)];
    proof {
        assert(config@[0].1@ =~= seq![code]);
        assert(items_view(config@) =~= seq![(AUDIO_TYPES_CODEC, seq![code]), (AUDIO_TYPES_CODEC_PARAM, encode_items(pv))]);
    }
    let config_tlv = encode(config);
    let mut out: Vec<u8> = Vec::new();
    push_item(&mut out, SUPPORTED_AUDIO_CODECS_TAG, config_tlv.as_slice());
    assert(out@ =~= audio_codec_part(c@));
    out
}

/// The supported-audio-stream-configuration value of a stream whose codecs are all
/// supported (see `spec_audio_stream_config`).
pub fn audio_stream_config(data: &AudioStreamOptions) -> (r: Vec<u8>)
    requires
        forall|i: int| 0 <= i < data@.len() ==> supported_audio_codec(#[trigger] data@[i]),
    ensures
        r@ == spec_audio_stream_config(data@),
{
    let mut configs: Vec<u8> = Vec::new();
    let mut i: usize = 0;
    while i < data.codecs.len()
        invariant
            i <= data@.len(),
            data@.len() == data.codecs@.len(),
            forall|j: int| 0 <= j < data@.len() ==> supported_audio_codec(#[trigger] data@[j]),
            configs@ == audio_codec_parts(data@.take(i as int)),
        decreases data@.len() - i,
    {
        proof {
            assert(data@.take(i + 1).drop_last() =~= data@.take(i as int));
            assert(data@[i as int] == data.codecs@[i as int]@);
        }
        let mut part = audio_codec_item(&data.codecs[i]);
        configs.append(&mut part);
        i = i + 1;
    }
    assert(data@.take(i as int) =~= data@);
    let zero = [0u8];
    assert(zero@ =~= seq![0u8]);
    push_item(&mut configs, SUPPORTED_COMFORT_NOISE_TAG, &zero);
    configs
}

/// Whether every codec of the stream is one `audio_stream_config` can announce.
pub fn audio_codecs_supported(data: &AudioStreamOptions) -> (r: bool)
    ensures
        r == forall|i: int| 0 <= i < data@.len() ==> supported_audio_codec(#[trigger] data@[i]),
{
    let opus: [u8; 4] = [79, 80, 85, 83];
    let aac: [u8; 7] = [65, 65, 67, 45, 101, 108, 100];
    assert(opus@ =~= opus_name());
    assert(aac@ =~= aac_eld_name());
    let mut i: usize = 0;
    while i < data.codecs.len()
        invariant
            i <= data@.len(),
            data@.len() == data.codecs@.len(),
            opus@ == opus_name(),
            aac@ == aac_eld_name(),
            forall|j: int| 0 <= j < i ==> supported_audio_codec(#[trigger] data@[j]),
        decreases data@.len() - i,
    {
        let c = &data.codecs[i];
        assert(data@[i as int] == c@);
        let name = c.kind.as_str().as_bytes();
        let named = bytes_equal(name, &opus) || bytes_equal(name, &aac);
        let rated = c.samplerate == 8 || c.samplerate == 16 || c.samplerate == 24;
        if !(named && rated) {
            assert(!supported_audio_codec(data@[i as int]));
            return false;
        }
        i = i + 1;
    }
    true
}

/// Reading back the little-endian bytes of a number gives the number.
pub proof fn lemma_le_roundtrip(x: u16, y: u32)
    ensures
        u16_le(x).len() == 2,
        le_u16(u16_le(x)) == x,
        u32_le(y).len() == 4,
        le_u32(u32_le(y)) == y,
{
}

/// Reading back the SRTP parameters the accessory answers with gives the
/// AES_CM_128_HMAC_SHA1_80 suite and the key and salt they were written from.
proof fn lemma_srtp_answer_reads_back(c: SpecCrypto)
    ensures
        spec_crypto(spec_decode(spec_srtp_answer(c))) == Ok::<SpecCrypto, ProtocolError>(
            SpecCrypto {
                cypto_suite: SRTP_CRYPTO_SUITES_AES_CM_128_HMAC_SHA1_80,
                master_key: c.master_key,
                master_salt: c.master_salt,
            },
        ),
{
    let items = seq![
        (SETUP_SRTP_PARAM_CRYPTO, seq![SRTP_CRYPTO_SUITES_AES_CM_128_HMAC_SHA1_80]),
        (SETUP_SRTP_PARAM_MASTER_KEY, c.master_key),
        (SETUP_SRTP_PARAM_MASTER_SALT, c.master_salt),
    ];
    lemma_decode_encode(items);
    assert forall|i: int| 0 <= i < 3 implies #[trigger] items[i].0 == (i + 1) as u8 by {}
    assert forall|j: int, k: int| 0 <= j < k < items.len() implies items[j].0 != items[k].0 by {
        assert(items[j].0 == (j + 1) as u8 && items[k].0 == (k + 1) as u8);
    }
    lemma_items_map_distinct(items, 0);
    lemma_items_map_distinct(items, 1);
    lemma_items_map_distinct(items, 2);
}

/// Decoding the setup-endpoint answer gives back what it was written from: the
/// session id, the success status, the SSRCs, and an address TLV holding the address
/// version, its text and the ports. Read as a request (its session id having 16 bytes),
/// it gives the same session, address and ports, and the SRTP parameters with the
/// AES_CM_128_HMAC_SHA1_80 suite and the same keys and salts.
pub proof fn lemma_setup_answer_reads_back(req: SpecSetupRequest, address: SpecAddress, video_ssrc: u32, audio_ssrc: u32)
    ensures
        req.session_id.len() == 16 ==> spec_setup_endpoint_address(
            spec_setup_endpoint_response(req, address, video_ssrc, audio_ssrc),
        ) == Ok::<SpecAddress, ProtocolError>(address),
        req.session_id.len() == 16 ==> spec_setup_endpoint_request(
            spec_setup_endpoint_response(req, address, video_ssrc, audio_ssrc),
            address,
        ) == Ok::<SpecSetupRequest, ProtocolError>(
            SpecSetupRequest {
                session_id: req.session_id,
                address,
                video_port: req.video_port,
                audio_port: req.audio_port,
                video_crypto: SpecCrypto {
                    cypto_suite: SRTP_CRYPTO_SUITES_AES_CM_128_HMAC_SHA1_80,
                    master_key: req.video_crypto.master_key,
                    master_salt: req.video_crypto.master_salt,
                },
                audio_crypto: SpecCrypto {
                    cypto_suite: SRTP_CRYPTO_SUITES_AES_CM_128_HMAC_SHA1_80,
                    master_key: req.audio_crypto.master_key,
                    master_salt: req.audio_crypto.master_salt,
                },
            },
        ),
        ({
            let m = spec_decode(spec_setup_endpoint_response(req, address, video_ssrc, audio_ssrc));
            &&& m.contains_key(SETUP_TYPES_SESSION_ID) && m[SETUP_TYPES_SESSION_ID] == req.session_id
            &&& m.contains_key(SETUP_TYPES_STATUS) && m[SETUP_TYPES_STATUS] == seq![SETUP_STATUS_SUCCESS]
            &&& m.contains_key(SETUP_TYPES_VIDEO_SSRC) && le_u32(m[SETUP_TYPES_VIDEO_SSRC]) == video_ssrc
            &&& m.contains_key(SETUP_TYPES_AUDIO_SSRC) && le_u32(m[SETUP_TYPES_AUDIO_SSRC]) == audio_ssrc
            &&& m.contains_key(SETUP_TYPES_ADDRESS)
            &&& m.contains_key(SETUP_TYPES_VIDEO_SRTP_PARAM) && m.contains_key(SETUP_TYPES_AUDIO_SRTP_PARAM)
            &&& {
                let a = spec_decode(m[SETUP_TYPES_ADDRESS]);
                &&& a.contains_key(SETUP_ADDR_INFO_ADDRESS) && a[SETUP_ADDR_INFO_ADDRESS] == encode_utf8(address.text)
                &&& a.contains_key(SETUP_ADDR_INFO_VIDEO_RTP_PORT) && le_u16(a[SETUP_ADDR_INFO_VIDEO_RTP_PORT]) == req.video_port
                &&& a.contains_key(SETUP_ADDR_INFO_AUDIO_RTP_PORT) && le_u16(a[SETUP_ADDR_INFO_AUDIO_RTP_PORT]) == req.audio_port
                &&& first_byte(a, SETUP_ADDR_INFO_ADDRESS_VER) == Ok::<u8, ProtocolError>(if address.is_ipv6 { 1u8 } else { 0u8 })
            }
        }),
{
    let items = seq![
        (SETUP_TYPES_SESSION_ID, req.session_id),
        (SETUP_TYPES_STATUS, seq![SETUP_STATUS_SUCCESS]),
        (SETUP_TYPES_ADDRESS, spec_address_answer(req, address)),
        (SETUP_TYPES_VIDEO_SRTP_PARAM, spec_srtp_answer(req.video_crypto)),
        (SETUP_TYPES_AUDIO_SRTP_PARAM, spec_srtp_answer(req.audio_crypto)),
        (SETUP_TYPES_VIDEO_SSRC, u32_le(video_ssrc)),
        (SETUP_TYPES_AUDIO_SSRC, u32_le(audio_ssrc)),
    ];
    lemma_decode_encode(items);
    assert forall|i: int| 0 <= i < 7 implies #[trigger] items[i].0 == (i + 1) as u8 by {}
    assert forall|j: int, k: int| 0 <= j < k < items.len() implies items[j].0 != items[k].0 by {
        assert(items[j].0 == (j + 1) as u8 && items[k].0 == (k + 1) as u8);
    }
    lemma_items_map_distinct(items, 0);
    lemma_items_map_distinct(items, 1);
    lemma_items_map_distinct(items, 2);
    lemma_items_map_distinct(items, 3);
    lemma_items_map_distinct(items, 4);
    lemma_items_map_distinct(items, 5);
    lemma_items_map_distinct(items, 6);
    let aitems = seq![
        (SETUP_ADDR_INFO_ADDRESS_VER, seq![if address.is_ipv6 { 1u8 } else { 0u8 }]),
        (SETUP_ADDR_INFO_ADDRESS, encode_utf8(address.text)),
        (SETUP_ADDR_INFO_VIDEO_RTP_PORT, u16_le(req.video_port)),
        (SETUP_ADDR_INFO_AUDIO_RTP_PORT, u16_le(req.audio_port)),
    ];
    lemma_decode_encode(aitems);
    assert forall|i: int| 0 <= i < 4 implies #[trigger] aitems[i].0 == (i + 1) as u8 by {}
    assert forall|j: int, k: int| 0 <= j < k < aitems.len() implies aitems[j].0 != aitems[k].0 by {
        assert(aitems[j].0 == (j + 1) as u8 && aitems[k].0 == (k + 1) as u8);
    }
    lemma_items_map_distinct(aitems, 0);
    lemma_items_map_distinct(aitems, 1);
    lemma_items_map_distinct(aitems, 2);
    lemma_items_map_distinct(aitems, 3);
    lemma_le_roundtrip(req.video_port, video_ssrc);
    lemma_le_roundtrip(req.audio_port, audio_ssrc);
    lemma_srtp_answer_reads_back(req.video_crypto);
    lemma_srtp_answer_reads_back(req.audio_crypto);
    vstd::utf8::encode_utf8_valid_utf8(address.text);
    vstd::utf8::encode_utf8_decode_utf8(address.text);
}

/// Decoding one encoded item gives its type with its value.
proof fn lemma_decode_item(t: u8, v: Seq<u8>)
    ensures
        spec_decode(encode_item(t, v)).contains_key(t),
        spec_decode(encode_item(t, v))[t] == v,
{
    let items = seq![(t, v)];
    assert(items.drop_last() =~= Seq::<(u8, Seq<u8>)>::empty());
    assert(encode_items(Seq::<(u8, Seq<u8>)>::empty()) == Seq::<u8>::empty());
    assert(items.last() == (t, v));
    assert(encode_items(items) == encode_items(items.drop_last()) + encode_item(t, v));
    assert(encode_items(items) =~= encode_item(t, v));
    lemma_decode_encode(items);
    lemma_items_map_distinct(items, 0);
}

/// The configuration item of a supported audio codec reads back as its codec type (3
/// for Opus, 2 for AAC-ELD), one channel, variable bit rate, and a sample-rate code that
/// is 0, 1 or 2 exactly when the sample rate is 8, 16 or 24 kHz, whatever the codec.
pub proof fn lemma_audio_codec_part_reads_back(c: SpecAudioCodec)
    requires
        supported_audio_codec(c),
    ensures
        ({
            let m = spec_decode(audio_codec_part(c));
            &&& m.contains_key(SUPPORTED_AUDIO_CODECS_TAG)
            &&& {
                let item = spec_decode(m[SUPPORTED_AUDIO_CODECS_TAG]);
                &&& item.contains_key(AUDIO_TYPES_CODEC)
                &&& item[AUDIO_TYPES_CODEC] == seq![if encode_utf8(c.kind) == opus_name() { 3u8 } else { 2u8 }]
                &&& item.contains_key(AUDIO_TYPES_CODEC_PARAM)
                &&& {
                    let p = spec_decode(item[AUDIO_TYPES_CODEC_PARAM]);
                    &&& p.contains_key(AUDIO_CODEC_PARAM_TYPES_CHANNEL) && p[AUDIO_CODEC_PARAM_TYPES_CHANNEL] == seq![1u8]
                    &&& p.contains_key(AUDIO_CODEC_PARAM_TYPES_BIT_RATE) && p[AUDIO_CODEC_PARAM_TYPES_BIT_RATE] == seq![0u8]
                    &&& p.contains_key(AUDIO_CODEC_PARAM_TYPES_SAMPLE_RATE)
                    &&& (c.samplerate == 8 <==> p[AUDIO_CODEC_PARAM_TYPES_SAMPLE_RATE] == seq![0u8])
                    &&& (c.samplerate == 16 <==> p[AUDIO_CODEC_PARAM_TYPES_SAMPLE_RATE] == seq![1u8])
                    &&& (c.samplerate == 24 <==> p[AUDIO_CODEC_PARAM_TYPES_SAMPLE_RATE] == seq![2u8])
                }
            }
        }),
{
    let code: u8 = if encode_utf8(c.kind) == opus_name() { AUDIO_CODEC_TYPES_OPUS } else { AUDIO_CODEC_TYPES_AACELD };
    let rate: u8 = if c.samplerate == 8 { 0u8 } else if c.samplerate == 16 { 1u8 } else { 2u8 };
    let params = seq![
        (AUDIO_CODEC_PARAM_TYPES_CHANNEL, seq![1u8]),
        (AUDIO_CODEC_PARAM_TYPES_BIT_RATE, seq![AUDIO_CODEC_PARAM_BIT_RATE_TYPES_VARIABLE]),
        (AUDIO_CODEC_PARAM_TYPES_SAMPLE_RATE, seq![rate]),
    ];
    let items = seq![(AUDIO_TYPES_CODEC, seq![code]), (AUDIO_TYPES_CODEC_PARAM, encode_items(params))];
    lemma_decode_item(SUPPORTED_AUDIO_CODECS_TAG, encode_items(items));
    lemma_decode_encode(items);
    assert forall|j: int, k: int| 0 <= j < k < items.len() implies items[j].0 != items[k].0 by {}
    lemma_items_map_distinct(items, 0);
    lemma_items_map_distinct(items, 1);
    lemma_decode_encode(params);
    assert forall|i: int| 0 <= i < 3 implies #[trigger] params[i].0 == (i + 1) as u8 by {}
    assert forall|j: int, k: int| 0 <= j < k < params.len() implies params[j].0 != params[k].0 by {
        assert(params[j].0 == (j + 1) as u8 && params[k].0 == (k + 1) as u8);
    }
    lemma_items_map_distinct(params, 0);
    lemma_items_map_distinct(params, 1);
    lemma_items_map_distinct(params, 2);
    assert(seq![0u8] != seq![1u8] && seq![0u8] != seq![2u8] && seq![1u8] != seq![2u8]) by {
        assert(seq![0u8][0] != seq![1u8][0]);
        assert(seq![0u8][0] != seq![2u8][0]);
        assert(seq![1u8][0] != seq![2u8][0]);
    }
}

/// When the stream parameters read with audio, each audio field is the entry of its own
/// type: the codec and comfort-noise entries of the audio TLV; the first bytes of the
/// channel, bit-rate, sample-rate (the rate in kHz being 8 * (1 + code)) and packet-time
/// entries of its codec parameters; and the SSRC, payload type, maximum bit rate, RTCP
/// interval and comfort-noise payload type of its RTP parameters.
pub proof fn lemma_stream_info_audio_fields(b: Seq<u8>)
    requires
        spec_stream_info(b) is Ok,
        spec_stream_info(b)->Ok_0.audio is Some,
    ensures
        ({
            let au = spec_stream_info(b)->Ok_0.audio->Some_0;
            let ao = spec_decode(spec_decode(b)[SELECTED_STREAM_CONFIGURATION_TYPES_AUDIO]);
            let cp = spec_decode(ao[AUDIO_TYPES_CODEC_PARAM]);
            let rp = spec_decode(ao[AUDIO_TYPES_RTP_PARAM]);
            &&& ao.contains_key(AUDIO_TYPES_CODEC) && au.codec == ao[AUDIO_TYPES_CODEC]
            &&& ao.contains_key(AUDIO_TYPES_COMFORT_NOISE) && au.comfort_noise == ao[AUDIO_TYPES_COMFORT_NOISE]
            &&& cp.contains_key(AUDIO_CODEC_PARAM_TYPES_CHANNEL) && cp[AUDIO_CODEC_PARAM_TYPES_CHANNEL].len() > 0
            &&& au.channel == cp[AUDIO_CODEC_PARAM_TYPES_CHANNEL][0]
            &&& cp.contains_key(AUDIO_CODEC_PARAM_TYPES_BIT_RATE) && cp[AUDIO_CODEC_PARAM_TYPES_BIT_RATE].len() > 0
            &&& au.bitrate == (cp[AUDIO_CODEC_PARAM_TYPES_BIT_RATE][0] != 0)
            &&& cp.contains_key(AUDIO_CODEC_PARAM_TYPES_SAMPLE_RATE) && cp[AUDIO_CODEC_PARAM_TYPES_SAMPLE_RATE].len() > 0
            &&& au.sample_rate == (8 * (1 + cp[AUDIO_CODEC_PARAM_TYPES_SAMPLE_RATE][0])) as u8
            &&& cp.contains_key(AUDIO_CODEC_PARAM_TYPES_PACKET_TIME) && cp[AUDIO_CODEC_PARAM_TYPES_PACKET_TIME].len() > 0
            &&& au.packet_time == cp[AUDIO_CODEC_PARAM_TYPES_PACKET_TIME][0]
            &&& rp.contains_key(RTP_PARAM_TYPES_SYNCHRONIZATION_SOURCE)
            &&& au.ssrc == le_u32(rp[RTP_PARAM_TYPES_SYNCHRONIZATION_SOURCE])
            &&& rp.contains_key(RTP_PARAM_TYPES_PAYLOAD_TYPE) && au.payload_type == rp[RTP_PARAM_TYPES_PAYLOAD_TYPE]
            &&& rp.contains_key(RTP_PARAM_TYPES_MAX_BIT_RATE) && au.max_bitrate == le_u16(rp[RTP_PARAM_TYPES_MAX_BIT_RATE])
            &&& rp.contains_key(RTP_PARAM_TYPES_RTCP_SEND_INTERVAL)
            &&& au.rtcp_interval == le_u32(rp[RTP_PARAM_TYPES_RTCP_SEND_INTERVAL])
            &&& rp.contains_key(RTP_PARAM_TYPES_COMFORT_NOISE_PAYLOAD_TYPE)
            &&& au.comfort_payload_type == rp[RTP_PARAM_TYPES_COMFORT_NOISE_PAYLOAD_TYPE]
        }),
{
}

/// When the stream parameters read with video attributes, codec parameters or RTP
/// parameters, each field is the entry of its own type: width and height (little-endian)
/// and the frame-rate byte of the attributes; the profile and level entries of the codec
/// parameters; the SSRC and maximum bit rate of the RTP parameters.
pub proof fn lemma_stream_info_video_fields(b: Seq<u8>)
    requires
        spec_stream_info(b) is Ok,
    ensures
        ({
            let info = spec_stream_info(b)->Ok_0;
            let vo = spec_decode(spec_decode(b)[SELECTED_STREAM_CONFIGURATION_TYPES_VIDEO]);
            let va = spec_decode(vo[VIDEO_TYPES_ATTRIBUTES]);
            let vc = spec_decode(vo[VIDEO_TYPES_CODEC_PARAM]);
            let vr = spec_decode(vo[VIDEO_TYPES_RTP_PARAM]);
            &&& info.video_attributes is Some ==> {
                let a = info.video_attributes->Some_0;
                &&& va.contains_key(VIDEO_ATTRIBUTES_TYPES_IMAGE_WIDTH)
                &&& a.width == le_u16(va[VIDEO_ATTRIBUTES_TYPES_IMAGE_WIDTH])
                &&& va.contains_key(VIDEO_ATTRIBUTES_TYPES_IMAGE_HEIGHT)
                &&& a.height == le_u16(va[VIDEO_ATTRIBUTES_TYPES_IMAGE_HEIGHT])
                &&& va.contains_key(VIDEO_ATTRIBUTES_TYPES_FRAME_RATE) && va[VIDEO_ATTRIBUTES_TYPES_FRAME_RATE].len() > 0
                &&& a.fps == va[VIDEO_ATTRIBUTES_TYPES_FRAME_RATE][0]
            }
            &&& info.video_codec is Some ==> {
                let c = info.video_codec->Some_0;
                &&& vc.contains_key(VIDEO_CODEC_PARAM_TYPES_PROFILE_ID) && c.profile_id == vc[VIDEO_CODEC_PARAM_TYPES_PROFILE_ID]
                &&& vc.contains_key(VIDEO_CODEC_PARAM_TYPES_LEVEL) && c.level == vc[VIDEO_CODEC_PARAM_TYPES_LEVEL]
            }
            &&& info.video_rtp is Some ==> {
                let r = info.video_rtp->Some_0;
                &&& (r.ssrc is Some <==> vr.contains_key(RTP_PARAM_TYPES_SYNCHRONIZATION_SOURCE))
                &&& r.ssrc is Some ==> r.ssrc->Some_0 == le_u32(vr[RTP_PARAM_TYPES_SYNCHRONIZATION_SOURCE])
                &&& (r.max_bitrate is Some <==> vr.contains_key(RTP_PARAM_TYPES_MAX_BIT_RATE))
                &&& r.max_bitrate is Some ==> r.max_bitrate->Some_0 == le_u16(vr[RTP_PARAM_TYPES_MAX_BIT_RATE])
            }
        }),
{
}

/// When a setup-endpoint request reads (after its address, written `ip`), each field is
/// the entry of its own type: the session id entry; the video and audio RTP ports of the
/// address TLV (little-endian); and the crypto-suite byte, key and salt of the video and
/// of the audio SRTP parameters.
pub proof fn lemma_setup_request_fields(b: Seq<u8>, ip: SpecAddress)
    requires
        spec_setup_endpoint_request(b, ip) is Ok,
    ensures
        ({
            let req = spec_setup_endpoint_request(b, ip)->Ok_0;
            let objs = spec_decode(b);
            let a = spec_decode(objs[SETUP_TYPES_ADDRESS]);
            let v = spec_decode(objs[SETUP_TYPES_VIDEO_SRTP_PARAM]);
            let au = spec_decode(objs[SETUP_TYPES_AUDIO_SRTP_PARAM]);
            &&& req.session_id == objs[SETUP_TYPES_SESSION_ID]
            &&& req.address == ip
            &&& a.contains_key(SETUP_ADDR_INFO_VIDEO_RTP_PORT) && req.video_port == le_u16(a[SETUP_ADDR_INFO_VIDEO_RTP_PORT])
            &&& a.contains_key(SETUP_ADDR_INFO_AUDIO_RTP_PORT) && req.audio_port == le_u16(a[SETUP_ADDR_INFO_AUDIO_RTP_PORT])
            &&& v.contains_key(SETUP_SRTP_PARAM_CRYPTO) && v[SETUP_SRTP_PARAM_CRYPTO].len() > 0
            &&& req.video_crypto.cypto_suite == v[SETUP_SRTP_PARAM_CRYPTO][0]
            &&& v.contains_key(SETUP_SRTP_PARAM_MASTER_KEY) && req.video_crypto.master_key == v[SETUP_SRTP_PARAM_MASTER_KEY]
            &&& v.contains_key(SETUP_SRTP_PARAM_MASTER_SALT) && req.video_crypto.master_salt == v[SETUP_SRTP_PARAM_MASTER_SALT]
            &&& au.contains_key(SETUP_SRTP_PARAM_CRYPTO) && au[SETUP_SRTP_PARAM_CRYPTO].len() > 0
            &&& req.audio_crypto.cypto_suite == au[SETUP_SRTP_PARAM_CRYPTO][0]
            &&& au.contains_key(SETUP_SRTP_PARAM_MASTER_KEY) && req.audio_crypto.master_key == au[SETUP_SRTP_PARAM_MASTER_KEY]
            &&& au.contains_key(SETUP_SRTP_PARAM_MASTER_SALT) && req.audio_crypto.master_salt == au[SETUP_SRTP_PARAM_MASTER_SALT]
        }),
{
}

/// A selected-stream request that reads names the 16-byte session id of its session
/// TLV, and its kind is stop, start or start-and-reconfigure exactly when the command
/// byte is 0, 1 or 4.
pub proof fn lemma_selected_request_fields(b: Seq<u8>)
    requires
        spec_selected_stream_request(b) is Ok,
    ensures
        ({
            let (id, kind) = spec_selected_stream_request(b)->Ok_0;
            let so = spec_decode(spec_decode(b)[SELECTED_STREAM_CONFIGURATION_TYPES_SESSION]);
            &&& so.contains_key(SETUP_TYPES_SESSION_ID) && id == so[SETUP_TYPES_SESSION_ID] && id.len() == 16
            &&& so.contains_key(0x02u8) && so[0x02u8].len() > 0
            &&& (kind == SelectedStreamRequestKind::Stop <==> so[0x02u8][0] == 0)
            &&& (kind == SelectedStreamRequestKind::Start <==> so[0x02u8][0] == 1)
            &&& (kind == SelectedStreamRequestKind::StartAndReconfigure <==> so[0x02u8][0] == 4)
        }),
{
}

} // verus!
