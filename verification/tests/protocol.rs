use hap::protocol::{
    audio_stream_config, audio_codecs_supported, endpoint_response, selected_stream_configuration_request,
    setup_endpoint_address, setup_endpoint_request, setup_endpoint_request_defined, stream_info_response,
    stream_info_response_defined, supported_rtp_config, video_stream_config, AudioCodecOption,
    AudioStreamOptions, EndpointAddress, ProtocolError, SelectedStreamRequestKind, SessionId,
    OptionNumber, VideoFormat, VideoStreamOptions,
};
use hap::tlv::{decode, encode};

const STREAM_INFO: [u8; 123] = [
    1u8, 21, 2, 1, 1, 1, 16, 159, 74, 88, 188, 175, 8, 79, 248, 128, 222, 231, 61, 225, 39, 125, 40, 2, 52, 1,
    1, 0, 2, 9, 1, 1, 0, 2, 1, 0, 3, 1, 0, 3, 11, 1, 2, 128, 2, 2, 2, 104, 1, 3, 1, 30, 4, 23, 1, 1, 99, 2, 4,
    210, 68, 127, 99, 3, 2, 132, 0, 4, 4, 0, 0, 0, 63, 5, 2, 98, 5, 3, 44, 1, 1, 2, 2, 12, 1, 1, 1, 2, 1, 0, 3,
    1, 1, 4, 1, 30, 3, 22, 1, 1, 110, 2, 4, 82, 196, 23, 55, 3, 2, 24, 0, 4, 4, 0, 0, 160, 64, 6, 1, 13, 4, 1,
    0,
];

const SETUP_ENDPOINT: [u8; 123] = [
    1u8, 16, 97, 204, 48, 49, 240, 116, 75, 2, 150, 143, 224, 143, 38, 45, 40, 65, 3, 25, 1, 1, 0, 2, 12, 49,
    57, 50, 46, 49, 54, 56, 46, 50, 46, 53, 50, 3, 2, 149, 192, 4, 2, 80, 238, 4, 37, 2, 16, 8, 255, 34, 115,
    19, 121, 118, 140, 129, 31, 225, 7, 8, 113, 47, 183, 3, 14, 224, 107, 26, 188, 12, 133, 251, 85, 169, 57,
    32, 164, 163, 101, 1, 1, 0, 5, 37, 2, 16, 143, 234, 217, 0, 38, 98, 183, 222, 143, 69, 27, 46, 24, 58, 169,
    193, 3, 14, 210, 110, 127, 168, 239, 73, 194, 105, 156, 195, 164, 211, 59, 231, 1, 1, 0,
];

#[test]
pub fn stream_info() {
    let data = STREAM_INFO.to_vec();

    let info = stream_info_response(&data).unwrap();

    assert_eq!(info.session_id.to_string(), "9f4a58bc-af08-4ff8-80de-e73de1277d28");

    let data2 = vec![
        1u8, 21, 2, 1, 1, 1, 16, 214, 2, 171, 255, 102, 170, 79, 250, 140, 43, 43, 150, 155, 231, 114, 3, 2, 52, 1,
        1, 0, 2, 9, 1, 1, 0, 2, 1, 0, 3, 1, 0, 3, 11, 1, 2, 128, 2, 2, 2, 104, 1, 3, 1, 30, 4, 23, 1, 1, 99, 2, 4,
        186, 145, 247, 16, 3, 2, 132, 0, 4, 4, 0, 0, 0, 63, 5, 2, 98, 5, 3, 44, 1, 1, 2, 2, 12, 1, 1, 1, 2, 1, 0,
        3, 1, 1, 4, 1, 30, 3, 22, 1, 1, 110, 2, 4, 115, 17, 212, 19, 3, 2, 24, 0, 4, 4, 0, 0, 160, 64, 6, 1, 13, 4,
        1, 0,
    ];

    let info = stream_info_response(&data2).unwrap();

    assert!(!info.audio.map(|audio| audio.bitrate).unwrap());
}

#[test]
pub fn support_rtp() {
    let config = supported_rtp_config(true);

    assert_eq!(&config, &[0x02, 0x01, 0x00]);
}

#[test]
pub fn audio_stream() {
    let config = audio_stream_config(&AudioStreamOptions {
        codecs: vec![AudioCodecOption { kind: "AAC-eld".to_string(), samplerate: 16 }],
    });

    assert_eq!(
        &config,
        &[
            0x01, 0x0e, 0x01, 0x01, 0x02, 0x02, 0x09, 0x01, 0x01, 0x01, 0x02, 0x01, 0x00, 0x03, 0x01, 0x01, 0x02,
            0x01, 0x00
        ]
    );
}

#[test]
pub fn video_stream() {
    let config = video_stream_config(&VideoStreamOptions {
        resolutions: vec![
            fmt(&[320, 180, 30]),
            fmt(&[320, 240, 15]),
            fmt(&[320, 240, 30]),
            fmt(&[480, 270, 30]),
            fmt(&[480, 360, 30]),
            fmt(&[640, 360, 30]),
            fmt(&[640, 480, 30]),
            fmt(&[1280, 720, 30]),
            fmt(&[1280, 960, 30]),
            fmt(&[1920, 1080, 30]),
            fmt(&[1600, 1200, 30]),
        ],
        profiles: nums(&[0, 1, 2]),
        levels: nums(&[0, 1, 2]),
    });

    let expected = b"\x01\xc5\x01\x01\x00\x02\x1d\x01\x01\x00\x00\x00\x01\x01\x01\x00\x00\
        \x01\x01\x02\x02\x01\x00\x00\x00\x02\x01\x01\x00\x00\x02\x01\x02\x03\x01\x00\x03\x0b\x01\x02\
        \x40\x01\x02\x02\xb4\x00\x03\x01\x1e\x00\x00\x03\x0b\x01\x02\x40\x01\x02\x02\xf0\x00\x03\x01\
        \x0f\x00\x00\x03\x0b\x01\x02\x40\x01\x02\x02\xf0\x00\x03\x01\x1e\x00\x00\x03\x0b\x01\x02\xe0\
        \x01\x02\x02\x0e\x01\x03\x01\x1e\x00\x00\x03\x0b\x01\x02\xe0\x01\x02\x02\x68\x01\x03\x01\x1e\
        \x00\x00\x03\x0b\x01\x02\x80\x02\x02\x02\x68\x01\x03\x01\x1e\x00\x00\x03\x0b\x01\x02\x80\x02\
        \x02\x02\xe0\x01\x03\x01\x1e\x00\x00\x03\x0b\x01\x02\x00\x05\x02\x02\xd0\x02\x03\x01\x1e\x00\
        \x00\x03\x0b\x01\x02\x00\x05\x02\x02\xc0\x03\x03\x01\x1e\x00\x00\x03\x0b\x01\x02\x80\x07\x02\
        \x02\x38\x04\x03\x01\x1e\x00\x00\x03\x0b\x01\x02\x40\x06\x02\x02\xb0\x04\x03\x01\x1e";

    assert_eq!(&config, expected);
}

#[test]
pub fn setup_endpoint() {
    let data = SETUP_ENDPOINT.to_vec();

    let request = setup_endpoint_request(&data, Some("192.168.2.52".to_string())).unwrap();

    assert_eq!(
        request.session_id.to_string(),
        "61cc3031-f074-4b02-968f-e08f262d2841".to_string()
    );
}

#[test]
fn setup_endpoint_fields() {
    assert!(setup_endpoint_request_defined(&SETUP_ENDPOINT));
    let request = setup_endpoint_request(&SETUP_ENDPOINT, Some("192.168.2.52".to_string())).unwrap();
    assert!(!request.address.is_ipv6);
    assert_eq!(request.address.text, "192.168.2.52");
    assert_eq!(request.video_port, 49301);
    assert_eq!(request.audio_port, 61008);
    assert_eq!(request.video_crypto.cypto_suite, 0);
    assert_eq!(request.video_crypto.master_key.len(), 16);
    assert_eq!(request.video_crypto.master_salt.len(), 14);
    assert_eq!(request.audio_crypto.cypto_suite, 0);
    let address = setup_endpoint_address(&SETUP_ENDPOINT).unwrap();
    assert_eq!(address.text, "192.168.2.52");
}

#[test]
fn setup_endpoint_errors() {
    // no session id at all
    assert_eq!(setup_endpoint_request(&[], None).unwrap_err(), ProtocolError::MissingProperty);
    // a session id of 3 bytes
    assert_eq!(setup_endpoint_request(&[1, 3, 1, 2, 3], None).unwrap_err(), ProtocolError::ArrayConversion);
    // address text that is not UTF-8
    let mut bad = vec![1u8, 16];
    bad.extend_from_slice(&[7u8; 16]);
    bad.extend_from_slice(&[3, 7, 1, 1, 0, 2, 2, 0xff, 0xfe]);
    assert_eq!(setup_endpoint_address(&bad).unwrap_err(), ProtocolError::Utf8);
    assert_eq!(setup_endpoint_request(&bad, None).unwrap_err(), ProtocolError::Utf8);
    // the audio SRTP parameters without a crypto suite: the reading is not defined
    let mut no_suite = SETUP_ENDPOINT.to_vec();
    let at = no_suite.len() - 39;
    assert_eq!(no_suite[at], 5);
    no_suite.truncate(at);
    no_suite.extend_from_slice(&[5, 4, 2, 2, 9, 9]);
    assert!(!setup_endpoint_request_defined(&no_suite));
    // an IPv4 text announced as IPv6 is no IP address of its version
    let mut v6 = SETUP_ENDPOINT.to_vec();
    assert_eq!(v6[22], 0);
    v6[22] = 1;
    assert_eq!(setup_endpoint_request(&v6, None).unwrap_err(), ProtocolError::Ip("192.168.2.52".to_string()));
    // the IP check comes before the ports and SRTP parameters are read
    assert_eq!(setup_endpoint_request(&no_suite, None).unwrap_err(), ProtocolError::Ip("192.168.2.52".to_string()));
}

#[test]
fn setup_endpoint_keeps_canonical_address() {
    let request = setup_endpoint_request(&SETUP_ENDPOINT, Some("10.0.0.7".to_string())).unwrap();
    assert_eq!(request.address.text, "10.0.0.7");
    assert!(!request.address.is_ipv6);
}

#[test]
fn setup_answer_reads_back() {
    let request = setup_endpoint_request(&SETUP_ENDPOINT, Some("192.168.2.52".to_string())).unwrap();
    let address = EndpointAddress { is_ipv6: false, text: "10.0.0.2".to_string() };
    let answer = endpoint_response(&request, &address, 0x01020304, 0xa0b0c0d0);
    assert_eq!(answer.video_ssrc, 0x01020304);
    let m = decode(&answer.tlv);
    assert_eq!(m.get(1).unwrap(), &request.session_id.bytes.to_vec());
    assert_eq!(m.get(2).unwrap(), &vec![0u8]);
    assert_eq!(m.get(6).unwrap(), &vec![4u8, 3, 2, 1]);
    assert_eq!(m.get(7).unwrap(), &vec![0xd0u8, 0xc0, 0xb0, 0xa0]);
    let a = decode(m.get(3).unwrap());
    assert_eq!(a.get(1).unwrap(), &vec![0u8]);
    assert_eq!(a.get(2).unwrap(), &b"10.0.0.2".to_vec());
    assert_eq!(a.get(3).unwrap(), &vec![0x95u8, 0xc0]);
    let v = decode(m.get(4).unwrap());
    assert_eq!(v.get(1).unwrap(), &vec![0u8]);
    assert_eq!(v.get(2).unwrap(), &request.video_crypto.master_key);
    assert_eq!(v.get(3).unwrap(), &request.video_crypto.master_salt);
}

#[test]
fn stream_info_fields() {
    assert!(stream_info_response_defined(&STREAM_INFO));
    let info = stream_info_response(&STREAM_INFO).unwrap();
    let attrs = info.video_attributes.unwrap();
    assert_eq!((attrs.width, attrs.height, attrs.fps), (640, 360, 30));
    let rtp = info.video_rtp.unwrap();
    assert_eq!(rtp.payload_type, Some(vec![99]));
    assert_eq!(rtp.ssrc, Some(u32::from_le_bytes([210, 68, 127, 99])));
    assert_eq!(rtp.max_bitrate, Some(132));
    assert_eq!(f32::from_bits(rtp.rtcp_interval.unwrap()), 0.5);
    assert_eq!(rtp.max_mtu, Some(vec![0, 0, 0, 63]));
    let codec = info.video_codec.unwrap();
    assert_eq!((codec.profile_id, codec.level), (vec![0], vec![0]));
    let audio = info.audio.unwrap();
    assert_eq!(audio.codec, vec![2]);
    assert_eq!(audio.sample_rate, 16);
    assert_eq!(audio.packet_time, 30);
    assert_eq!(audio.max_bitrate, 24);
    assert_eq!(f32::from_bits(audio.rtcp_interval), 5.0);
    assert_eq!(audio.comfort_payload_type, vec![13]);
}

#[test]
fn stream_info_errors_and_overflow() {
    assert_eq!(stream_info_response(&[]).unwrap_err(), ProtocolError::MissingProperty);
    // a width of one byte
    let mut d = vec![1u8, 18, 1, 16];
    d.extend_from_slice(&[1u8; 16]);
    d.extend_from_slice(&[2, 7, 3, 5, 1, 1, 7, 2, 0]);
    assert_eq!(stream_info_response(&d).unwrap_err(), ProtocolError::ArrayConversion);
    // a sample-rate byte of 31: 8 * 32 does not fit a byte
    let mut o = STREAM_INFO.to_vec();
    let pos = o.iter().position(|&b| b == 3).unwrap();
    assert!(pos > 0);
    let sr = STREAM_INFO.windows(3).position(|w| w == [3, 1, 1]).unwrap();
    o[sr + 2] = 31;
    assert!(!stream_info_response_defined(&o));
    o[sr + 2] = 30;
    assert!(stream_info_response_defined(&o));
    assert_eq!(stream_info_response(&o).unwrap().audio.unwrap().sample_rate, 248);
}

#[test]
fn selected_stream_requests() {
    let mut start = vec![1u8, 21, 2, 1, 1, 1, 16];
    start.extend_from_slice(&[5u8; 16]);
    let r = selected_stream_configuration_request(&start).unwrap();
    assert_eq!(r.kind, SelectedStreamRequestKind::Start);
    start[4] = 0;
    assert_eq!(selected_stream_configuration_request(&start).unwrap().kind, SelectedStreamRequestKind::Stop);
    start[4] = 4;
    assert_eq!(
        selected_stream_configuration_request(&start).unwrap().kind,
        SelectedStreamRequestKind::StartAndReconfigure
    );
    start[4] = 2;
    assert_eq!(selected_stream_configuration_request(&start).unwrap_err(), ProtocolError::MissingProperty);
}

#[test]
fn supported_rtp_disabled() {
    assert_eq!(supported_rtp_config(false), vec![0x02, 0x01, 0x02]);
}

#[test]
fn audio_opus_and_support_check() {
    let opts = AudioStreamOptions {
        codecs: vec![
            AudioCodecOption { kind: "OPUS".to_string(), samplerate: 24 },
            AudioCodecOption { kind: "AAC-eld".to_string(), samplerate: 8 },
        ],
    };
    assert!(audio_codecs_supported(&opts));
    let c = audio_stream_config(&opts);
    assert_eq!(&c[..16], &[1, 14, 1, 1, 3, 2, 9, 1, 1, 1, 2, 1, 0, 3, 1, 2]);
    assert_eq!(&c[16..32], &[1, 14, 1, 1, 2, 2, 9, 1, 1, 1, 2, 1, 0, 3, 1, 0]);
    assert_eq!(&c[32..], &[2, 1, 0]);
    let bad = AudioStreamOptions { codecs: vec![AudioCodecOption { kind: "PCMU".to_string(), samplerate: 8 }] };
    assert!(!audio_codecs_supported(&bad));
    let bad_rate = AudioStreamOptions { codecs: vec![AudioCodecOption { kind: "OPUS".to_string(), samplerate: 12 }] };
    assert!(!audio_codecs_supported(&bad_rate));
}

#[test]
fn video_stream_edges() {
    // no formats: only the codec, the H.264 parameters and non-interleaved packetization
    let c = video_stream_config(&VideoStreamOptions { profiles: vec![], levels: vec![], resolutions: vec![] });
    assert_eq!(c, vec![1, 8, 1, 1, 0, 2, 3, 3, 1, 0]);
    // a format without three numbers is left out; numbers are cut to their low bits
    let c = video_stream_config(&VideoStreamOptions {
        profiles: nums(&[258]),
        levels: vec![],
        resolutions: vec![fmt(&[1, 2]), fmt(&[65536 + 10, 20, 256 + 30])],
    });
    assert_eq!(
        c,
        vec![1, 24, 1, 1, 0, 2, 6, 1, 1, 2, 3, 1, 0, 3, 11, 1, 2, 10, 0, 2, 2, 20, 0, 3, 1, 30]
    );
    // values that are no non-negative integers, and formats that are no lists, are ignored
    let with_noise = video_stream_config(&VideoStreamOptions {
        profiles: vec![OptionNumber::Other, OptionNumber::Unsigned(258), OptionNumber::Other],
        levels: vec![OptionNumber::Other],
        resolutions: vec![
            VideoFormat::Other,
            fmt(&[1, 2]),
            VideoFormat::Numbers(vec![
                OptionNumber::Unsigned(65536 + 10),
                OptionNumber::Other,
                OptionNumber::Unsigned(20),
                OptionNumber::Unsigned(256 + 30),
            ]),
            VideoFormat::Numbers(vec![OptionNumber::Other, OptionNumber::Unsigned(1), OptionNumber::Unsigned(2)]),
        ],
    });
    assert_eq!(with_noise, c);
}

fn nums(v: &[u64]) -> Vec<OptionNumber> {
    v.iter().map(|n| OptionNumber::Unsigned(*n)).collect()
}

fn fmt(v: &[u64]) -> VideoFormat {
    VideoFormat::Numbers(nums(v))
}

#[test]
fn session_id_text() {
    let id = SessionId::from_slice(&[0u8, 1, 2, 3, 4, 5, 6, 7, 8, 9, 10, 11, 12, 13, 14, 255]).unwrap();
    assert_eq!(id.to_string(), "00010203-0405-0607-0809-0a0b0c0d0eff");
    assert!(SessionId::from_slice(&[1, 2, 3]).is_none());
    let other = SessionId::from_slice(&[0u8; 16]).unwrap();
    assert!(!id.same(&other));
    assert!(id.same(&id.clone()));
}

#[test]
fn tlv_fragments_roundtrip() {
    let long: Vec<u8> = (0..600u32).map(|i| (i % 251) as u8).collect();
    let bytes = encode(vec![(1, long.clone()), (2, vec![]), (3, vec![9; 255]), (1, vec![7])]);
    // 600 bytes take three fragments: 255, 255 and 90
    assert_eq!(&bytes[..2], &[1, 255]);
    assert_eq!(&bytes[257..259], &[1, 255]);
    assert_eq!(&bytes[514..516], &[1, 90]);
    let m = decode(&bytes);
    assert_eq!(m.get(1).unwrap(), &vec![7]);
    assert_eq!(m.get(2).unwrap(), &Vec::<u8>::new());
    assert_eq!(m.get(3).unwrap(), &vec![9; 255]);
    assert!(m.get(4).is_none());
    let m = decode(&encode(vec![(1, long.clone()), (2, vec![1])]));
    assert_eq!(m.get(1).unwrap(), &long);
}

#[test]
fn tlv_truncated_input() {
    // the second item is cut short: reading stops before it
    let m = decode(&[1, 1, 5, 2, 3, 1]);
    assert_eq!(m.get(1).unwrap(), &vec![5]);
    assert!(m.get(2).is_none());
    let m = decode(&[7]);
    assert!(m.get(7).is_none());
}
