use hap::manager::{StreamManagerError, StreamManagerState};
use hap::media::{Gstreamer, GstreamerError, StreamConfig, StreamOptions, StreamRegistry};
use hap::protocol::{
    AudioStreamOptions, EndpointAddress, ProtocolError, SelectedStreamRequestKind, SessionId, VideoStreamOptions,
    OptionNumber,
};
use hap::tlv::decode;

const SETUP_ENDPOINT: [u8; 123] = [
    1u8, 16, 97, 204, 48, 49, 240, 116, 75, 2, 150, 143, 224, 143, 38, 45, 40, 65, 3, 25, 1, 1, 0, 2, 12, 49,
    57, 50, 46, 49, 54, 56, 46, 50, 46, 53, 50, 3, 2, 149, 192, 4, 2, 80, 238, 4, 37, 2, 16, 8, 255, 34, 115,
    19, 121, 118, 140, 129, 31, 225, 7, 8, 113, 47, 183, 3, 14, 224, 107, 26, 188, 12, 133, 251, 85, 169, 57,
    32, 164, 163, 101, 1, 1, 0, 5, 37, 2, 16, 143, 234, 217, 0, 38, 98, 183, 222, 143, 69, 27, 46, 24, 58, 169,
    193, 3, 14, 210, 110, 127, 168, 239, 73, 194, 105, 156, 195, 164, 211, 59, 231, 1, 1, 0,
];

const STREAM_INFO: [u8; 123] = [
    1u8, 21, 2, 1, 1, 1, 16, 159, 74, 88, 188, 175, 8, 79, 248, 128, 222, 231, 61, 225, 39, 125, 40, 2, 52, 1,
    1, 0, 2, 9, 1, 1, 0, 2, 1, 0, 3, 1, 0, 3, 11, 1, 2, 128, 2, 2, 2, 104, 1, 3, 1, 30, 4, 23, 1, 1, 99, 2, 4,
    210, 68, 127, 99, 3, 2, 132, 0, 4, 4, 0, 0, 0, 63, 5, 2, 98, 5, 3, 44, 1, 1, 2, 2, 12, 1, 1, 1, 2, 1, 0, 3,
    1, 1, 4, 1, 30, 3, 22, 1, 1, 110, 2, 4, 82, 196, 23, 55, 3, 2, 24, 0, 4, 4, 0, 0, 160, 64, 6, 1, 13, 4, 1,
    0,
];

fn setup_id() -> Vec<u8> {
    SETUP_ENDPOINT[2..18].to_vec()
}

/// The start request of the test data, for the session of the setup request.
fn start_request(command: u8) -> Vec<u8> {
    let mut d = STREAM_INFO.to_vec();
    d[7..23].copy_from_slice(&setup_id());
    d[4] = command;
    d
}

fn accessory_address() -> EndpointAddress {
    EndpointAddress { is_ipv6: false, text: "192.168.1.195".to_string() }
}

#[test]
fn setup_then_known_session_is_ignored() {
    let mut state = StreamManagerState::new();
    let req = state.receive_setup_endpoint(&SETUP_ENDPOINT, Some("192.168.2.52".to_string())).unwrap().unwrap();
    let answer = state.open_session(req, &accessory_address());
    assert_eq!(state.sessions().len(), 1);
    let s = &state.sessions()[0];
    assert_eq!(s.video_ssrc, answer.video_ssrc);
    assert_eq!(s.audio_ssrc, answer.audio_ssrc);
    assert_eq!(s.video_port, 49301);
    assert_eq!(s.address.text, "192.168.2.52");
    let m = decode(&answer.tlv);
    assert_eq!(m.get(6).unwrap(), &answer.video_ssrc.to_le_bytes().to_vec());
    assert_eq!(decode(m.get(3).unwrap()).get(2).unwrap(), &b"192.168.1.195".to_vec());
    // the same request again (the accessory's own answer coming back) asks for nothing
    assert!(state.receive_setup_endpoint(&SETUP_ENDPOINT, Some("192.168.2.52".to_string())).unwrap().is_none());
    assert_eq!(state.sessions().len(), 1);
    let id = SessionId::from_slice(&setup_id()).unwrap();
    assert!(state.session(&id).is_some());
}

#[test]
fn setup_request_error_is_a_protocol_error() {
    let state = StreamManagerState::new();
    assert_eq!(
        state.receive_setup_endpoint(&[1, 2, 3, 4], None).unwrap_err(),
        StreamManagerError::ProtocolError(ProtocolError::ArrayConversion)
    );
    assert_eq!(
        state.receive_setup_endpoint(&SETUP_ENDPOINT, None).unwrap_err(),
        StreamManagerError::ProtocolError(ProtocolError::Ip("192.168.2.52".to_string()))
    );
}

#[test]
fn selected_stream_commands_and_status() {
    let mut state = StreamManagerState::new();
    // unknown session
    assert_eq!(
        state.selected_stream_configuration(&start_request(1)).unwrap_err(),
        StreamManagerError::SessionNotFound
    );
    let req = state.receive_setup_endpoint(&SETUP_ENDPOINT, Some("192.168.2.52".to_string())).unwrap().unwrap();
    state.open_session(req, &accessory_address());

    assert_eq!(state.streaming_status(0), vec![1, 1, 0]);

    let start = state.selected_stream_configuration(&start_request(1)).unwrap();
    assert_eq!(start.kind, SelectedStreamRequestKind::Start);
    assert_eq!(start.session.video_port, 49301);
    assert_eq!(start.info.unwrap().video_attributes.unwrap().width, 640);
    state.record_outcome(0, SelectedStreamRequestKind::Start, true);
    assert_eq!(state.streaming_status(0), vec![1, 1, 1]);
    assert_eq!(state.streaming_status(1), vec![1, 1, 0]);

    let stop = state.selected_stream_configuration(&start_request(0)).unwrap();
    assert_eq!(stop.kind, SelectedStreamRequestKind::Stop);
    assert!(stop.info.is_none());
    state.record_outcome(0, SelectedStreamRequestKind::Stop, false);
    assert_eq!(state.streaming_status(0), vec![1, 1, 1]);
    state.record_outcome(0, SelectedStreamRequestKind::Stop, true);
    assert_eq!(state.streaming_status(0), vec![1, 1, 0]);

    state.record_outcome(0, SelectedStreamRequestKind::StartAndReconfigure, false);
    assert_eq!(state.streaming_status(0), vec![1, 1, 0]);
    let re = state.selected_stream_configuration(&start_request(4)).unwrap();
    assert_eq!(re.kind, SelectedStreamRequestKind::StartAndReconfigure);
    assert!(state.selected_stream_configuration_defined(&start_request(4)));
}

fn provider() -> Gstreamer {
    Gstreamer::new(vec![StreamConfig {
        address: accessory_address(),
        pipeline: "videotestsrc".to_string(),
        options: StreamOptions {
            video: VideoStreamOptions {
                profiles: vec![OptionNumber::Unsigned(0)],
                levels: vec![OptionNumber::Unsigned(0)],
                resolutions: vec![],
            },
            audio: AudioStreamOptions { codecs: vec![] },
            srtp: true,
        },
    }])
}

#[test]
fn gstreamer_pipeline_text() {
    let mut state = StreamManagerState::new();
    let req = state.receive_setup_endpoint(&SETUP_ENDPOINT, Some("192.168.2.52".to_string())).unwrap().unwrap();
    state.open_session(req, &accessory_address());
    let cmd = state.selected_stream_configuration(&start_request(1)).unwrap();
    let info = cmd.info.unwrap();
    let g = provider();
    let text = g.pipeline(0, &info, &cmd.session).unwrap();
    let mut key = cmd.session.video_crypto.master_key.clone();
    key.extend_from_slice(&cmd.session.video_crypto.master_salt);
    let expected = format!(
        "videotestsrc ! videorate ! video/x-raw,framerate=30/1 ! videoconvert ! videoscale ! video/x-raw,width=640,height=360 ! x264enc tune=zerolatency bitrate=132 ! video/x-h264,profile=baseline ! rtph264pay config-interval=1 pt=99 ssrc={} ! srtpenc key={} ! udpsink host=192.168.2.52 port=49301 async=false",
        cmd.session.video_ssrc,
        hex::encode(&key)
    );
    assert_eq!(text, expected);
    assert!(text.contains("srtpenc key=08ff227313"));
    assert_eq!(g.pipeline(1, &info, &cmd.session).unwrap_err(), GstreamerError::StreamNotFound);
    assert_eq!(g.address(0).unwrap().text, "192.168.1.195");
    assert_eq!(g.options(3).unwrap_err(), GstreamerError::StreamNotFound);
    assert!(g.options(0).unwrap().srtp);
}

#[test]
fn gstreamer_pipeline_needs_attributes() {
    let mut state = StreamManagerState::new();
    let req = state.receive_setup_endpoint(&SETUP_ENDPOINT, Some("192.168.2.52".to_string())).unwrap().unwrap();
    state.open_session(req, &accessory_address());
    let cmd = state.selected_stream_configuration(&start_request(1)).unwrap();
    let mut info = cmd.info.unwrap();
    info.video_attributes = None;
    assert_eq!(provider().pipeline(0, &info, &cmd.session).unwrap_err(), GstreamerError::MissingProperty);
}

#[test]
fn registry_refuses_restart() {
    let a = SessionId::from_slice(&[1u8; 16]).unwrap();
    let b = SessionId::from_slice(&[2u8; 16]).unwrap();
    let mut r: StreamRegistry<&str> = StreamRegistry::new();
    assert!(r.start(a, 0, "first").is_ok());
    assert_eq!(r.start(a, 0, "again").unwrap_err(), GstreamerError::CannotRestartSession);
    assert!(r.start(a, 1, "other stream").is_ok());
    assert!(r.start(b, 0, "other session").is_ok());
    assert!(r.is_running(&a, 0));
    assert_eq!(r.stop(&a, 0), Some("first"));
    assert_eq!(r.stop(&b, 0), Some("other session"));
    assert_eq!(r.stop(&a, 1), Some("other stream"));
    assert!(!r.is_running(&a, 0));
    assert_eq!(r.stop(&a, 0), None);
    assert!(r.start(a, 0, "restart").is_ok());
}
