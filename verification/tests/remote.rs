use hapcli::audio::input::{
    packet_samples, parse_wave_format, AudioInputClient, AudioInputStep, MicrophonePacketQueue,
    MicrophonePacketizer, PcmCaptureFormat,
};
use hapcli::audio::pcm::{
    compatible_input_config, compatible_output_config, offered_format, sample_format_priority,
    BoundedPcmQueue, DeviceConfigRange, PcmQueueLock, PcmS16LePlayback, SampleFormat,
};
use hapcli::bytes::{push_u16, push_u32, push_u64, read_u16, read_u64};
use hapcli::paths::LocalPath;
use hapcli::remote_desktop::certificate_store::{
    certificate_endpoint_key, legacy_rdp_certificate_endpoint_key, CertificatePin,
    CertificateStoreDocument, RemoteDesktopCertificateStore, RemoteDesktopEndpoint,
    RemoteDesktopProtocol,
};
use hapcli::remote_desktop::frame::{
    RemoteDesktopFrame, RemoteDesktopFrameFormat, RemoteDesktopFrameUpdate, RemoteDesktopRect,
    RemoteDesktopSize,
};
use hapcli::remote_desktop::frame_queue::{
    RemoteDesktopFrameDeliverySlot, RemoteDesktopFrameQueue, RemoteDesktopFrameQueuePush,
    RemoteDesktopHelperEvent, FRAME_PRESENTATION_INTERVAL,
};
use hapcli::remote_desktop::request_writer::{
    begin_request_batch, write_remote_desktop_requests, RemoteDesktopHelperRequest,
    RemoteDesktopMouseButton, RemoteDesktopMouseButtonState, RequestWait,
};
use hapcli::remote_desktop::secret::RemoteDesktopSecret;
use hapcli::wiped::WipedText;

fn update_at(x: u32) -> RemoteDesktopHelperEvent {
    RemoteDesktopHelperEvent::FrameUpdate {
        update: RemoteDesktopFrameUpdate::new(
            RemoteDesktopSize { width: 1024, height: 1 },
            RemoteDesktopRect::new(x, 0, 1, 1),
            RemoteDesktopFrameFormat::Rgba8,
            vec![x as u8, 0, 0, 0xff],
        ),
    }
}

fn pcm_bytes(samples: &[i16]) -> Vec<u8> {
    samples.iter().flat_map(|sample| sample.to_le_bytes()).collect()
}

fn store_path() -> LocalPath {
    LocalPath { components: vec!["/".to_string(), "rdp-known-certificates.json".to_string()] }
}

#[test]
fn saturation_requests_one_base_frame_before_accepting_more_deltas() {
    let mut queue = RemoteDesktopFrameQueue::with_limits(1, usize::MAX);
    assert_eq!(queue.push(update_at(0)), RemoteDesktopFrameQueuePush::Queued);
    assert_eq!(queue.push(update_at(2)), RemoteDesktopFrameQueuePush::RecoveryRequired);
    assert!(queue.is_empty());
    assert_eq!(queue.push(update_at(4)), RemoteDesktopFrameQueuePush::AwaitingRecovery);
}

#[test]
fn updates_beyond_the_limit_of_bytes_are_dropped() {
    let mut queue = RemoteDesktopFrameQueue::with_limits(8, 5);
    assert_eq!(queue.push(update_at(0)), RemoteDesktopFrameQueuePush::Queued);
    assert_eq!(queue.push(update_at(2)), RemoteDesktopFrameQueuePush::RecoveryRequired);
    assert!(queue.is_empty());
}

#[test]
fn only_the_first_ready_notice_is_sent() {
    let mut slot = RemoteDesktopFrameDeliverySlot::new();
    assert!(slot.mark_frame_ready_queued());
    assert!(!slot.mark_frame_ready_queued());
    assert!(!slot.mark_frame_ready_queued());
}

#[test]
fn saturation_keeps_a_recoverable_base_frame() {
    let size = RemoteDesktopSize { width: 2, height: 1 };
    let mut queue = RemoteDesktopFrameQueue::with_limits(1, usize::MAX);
    queue.push(RemoteDesktopHelperEvent::Frame {
        frame: RemoteDesktopFrame::new(size, RemoteDesktopFrameFormat::Rgba8, vec![0; 8]),
    });
    queue.push(RemoteDesktopHelperEvent::FrameUpdate {
        update: RemoteDesktopFrameUpdate::new(
            size,
            RemoteDesktopRect::new(0, 0, 1, 1),
            RemoteDesktopFrameFormat::Rgba8,
            vec![1, 2, 3, 4],
        ),
    });
    assert_eq!(queue.push(update_at(0)), RemoteDesktopFrameQueuePush::RecoveryRequired);
    let Some(RemoteDesktopHelperEvent::Frame { frame }) = queue.pop_front() else {
        panic!("recoverable base frame should remain queued");
    };
    assert_eq!(&frame.bytes[..4], &[1, 2, 3, 4]);
    assert!(queue.awaiting_base_frame());
}

#[test]
fn slot_coalesces_ready_notifications_without_dropping_sparse_updates() {
    let mut slot = RemoteDesktopFrameDeliverySlot::new();
    assert!(slot.push(update_at(0)).frame_ready);
    assert!(!slot.push(update_at(2)).frame_ready);
    assert!(slot.take().is_some());
    assert!(slot.take().is_some());
    assert!(slot.take().is_none());
}

#[test]
fn slot_delays_ready_after_a_recent_presentation() {
    let mut slot = RemoteDesktopFrameDeliverySlot::new();
    slot.mark_frame_presented(1000);
    let delay = slot.next_frame_ready_delay(1001);
    assert!(delay > 0);
    assert!(delay <= FRAME_PRESENTATION_INTERVAL);
    assert_eq!(slot.next_frame_ready_delay(1000 + FRAME_PRESENTATION_INTERVAL), 0);
}

#[test]
fn hidden_slot_requests_recovery_for_sparse_deltas_and_keeps_one_latest_frame() {
    let mut slot = RemoteDesktopFrameDeliverySlot::new();
    slot.set_visible(false);

    let decision = slot.push(update_at(0));
    assert!(decision.recovery_required);
    assert!(!decision.frame_ready);
    assert!(!slot.has_queued_frame_events());

    let size = RemoteDesktopSize { width: 3, height: 1 };
    let base = RemoteDesktopHelperEvent::Frame {
        frame: RemoteDesktopFrame::new(size, RemoteDesktopFrameFormat::Rgba8, vec![0; 12]),
    };
    assert!(slot.push(base).frame_ready);
    assert!(
        !slot
            .push(RemoteDesktopHelperEvent::FrameUpdate {
                update: RemoteDesktopFrameUpdate::new(
                    size,
                    RemoteDesktopRect::new(2, 0, 1, 1),
                    RemoteDesktopFrameFormat::Rgba8,
                    vec![2, 0, 0, 0xff],
                ),
            })
            .frame_ready
    );

    let Some(RemoteDesktopHelperEvent::Frame { frame }) = slot.take() else {
        panic!("hidden slot should retain one composed base frame");
    };
    assert_eq!(&frame.bytes[8..12], &[2, 0, 0, 0xff]);
    assert!(slot.take().is_none());
}

#[test]
fn visibility_transition_resets_a_dropped_frame_notice() {
    let mut slot = RemoteDesktopFrameDeliverySlot::new();
    assert!(slot.push(update_at(0)).frame_ready);

    assert!(slot.set_visible(false));
    assert!(!slot.has_queued_frame_events());
    assert!(
        slot.push(RemoteDesktopHelperEvent::Frame {
            frame: RemoteDesktopFrame::new(
                RemoteDesktopSize { width: 1, height: 1 },
                RemoteDesktopFrameFormat::Rgba8,
                vec![1, 2, 3, 4],
            ),
        })
        .frame_ready
    );
    slot.set_visible(true);
    assert!(slot.is_visible());
}

#[test]
fn writer_coalesces_mouse_moves_without_reordering_button_edges() {
    let press = RemoteDesktopHelperRequest::MouseButton {
        button: RemoteDesktopMouseButton::Left,
        state: RemoteDesktopMouseButtonState::Pressed,
    };
    let requests = vec![
        RemoteDesktopHelperRequest::MouseMove { x: 10, y: 20 },
        RemoteDesktopHelperRequest::MouseMove { x: 30, y: 40 },
        press.clone(),
        RemoteDesktopHelperRequest::MouseMove { x: 50, y: 60 },
    ];
    assert_eq!(
        write_remote_desktop_requests(&requests),
        vec![
            RemoteDesktopHelperRequest::MouseMove { x: 30, y: 40 },
            press,
            RemoteDesktopHelperRequest::MouseMove { x: 50, y: 60 },
        ]
    );
}

#[test]
fn batches_end_when_the_sender_is_gone() {
    assert!(begin_request_batch(RequestWait::Disconnected).is_err());
    let mut batch =
        begin_request_batch(RequestWait::Request(RemoteDesktopHelperRequest::MouseMove {
            x: 1,
            y: 2,
        }))
        .ok()
        .unwrap();
    assert!(batch.wants_more());
    batch.take_in(RemoteDesktopHelperRequest::Close);
    let (requests, _) = batch.finish(false);
    assert_eq!(requests.last(), Some(&RemoteDesktopHelperRequest::Close));
}

#[test]
fn zeroizing_secret_handoff_reuses_the_original_buffer() {
    let source = WipedText::new("rdp-password".to_string());
    let source_buffer = source.expose().as_ptr();
    let secret = RemoteDesktopSecret::from(source);
    assert_eq!(source_buffer, secret.expose_secret().as_ptr());
    assert_eq!(secret.expose_secret(), "rdp-password");
}

#[test]
fn debug_redacts_secret_value() {
    let secret = RemoteDesktopSecret::new("rdp-password".to_string());
    let debug = secret.debug_text();
    assert!(debug.contains("redacted"));
    assert!(!debug.contains("rdp-password"));
    assert_eq!(secret.expose_secret(), "rdp-password");
    assert_eq!(secret.duplicate_for_reauthentication().expose_secret(), "rdp-password");
    assert!(!secret.is_empty());
}

#[test]
fn endpoint_keys_normalize_dns_and_ipv6() {
    assert_eq!(
        certificate_endpoint_key(
            RemoteDesktopProtocol::Rdp,
            &RemoteDesktopEndpoint::new("EXAMPLE.test", 3389)
        ),
        "rdp://example.test:3389"
    );
    assert_eq!(
        certificate_endpoint_key(
            RemoteDesktopProtocol::Vnc,
            &RemoteDesktopEndpoint::with_address("[2001:0db8::1]", 5900, "2001:db8::1".to_string())
        ),
        "vnc://[2001:db8::1]:5900"
    );
}

#[test]
fn trust_is_kept_for_one_protocol() {
    let endpoint = RemoteDesktopEndpoint::new("example.test", 3389);
    let mut store = RemoteDesktopCertificateStore::load(store_path(), None).unwrap();
    let document = store.trust(RemoteDesktopProtocol::Rdp, &endpoint, "AA:BB".to_string());
    assert_eq!(store.fingerprint(RemoteDesktopProtocol::Rdp, &endpoint), None);
    store.commit(document);
    assert_eq!(store.fingerprint(RemoteDesktopProtocol::Rdp, &endpoint), Some("AA:BB"));
    assert_eq!(store.fingerprint(RemoteDesktopProtocol::Vnc, &endpoint), None);
}

#[test]
fn trust_leaves_the_other_protocol_alone() {
    let endpoint = RemoteDesktopEndpoint::new("example.test", 3389);
    let mut store = RemoteDesktopCertificateStore::load(store_path(), None).unwrap();
    let document = store.trust(RemoteDesktopProtocol::Vnc, &endpoint, "VV".to_string());
    store.commit(document);
    let document = store.trust(RemoteDesktopProtocol::Rdp, &endpoint, "RR".to_string());
    store.commit(document);
    assert_eq!(store.fingerprint(RemoteDesktopProtocol::Vnc, &endpoint), Some("VV"));
    let document = store.trust(RemoteDesktopProtocol::Vnc, &endpoint, "WW".to_string());
    store.commit(document);
    assert_eq!(store.fingerprint(RemoteDesktopProtocol::Rdp, &endpoint), Some("RR"));
}

#[test]
fn trust_is_durable_and_reloads() {
    let endpoint = RemoteDesktopEndpoint::new("example.test", 3389);
    let store = RemoteDesktopCertificateStore::load(store_path(), None).unwrap();
    let written = store.trust(RemoteDesktopProtocol::Rdp, &endpoint, "AA:BB".to_string());
    let reloaded = RemoteDesktopCertificateStore::load(store_path(), Some(written)).unwrap();
    assert_eq!(reloaded.fingerprint(RemoteDesktopProtocol::Rdp, &endpoint), Some("AA:BB"));
    assert_eq!(reloaded.fingerprint(RemoteDesktopProtocol::Vnc, &endpoint), None);
}

#[test]
fn legacy_rdp_pin_remains_effective_and_migrates_on_trust() {
    let endpoint = RemoteDesktopEndpoint::new("EXAMPLE.test", 3389);
    assert_eq!(legacy_rdp_certificate_endpoint_key(&endpoint), "example.test:3389");
    let document = CertificateStoreDocument {
        version: 1,
        certificates: vec![CertificatePin {
            key: "example.test:3389".to_string(),
            sha256_fingerprint: "OLD".to_string(),
        }],
    };
    let mut store = RemoteDesktopCertificateStore::load(store_path(), Some(document)).unwrap();
    assert_eq!(store.fingerprint(RemoteDesktopProtocol::Rdp, &endpoint), Some("OLD"));
    assert_eq!(store.fingerprint(RemoteDesktopProtocol::Vnc, &endpoint), None);
    let document = store.trust(RemoteDesktopProtocol::Rdp, &endpoint, "NEW".to_string());
    store.commit(document);
    assert_eq!(store.document.get("rdp://example.test:3389"), Some("NEW"));
    assert_eq!(store.document.get("example.test:3389"), None);
}

#[test]
fn stores_of_another_version_are_refused() {
    let document = CertificateStoreDocument { version: 2, certificates: vec![] };
    assert!(RemoteDesktopCertificateStore::load(store_path(), Some(document)).is_err());
}

#[test]
fn queue_drops_oldest_complete_frames_when_capacity_is_reached() {
    let mut queue = BoundedPcmQueue::new(4, 2);
    queue.push_pcm(PcmQueueLock::Acquired, &pcm_bytes(&[1, 2, 3, 4]));
    queue.push_pcm(PcmQueueLock::Acquired, &pcm_bytes(&[5, 6]));
    assert_eq!(queue.fill(PcmQueueLock::Acquired, 4), vec![3, 4, 5, 6]);
}

#[test]
fn queue_ignores_trailing_partial_frames() {
    let mut queue = BoundedPcmQueue::new(4, 2);
    queue.push_pcm(PcmQueueLock::Acquired, &pcm_bytes(&[1, 2, 3]));
    assert_eq!(queue.fill(PcmQueueLock::Acquired, 4), vec![1, 2, 0, 0]);
}

#[test]
fn queue_emits_silence_after_buffered_audio_is_consumed() {
    let mut queue = BoundedPcmQueue::new(4, 2);
    queue.push_pcm(PcmQueueLock::Acquired, &pcm_bytes(&[10, -10]));
    assert_eq!(queue.fill(PcmQueueLock::Acquired, 4), vec![10, -10, 0, 0]);
}

#[test]
fn queue_drops_input_instead_of_waiting_for_the_callback_lock() {
    let mut queue = BoundedPcmQueue::new(4, 2);
    queue.push_pcm(PcmQueueLock::Busy, &pcm_bytes(&[1, 2]));
    assert!(queue.samples.is_empty());
}

#[test]
fn devices_are_matched_by_channels_rate_and_format() {
    let range = |channels, format| DeviceConfigRange {
        channels,
        min_sample_rate: 8000,
        max_sample_rate: 48000,
        format,
    };
    let ranges = vec![
        range(1, SampleFormat::I16),
        range(2, SampleFormat::F32),
        range(2, SampleFormat::I16),
    ];
    assert!(compatible_output_config(&ranges, 44100, 2).is_ok());
    assert!(compatible_output_config(&ranges, 96000, 2).is_err());
    assert!(compatible_input_config(&ranges, 44100, 3).is_err());
    assert_ne!(
        sample_format_priority(SampleFormat::F32),
        sample_format_priority(SampleFormat::Other)
    );
    let format = offered_format();
    assert_eq!((format.channels, format.sample_rate, format.block_align), (2, 44100, 4));
}

#[test]
fn playback_keeps_its_stream() {
    let silent = PcmS16LePlayback::new(44100, 0);
    assert_eq!((silent.queue.channels, silent.queue.capacity_samples), (1, 0));
    let mut playback = PcmS16LePlayback::new(8, 2);
    assert_eq!(playback.queue.capacity_samples, 8);
    for round in 0..5 {
        playback.push(PcmQueueLock::Acquired, &pcm_bytes(&[round, round, round, round]));
    }
    assert_eq!(Vec::from(playback.queue.samples.clone()), vec![3, 3, 3, 3, 4, 4, 4, 4]);
    playback.stop();
    assert_eq!((playback.sample_rate, playback.channels), (8, 2));
    assert_eq!((playback.queue.channels, playback.queue.capacity_samples), (2, 8));
}

#[test]
fn playback_starts_and_stops() {
    let mut playback = PcmS16LePlayback::new(44100, 2);
    assert!(playback.start(Err("no device".to_string())).is_err());
    assert!(!playback.running);
    assert!(playback.start(Ok(())).is_ok());
    playback.push(PcmQueueLock::Acquired, &pcm_bytes(&[1, 2]));
    assert_eq!(playback.queue.samples.len(), 2);
    assert!(playback.stop());
}

#[test]
fn parses_pcm_wave_format_and_skips_extra_data() {
    let mut payload = vec![0; 9];
    PcmCaptureFormat { channels: 2, sample_rate: 48_000 }.encode_wave_format(&mut payload);
    let (format, next) = parse_wave_format(&payload, 9).expect("valid format");
    assert_eq!(format.channels, 2);
    assert_eq!(format.sample_rate, 48_000);
    assert_eq!(next, payload.len());
}

#[test]
fn rejects_truncated_wave_format() {
    assert!(parse_wave_format(&[0; 17], 0).is_none());
}

#[test]
fn audio_input_answers_the_version() {
    let mut client = AudioInputClient::new();
    match client.process(&[1, 2, 0, 0, 0], &None) {
        AudioInputStep::Send(messages) => assert_eq!(messages, vec![vec![1, 2, 0, 0, 0]]),
        _ => panic!("expected an answer"),
    }
    assert!(!client.stop_capture());
    assert!(client.drain_messages().is_empty());
}

#[test]
fn microphone_packets_are_queued() {
    assert_eq!(packet_samples(10, 2), Ok(20));
    assert_eq!(packet_samples(0, 2), Ok(0));
    let mut packetizer = MicrophonePacketizer::new(2);
    assert_eq!(packetizer.push(1), None);
    assert_eq!(packetizer.push(-1), Some(pcm_bytes(&[1, -1])));
    let mut queue = MicrophonePacketQueue::new();
    assert!(queue.push(PcmQueueLock::Acquired, vec![1]));
    assert!(!queue.push(PcmQueueLock::Acquired, vec![2]));
    assert_eq!(queue.drain(), vec![vec![1], vec![2]]);
}

#[test]
fn numbers_go_through_bytes() {
    let mut bytes = Vec::new();
    push_u16(&mut bytes, 0x1234);
    push_u32(&mut bytes, 0x89abcdef);
    push_u64(&mut bytes, 0x0102030405060708);
    assert_eq!(bytes[..2], [0x34, 0x12]);
    assert_eq!(read_u16(&bytes, 0), 0x1234);
    assert_eq!(read_u64(&bytes, 6), 0x0102030405060708);
    assert_eq!(hapcli::audio::input::read_u32(&bytes, 2), Some(0x89abcdef));
}
