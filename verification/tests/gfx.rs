use ironrdp_core::{decode, encode_vec};
use ironrdp_pdu::rdp::vc::dvc::gfx::{
    Avc420BitmapStream, CapabilitiesAdvertisePdu, CapabilitiesV103Flags, CapabilitiesV104Flags,
    CapabilitiesV10Flags, CapabilitiesV81Flags, CapabilitiesV8Flags, CapabilitySet as Wire,
    ClientPdu as WirePdu, FrameAcknowledgePdu, QueueDepth,
};
use osxrdp::gfx::{
    client_supports_avc420, is_readable, CapabilitySet, ClientPdu, GfxServer, GfxState, ServerPdu,
    Timestamp, V10_AVC_DISABLED, V81_AVC420_ENABLED, V81_SMALL_CACHE,
};
use osxrdp::update::{Avc420Update, DesktopSize};

fn frame(width: u16, height: u16, is_keyframe: bool) -> Avc420Update {
    Avc420Update { data: vec![1, 2, 3], width, height, is_keyframe }
}

fn active(width: u16, height: u16) -> GfxServer {
    let mut g = GfxServer::new(width, height);
    g.init_surface();
    g.drain_pending();
    g
}

#[test]
fn flags_are_those_of_the_protocol() {
    assert_eq!(CapabilitiesV81Flags::AVC420_ENABLED.bits(), V81_AVC420_ENABLED);
    assert_eq!(CapabilitiesV81Flags::SMALL_CACHE.bits(), V81_SMALL_CACHE);
    assert_eq!(CapabilitiesV10Flags::AVC_DISABLED.bits(), V10_AVC_DISABLED);
    assert_eq!(CapabilitiesV103Flags::AVC_DISABLED.bits(), V10_AVC_DISABLED);
}

#[test]
fn versions_with_avc420() {
    for (caps, want) in [
        (vec![], false),
        (vec![CapabilitySet::V8 { flags: 0xff }], false),
        (vec![CapabilitySet::V8_1 { flags: 0x10 }], true),
        (vec![CapabilitySet::V8_1 { flags: 0x02 }], false),
        (vec![CapabilitySet::V10 { flags: 0 }], true),
        (vec![CapabilitySet::V10 { flags: 0x20 }], false),
        (vec![CapabilitySet::V10_2 { flags: 0x22 }], false),
        (vec![CapabilitySet::V10_2 { flags: 0x02 }], true),
        (vec![CapabilitySet::V10_3 { flags: 0x40 }], true),
        (vec![CapabilitySet::V10_3 { flags: 0x60 }], false),
        (vec![CapabilitySet::Other], false),
        (vec![CapabilitySet::Other, CapabilitySet::V10 { flags: 0 }], true),
    ] {
        assert_eq!(client_supports_avc420(&caps), want, "{caps:?}");
    }
}

#[test]
fn capabilities_are_confirmed_and_the_surface_is_set_up() {
    let mut g = GfxServer::new(800, 600);
    let caps = vec![CapabilitySet::V10 { flags: 0 }, CapabilitySet::V8_1 { flags: 0 }];
    let pdus = g.answer(ClientPdu::CapabilitiesAdvertise(caps));
    assert_eq!(pdus.len(), 4);
    assert!(matches!(
        pdus[0],
        ServerPdu::CapabilitiesConfirm(CapabilitySet::V8_1 { flags: 0x12 })
    ));
    assert!(matches!(
        pdus[1],
        ServerPdu::ResetGraphics {
            width: 800,
            height: 600,
            monitor_right: 799,
            monitor_bottom: 599,
        }
    ));
    assert!(matches!(
        pdus[2],
        ServerPdu::CreateSurface { surface_id: 1, surface_width: 800, surface_height: 600 }
    ));
    assert!(matches!(pdus[3], ServerPdu::MapSurfaceToOutput { surface_id: 1 }));
    assert!(g.is_active() && g.avc420_enabled && g.needs_keyframe());
}

#[test]
fn version_8_1_is_confirmed_to_every_client_with_avc420() {
    for caps in [
        vec![CapabilitySet::V10 { flags: 0 }, CapabilitySet::V8 { flags: 2 }],
        vec![CapabilitySet::V10_3 { flags: 0 }],
        vec![CapabilitySet::Other, CapabilitySet::V10_2 { flags: 2 }],
        vec![CapabilitySet::V8_1 { flags: 0x10 }],
    ] {
        let mut g = GfxServer::new(8, 6);
        let pdus = g.answer(ClientPdu::CapabilitiesAdvertise(caps));
        assert_eq!(pdus.len(), 4);
        assert!(matches!(
            pdus[0],
            ServerPdu::CapabilitiesConfirm(CapabilitySet::V8_1 { flags: 0x12 })
        ));
    }
}

#[test]
fn client_without_avc420_is_not_answered() {
    let mut g = GfxServer::new(8, 6);
    let caps = vec![CapabilitySet::V8_1 { flags: 0 }, CapabilitySet::V10 { flags: 0x20 }];
    assert!(g.answer(ClientPdu::CapabilitiesAdvertise(caps)).is_empty());
    assert!(!g.is_active() && !g.avc420_enabled);
    assert!(g.answer(ClientPdu::FrameAcknowledge { frame_id: 3 }).is_empty());
}

#[test]
fn client_messages_are_decoded() {
    let advertise = WirePdu::CapabilitiesAdvertise(CapabilitiesAdvertisePdu(vec![
        Wire::V8 { flags: CapabilitiesV8Flags::THIN_CLIENT },
        Wire::V10_4 { flags: CapabilitiesV104Flags::empty() },
        Wire::V8_1 { flags: CapabilitiesV81Flags::AVC420_ENABLED },
    ]));
    let mut g = GfxServer::new(8, 6);
    let pdus = g.process(&encode_vec(&advertise).unwrap());
    assert_eq!(pdus.len(), 4);
    assert!(g.is_active());
    let ack = WirePdu::FrameAcknowledge(FrameAcknowledgePdu {
        queue_depth: QueueDepth::Unavailable,
        frame_id: 1,
        total_frames_decoded: 1,
    });
    assert!(g.process(&encode_vec(&ack).unwrap()).is_empty());
    let refused = WirePdu::CapabilitiesAdvertise(CapabilitiesAdvertisePdu(vec![
        Wire::V10_4 { flags: CapabilitiesV104Flags::empty() },
        Wire::V10_3 { flags: CapabilitiesV103Flags::AVC_DISABLED },
        Wire::V10_2 { flags: CapabilitiesV10Flags::AVC_DISABLED },
        Wire::V10 { flags: CapabilitiesV10Flags::AVC_DISABLED },
        Wire::V10_1,
    ]));
    let mut g = GfxServer::new(8, 6);
    assert!(g.process(&encode_vec(&refused).unwrap()).is_empty());
    assert!(!g.avc420_enabled);
}

#[test]
fn what_is_no_message_is_ignored() {
    let mut g = GfxServer::new(8, 6);
    g.init_surface();
    assert!(g.process(&[0xff; 8]).is_empty());
    assert!(is_readable(&[0xff, 0xff]) && g.process(&[0xff, 0xff]).is_empty());
    assert!(!is_readable(&[0x12, 0]) && !is_readable(&[0xff]) && is_readable(&[0x12, 1]));
    assert!(g.process(&[0x12, 0, 0, 0, 9, 0, 0, 0, 1]).is_empty());
    assert_eq!(g.pending.len(), 3);
    let ack = [0x0d, 0, 0, 0, 20, 0, 0, 0, 0, 0, 0, 0, 1, 0, 0, 0, 1, 0, 0, 0];
    assert_eq!(g.process(&ack).len(), 3);
    assert!(g.pending.is_empty());
}

#[test]
fn frame_messages_carry_the_data() {
    let mut g = active(8, 6);
    g.send_avc420_frame(&[9, 8], 8, 6, 28, false, 86_400_000 + 3_723_004);
    let pdus = g.drain_pending();
    assert_eq!(pdus.len(), 3);
    let time = Timestamp { milliseconds: 4, seconds: 3, minutes: 2, hours: 1 };
    assert!(matches!(
        pdus[0],
        ServerPdu::StartFrame { timestamp, frame_id: 0 } if timestamp == time
    ));
    let ServerPdu::WireToSurface1 { surface_id, right, bottom, bitmap_data } = &pdus[1] else {
        panic!("expected data")
    };
    assert_eq!((*surface_id, *right, *bottom), (1, 7, 5));
    assert_eq!(bitmap_data, &[1, 0, 0, 0, 0, 0, 0, 0, 7, 0, 5, 0, 28, 32, 9, 8]);
    let stream: Avc420BitmapStream<'_> = decode(bitmap_data).unwrap();
    assert_eq!(stream.quant_qual_vals[0].quantization_parameter, 28);
    assert!(!stream.quant_qual_vals[0].progressive);
    assert_eq!(stream.data, [9, 8]);
    assert!(matches!(pdus[2], ServerPdu::EndFrame { frame_id: 0 }));
    assert_eq!(g.frame_id, 1);
}

#[test]
fn quality_of_frames() {
    for (qp, key, want) in [(28u8, true, 28u8), (28, false, 32), (47, false, 51), (63, false, 51), (63, true, 63)] {
        let mut g = active(1, 0);
        g.send_avc420_frame(&[], 1, 0, qp, key, 0);
        let pdus = g.drain_pending();
        let ServerPdu::WireToSurface1 { bitmap_data, right, bottom, .. } = &pdus[1] else {
            panic!("expected data")
        };
        assert_eq!((bitmap_data[12], bitmap_data[13]), (qp, want));
        assert_eq!((*right, *bottom), (0, 0));
    }
}

#[test]
fn frames_wait_for_the_surface_and_a_keyframe() {
    let mut g = GfxServer::new(8, 6);
    g.send_avc420_frame(&[1], 8, 6, 28, true, 0);
    assert!(g.pending.is_empty());
    assert!(g.route_frame(&frame(8, 6, true), 0));
    assert!(g.pending.is_empty());
    g.init_surface();
    g.drain_pending();
    assert!(g.route_frame(&frame(8, 6, false), 0));
    assert!(g.pending.is_empty());
    assert!(!g.route_frame(&frame(8, 6, true), 0));
    assert_eq!(g.drain_pending().len(), 3);
    assert!(!g.needs_keyframe());
    assert!(!g.route_frame(&frame(8, 6, false), 0));
    assert_eq!(g.frame_id, 2);
}

#[test]
fn surface_takes_the_size_of_the_frame() {
    let mut g = active(8, 6);
    assert!(!g.route_frame(&frame(16, 12, true), 0));
    assert_eq!((g.desktop_width, g.desktop_height), (16, 12));
    let pdus = g.drain_pending();
    assert_eq!(pdus.len(), 6);
    assert!(matches!(pdus[0], ServerPdu::ResetGraphics { width: 16, height: 12, .. }));
    assert!(!g.needs_keyframe(), "the keyframe is on the new surface");
    assert!(g.route_frame(&frame(4, 4, false), 0), "no keyframe on the new surface");
    assert_eq!((g.desktop_width, g.desktop_height, g.frame_id), (16, 12, 1));
    assert!(g.pending.is_empty() && !g.needs_keyframe());
    assert!(!g.route_frame(&frame(4, 4, true), 0));
    assert_eq!((g.desktop_width, g.desktop_height, g.frame_id), (4, 4, 2));
    assert!(!g.route_frame(&frame(4, 4, false), 0));
}

#[test]
fn resizing_in_place() {
    let mut g = GfxServer::new(8, 6);
    let size = DesktopSize { width: 10, height: 20 };
    assert!(!g.resize(size));
    assert_eq!(g.desktop_width, 8);
    g.init_surface();
    g.drain_pending();
    g.clear_needs_keyframe();
    assert!(g.resize(size));
    assert_eq!((g.desktop_width, g.desktop_height, g.pending.len()), (10, 20, 3));
    assert!(g.needs_keyframe());
    g.avc420_enabled = false;
    assert!(!g.resize(DesktopSize { width: 1, height: 1 }));
}

#[test]
fn channel_is_started_and_closed() {
    let mut g = GfxServer::new(8, 6);
    g.init_surface();
    g.set_drdynvc_channel_id(5);
    g.start(42);
    assert_eq!((g.state, g.channel_id), (GfxState::WaitingCapabilities, Some(42)));
    assert!(g.pending.is_empty());
    g.init_surface();
    g.close();
    assert_eq!((g.channel_id, g.drdynvc_channel_id, g.pending.len()), (None, Some(5), 3));
    assert!(!g.is_active());
    g.set_desktop_size(3, 4);
    assert_eq!((g.desktop_width, g.desktop_height), (3, 4));
}
