use fost_protocol::captcha::CaptchaProvider;
use fost_protocol::client_resources::ClientResources;
use fost_protocol::client_components::{
    ClientBattleCreate, ClientBattleList, LoginKickoff, SettingsDialog,
};
use fost_protocol::custom::CaptchaLocation;
use fost_protocol::error::ProtocolError;
use fost_protocol::handler::{LowLevelPing, PacketHandlerRegistry, SessionHandler, SessionPing,
    TaskHandler};
use fost_protocol::packets::{
    CaptchaRequestLocation, CaptchaValidateCaptcha, Packet, PingMeasurePong,
    ResourceLoaderResourcesRegistered, SettingsRequestClose, SettingsRequestOpen,
    ID_PING_MEASURE_PONG, ID_SETTINGS_CLOSE, ID_SETTINGS_OPEN,
};
use fost_protocol::rank::Rank;
use fost_protocol::resources::{Resource, ResourceInfo, ResourceStage, ServerResource,
    ServerResources};
use fost_protocol::session::{Component, ComponentKind, Session, SessionState};

fn frame(id: u32, payload: &[u8]) -> Vec<u8> {
    let mut bytes = Vec::new();
    bytes.extend_from_slice(&((payload.len() as u32 + 8).to_be_bytes()));
    bytes.extend_from_slice(&id.to_be_bytes());
    bytes.extend_from_slice(payload);
    bytes
}

#[test]
fn await_match_resolves_on_the_first_matching_packet() {
    let mut session = Session::new(false, "en".to_owned(), 0);
    let task_id = session.await_match(ID_SETTINGS_OPEN);

    // Inject frames of other ids, then two matches.
    session.connection.push_received(&frame(ID_SETTINGS_CLOSE, &[]));
    session.connection.push_received(&frame(6, &[]));  // a ping
    session.connection.push_received(&frame(ID_SETTINGS_OPEN, &[0x01]));
    session.connection.push_received(&frame(ID_SETTINGS_OPEN, &[0x00]));

    let mut resolutions: Vec<(u32, Packet)> = Vec::new();
    for now in 1..8u64 {
        let outcome = session.progress(now);
        resolutions.extend(outcome.resolved);
        assert!(!outcome.done);
    }
    // The future resolves once, with the first match; the second match is
    // not delivered to that matcher.
    assert_eq!(resolutions.len(), 1);
    assert_eq!(resolutions[0].0, task_id);
    match &resolutions[0].1 {
        Packet::SettingsOpen(p) => assert!(p.notification_enabled),
        other => panic!("wrong packet captured: {:?}", other),
    }
}

#[test]
fn task_prelude_runs_exactly_once() {
    let mut session = Session::new(false, "en".to_owned(), 0);
    let _task = session.execute_task(
        Packet::PingMeasurePong(PingMeasurePong {}),
        ID_SETTINGS_OPEN,
    );

    session.progress(1);
    let after_first = session.connection.outgoing().to_vec();
    session.progress(2);
    session.progress(3);
    let after_more = session.connection.outgoing().to_vec();

    // Exactly one prelude frame was queued, on the first progress.
    assert_eq!(after_first.len(), 8);
    assert_eq!(&after_first[4..8], &ID_PING_MEASURE_PONG.to_be_bytes());
    assert_eq!(after_more, after_first);
}

#[test]
fn cancelled_task_is_reaped_without_resolving() {
    let mut session = Session::new(false, "en".to_owned(), 0);
    let task_id = session.await_match(ID_SETTINGS_OPEN);
    session.cancel_task(task_id);

    session.progress(1);
    // A match arriving after the cancellation resolves nothing.
    session.connection.push_received(&frame(ID_SETTINGS_OPEN, &[0x01]));
    for now in 2..6u64 {
        let outcome = session.progress(now);
        assert!(outcome.resolved.is_empty());
    }
}

#[test]
fn pending_tasks_fail_when_the_connection_breaks() {
    let mut session = Session::new(false, "en".to_owned(), 0);
    let task_id = session.await_match(ID_SETTINGS_OPEN);

    // A malformed frame: declared length below the header size.
    let mut bytes = Vec::new();
    bytes.extend_from_slice(&3u32.to_be_bytes());
    bytes.extend_from_slice(&1u32.to_be_bytes());
    session.connection.push_received(&bytes);

    let outcome = session.progress(1);
    assert!(outcome.done);
    assert_eq!(outcome.failed, vec![task_id]);
    assert!(matches!(outcome.error, Some(ProtocolError::PacketTooSmall(3))));
    // The error is surfaced exactly once; later polls stay terminal.
    let after = session.progress(2);
    assert!(after.done);
    assert!(after.error.is_none());
}

#[test]
fn session_ping_answers_with_session_clock() {
    let mut session = Session::new(false, "en".to_owned(), 1000);
    session.register_packet_handler(SessionHandler::SessionPing(SessionPing {}));
    session.connection.push_received(&frame(8, &42i32.to_be_bytes()));

    session.progress(1250);
    session.progress(1250);

    let out = session.connection.outgoing().to_vec();
    assert_eq!(out.len(), 16);
    assert_eq!(&out[4..8], &9u32.to_be_bytes());
    assert_eq!(&out[8..12], &250i32.to_be_bytes());
    assert_eq!(&out[12..16], &42i32.to_be_bytes());
}

#[test]
fn flushing_disconnect_waits_for_drained_writes() {
    let mut session = Session::new(false, "en".to_owned(), 0);
    session
        .send(&Packet::PingMeasurePong(PingMeasurePong {}))
        .unwrap();
    session.disconnect(true);

    // Writes still pending: the session keeps going and refuses new sends.
    let outcome = session.progress(1);
    assert!(!outcome.done);
    session
        .send(&Packet::PingMeasurePong(PingMeasurePong {}))
        .unwrap();
    assert_eq!(session.connection.outgoing().len(), 8);

    // Drain the writes; the next progress finishes the session.
    let n = session.connection.outgoing().len();
    session.connection.consume_sent(n);
    let outcome = session.progress(2);
    assert!(outcome.done);
}

#[test]
fn handler_ids_are_fresh_and_monotonic() {
    let mut session = Session::new(false, "en".to_owned(), 0);
    let a = session.register_packet_handler(SessionHandler::SessionPing(SessionPing {}));
    let b = session.await_match(ID_SETTINGS_OPEN);
    session.remove_packet_handler(a);
    let c = session.await_match(ID_SETTINGS_CLOSE);
    assert!(a < b && b < c);
}

#[test]
fn task_handler_progress_reports_prelude_then_keeps_waiting() {
    let mut task = TaskHandler::new(Some(Packet::PingMeasurePong(PingMeasurePong {})), 5);
    let (first, _) = task.progress();
    assert!(matches!(first, Some(Packet::PingMeasurePong(_))));
    let (second, _) = task.progress();
    assert!(second.is_none());
}

#[test]
fn captcha_flow_validates_and_invalidates() {
    let mut provider = CaptchaProvider::new();
    assert!(provider.required_for(CaptchaLocation::RegisterForm));
    assert!(provider.required_for(CaptchaLocation::ClientStartup));
    assert!(!provider.required_for(CaptchaLocation::LoginForm));

    // A location that requires no captcha counts as solved.
    assert!(provider.solved_for(CaptchaLocation::LoginForm));
    // A required location without a solved captcha does not.
    assert!(!provider.solved_for(CaptchaLocation::RegisterForm));

    let image = vec![1u8, 2, 3];
    // The client asks for a captcha: it is issued and remembered.
    let shown = provider.on_packet(
        &Packet::CaptchaRequestLocation(CaptchaRequestLocation {
            location: CaptchaLocation::RegisterForm,
        }),
        &image,
        "sesame".to_owned(),
    );
    assert_eq!(shown.len(), 1);
    match &shown[0] {
        Packet::CaptchaShow(p) => {
            assert_eq!(p.location, CaptchaLocation::RegisterForm);
            assert_eq!(p.captcha_data, image);
        },
        other => panic!("expected the captcha image, got {:?}", other),
    }

    // A wrong code is answered with a fresh challenge.
    let failed = provider.on_packet(
        &Packet::CaptchaValidateCaptcha(CaptchaValidateCaptcha {
            location: CaptchaLocation::RegisterForm,
            code: "wrong".to_owned(),
        }),
        &image,
        "sesame".to_owned(),
    );
    assert!(matches!(&failed[0], Packet::CaptchaCaptchaFailed(_)));

    // The right code validates, and one solve answers one challenge.
    let validated = provider.on_packet(
        &Packet::CaptchaValidateCaptcha(CaptchaValidateCaptcha {
            location: CaptchaLocation::RegisterForm,
            code: "sesame".to_owned(),
        }),
        &image,
        "sesame".to_owned(),
    );
    assert!(matches!(&validated[0], Packet::CaptchaCaptchaValidated(_)));
    assert!(provider.solved_for(CaptchaLocation::RegisterForm));
    assert!(!provider.solved_for(CaptchaLocation::RegisterForm));
}

#[test]
fn captcha_parameters_are_announced_once() {
    let mut provider = CaptchaProvider::new();
    let first = provider.poll();
    assert_eq!(first.len(), 1);
    match &first[0] {
        Packet::CaptchaParameters(p) => {
            assert_eq!(
                p.init_params,
                vec![CaptchaLocation::RegisterForm, CaptchaLocation::ClientStartup]
            );
        },
        other => panic!("expected the parameters, got {:?}", other),
    }
    assert!(provider.poll().is_empty());
}

#[test]
fn ranks_follow_their_score_table() {
    assert_eq!(Rank::from_score(0), Rank::Recruit);
    assert_eq!(Rank::from_score(99), Rank::Recruit);
    assert_eq!(Rank::from_score(100), Rank::Private);
    assert_eq!(Rank::from_score(1399999), Rank::Commander);
    assert_eq!(Rank::from_score(u32::MAX), Rank::Generalissimo);

    assert_eq!(Rank::Recruit.next_rank(), Some(Rank::Private));
    assert_eq!(Rank::Generalissimo.next_rank(), None);
    assert_eq!(Rank::Private.bonus(), 10);
    assert_eq!(Rank::Private.score(), 100);
    assert_eq!(Rank::from_value(30), Some(Rank::Generalissimo));
    assert_eq!(Rank::from_value(31), None);
    assert_eq!(Rank::values().len(), 30);
}

#[test]
fn resources_round_trip_through_registry_descriptions() {
    let resource = ServerResource {
        id: (21u64 << 32) | 1395316,
        version: 10,
        lazy: false,
        info: ResourceInfo::MultiframeImage { fps: 25, height: 32, width: 64, frames: 8 },
    };
    let written = resource.as_json_resource();
    assert_eq!(written.idhigh, 21);
    assert_eq!(written.idlow, 1395316);
    assert_eq!(written.resource_type, 11);
    let read = ServerResource::from_json_resource(&written).unwrap();
    assert_eq!(read, resource);

    let unknown = Resource { resource_type: 42, ..Default::default() };
    assert!(ServerResource::from_json_resource(&unknown).is_none());

    let missing_alpha = Resource { resource_type: 10, ..Default::default() };
    assert!(ServerResource::from_json_resource(&missing_alpha).is_none());
}

#[test]
fn stage_lists_hand_back_their_resources() {
    let mut registry = ServerResources::new();
    let auth = ServerResource { id: 1, version: 1, lazy: false, info: ResourceInfo::Sound };
    let lobby = ServerResource { id: 2, version: 1, lazy: true, info: ResourceInfo::A3D };
    registry.register_resources_for_stage(ResourceStage::Auth, vec![auth.clone()]);
    registry.register_resources_for_stage(ResourceStage::Lobby, vec![lobby]);

    let loaded = registry.get_resources(ResourceStage::Auth);
    assert_eq!(loaded.len(), 1);
    assert_eq!(loaded[0], auth);
    assert!(registry.get_resources(ResourceStage::Connect).is_empty());
}

#[test]
fn settings_dialog_answers_open_and_close() {
    let dialog = SettingsDialog::new();
    let opened = dialog.on_packet(&Packet::SettingsRequestOpen(SettingsRequestOpen {}));
    assert!(matches!(&opened[0], Packet::SettingsOpen(p) if p.notification_enabled));
    let closed = dialog.on_packet(&Packet::SettingsRequestClose(SettingsRequestClose {}));
    assert!(matches!(&closed[0], Packet::SettingsClose(_)));
}

#[test]
fn lobby_components_announce_their_documents() {
    let kickoff = LoginKickoff::new();
    assert!(matches!(kickoff.initialize(), Packet::ResourceLoaderFinished(_)));

    let list = ClientBattleList::new("{\"battles\":[]}".to_owned());
    match list.initialize() {
        Packet::BattleListListCreate(p) => assert_eq!(p.json, "{\"battles\":[]}"),
        other => panic!("expected the battle list, got {:?}", other),
    }

    let create = ClientBattleCreate::new("{\"maps\":[]}".to_owned());
    match create.initialize() {
        Packet::BattleCreateParameters(p) => assert_eq!(p.json, "{\"maps\":[]}"),
        other => panic!("expected the map catalog, got {:?}", other),
    }
}

#[test]
fn session_state_reaches_disconnected_immediately_without_flush() {
    let mut session = Session::new(true, "en".to_owned(), 0);
    assert_eq!(session.language_code().as_str(), "en");
    session.disconnect(false);
    let outcome = session.progress(5);
    assert!(outcome.done);
    let _ = SessionState::Disconnected;
}

#[test]
fn session_timestamp_is_relative_to_the_origin() {
    let session = Session::new(false, "en".to_owned(), 5000);
    assert_eq!(session.session_timestamp(5000), 0);
    assert_eq!(session.session_timestamp(5250), 250);
}

#[test]
fn handshake_rejects_an_unexpected_first_packet() {
    let mut session = Session::new(false, "en".to_owned(), 0);
    let wrong = Packet::PingMeasurePong(PingMeasurePong {});
    let r = session.client_finish_encryption(&wrong);
    assert!(matches!(r, Err(ProtocolError::UnexpectedPacket)));
}

#[test]
fn server_handshake_installs_a_cipher_and_queues_the_seed() {
    let mut session = Session::new(true, "en".to_owned(), 0);
    session.server_begin_encryption().unwrap();
    let wire = session.connection.outgoing().to_vec();
    // One clear frame carrying the seed: 8 header bytes, then the 4-byte
    // sequence encoded with its count.
    assert_eq!(wire.len(), 8 + 4 + 4);
    assert_eq!(&wire[..4], &16u32.to_be_bytes());
    assert_eq!(&wire[8..12], &4u32.to_be_bytes());
}

#[test]
fn mutations_during_iteration_are_deferred_then_committed() {
    let mut registry = PacketHandlerRegistry::new();
    let first = registry.register_handler(SessionHandler::SessionPing(SessionPing {}));

    // While the list is iterated, a registration and a removal are queued:
    // the running iteration sees neither.
    let snapshot = registry.begin_iteration();
    assert_eq!(snapshot.len(), 1);
    let second = registry.register_handler(SessionHandler::LowLevelPing(LowLevelPing {}));
    registry.remove_handler(first);
    registry.end_iteration(snapshot);

    // Both mutations are visible from the very next iteration.
    assert_eq!(registry.handler_count(), 1);
    let snapshot = registry.begin_iteration();
    assert_eq!(snapshot.len(), 1);
    assert_eq!(snapshot[0].0, second);
    registry.end_iteration(snapshot);
}

#[test]
fn load_requests_go_out_one_at_a_time() {
    let mut pipeline = ClientResources::new();

    // The first batch goes out at once; the second waits its turn.
    let (first_id, first_sent) = pipeline
        .enqueue_load_request(ResourceStage::Auth, "{\"resources\":[]}".to_owned());
    let first_sent = first_sent.expect("the first batch goes out at once");
    match &first_sent {
        Packet::ResourceLoaderRegisterResources(p) => {
            assert_eq!(p.callback_id, first_id as i32);
            assert_eq!(p.json, "{\"resources\":[]}");
        },
        other => panic!("expected a registration, got {:?}", other),
    }
    let (second_id, second_sent) = pipeline
        .enqueue_load_request(ResourceStage::Lobby, "{\"resources\":[1]}".to_owned());
    assert!(second_sent.is_none());
    assert!(first_id < second_id);
    assert!(!pipeline.resources_loaded(ResourceStage::Auth));

    // Acknowledging the first batch finishes it and sends the second.
    let next = pipeline
        .on_packet(&Packet::ResourceLoaderResourcesRegistered(
            ResourceLoaderResourcesRegistered { callback_id: first_id as i32 },
        ))
        .unwrap()
        .expect("the waiting batch goes out");
    match &next {
        Packet::ResourceLoaderRegisterResources(p) => {
            assert_eq!(p.callback_id, second_id as i32);
            assert_eq!(p.json, "{\"resources\":[1]}");
        },
        other => panic!("expected the second registration, got {:?}", other),
    }
    assert!(pipeline.resources_loaded(ResourceStage::Auth));
    assert!(!pipeline.resources_loaded(ResourceStage::Lobby));

    // A stray or repeated acknowledgement is a protocol violation.
    assert!(pipeline
        .on_packet(&Packet::ResourceLoaderResourcesRegistered(
            ResourceLoaderResourcesRegistered { callback_id: first_id as i32 },
        ))
        .is_err());
    assert!(pipeline
        .on_packet(&Packet::ResourceLoaderResourcesRegistered(
            ResourceLoaderResourcesRegistered { callback_id: 999 },
        ))
        .is_err());
}

#[test]
fn resource_ids() {
    assert_eq!(
        fost_protocol::resources::build_resource_path(1395316, 1),
        "0/21/74/116/1"
    );

    assert_eq!(
        fost_protocol::resources::build_resource_path(1395316, 10),
        "0/21/74/116/12"
    );
}

#[test]
fn components_are_stored_one_per_kind() {
    let mut session = Session::new(true, "en".to_owned(), 0);
    assert!(session.take_component(ComponentKind::Captcha).is_none());

    session.register_component(Component::Captcha(CaptchaProvider::new()));
    session.register_component(Component::Settings(SettingsDialog::new()));
    let taken = session.take_component(ComponentKind::Captcha);
    assert!(matches!(taken, Some(Component::Captcha(_))));
    // Detached for use: nothing of that kind remains until re-attached.
    assert!(session.take_component(ComponentKind::Captcha).is_none());
    session.register_component(taken.unwrap());
    assert!(session.take_component(ComponentKind::Captcha).is_some());
}

#[test]
fn localized_images_survive_the_registry_format() {
    let resource = ServerResource {
        id: 7,
        version: 3,
        lazy: true,
        info: ResourceInfo::LocalizedImage {
            file_names: vec!["en.png".to_owned(), "de.png".to_owned()],
            alpha: true,
        },
    };
    let written = resource.as_json_resource();
    assert_eq!(written.resource_type, 13);
    assert_eq!(written.alpha, Some(true));
    assert_eq!(
        written.file_names,
        Some(vec!["en.png".to_owned(), "de.png".to_owned()])
    );
    let read = ServerResource::from_json_resource(&written).unwrap();
    assert_eq!(read, resource);

    // The names and the alpha flag are both required for the kind.
    let missing_names = Resource { resource_type: 13, alpha: Some(true), ..Default::default() };
    assert!(ServerResource::from_json_resource(&missing_names).is_none());
}
