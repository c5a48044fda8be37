use xenon::config::Info;
use xenon::events::{Device, GameActivity, GamePresence, Presence};
use xenon::models::{Platform, Status};
use xenon::presence::{from_status, on_change, visible_presences, GamePresenceTable, PresenceChange, UserStatus};
use xenon::registry::{Joined, Registry, SocketDevice};
use xenon::models::Message;
use xenon::requests::{link_responses, AttachmentResponse, LinkedAccount, MessageResponse, ServerInfo};

fn game(status: GamePresence, title: &str) -> GameActivity {
    GameActivity { platform: Platform::Xbox, status, title: Some(title.to_string()), activity: None }
}

#[test]
fn presence_from_status() {
    assert_eq!(from_status(Some(Status::Online)), Presence::Online);
    assert_eq!(from_status(Some(Status::Busy)), Presence::Busy);
    assert_eq!(from_status(Some(Status::Away)), Presence::Away);
    assert_eq!(from_status(Some(Status::Invisible)), Presence::Offline);
    assert_eq!(from_status(None), Presence::Offline);
}

#[test]
fn going_invisible_looks_like_leaving() {
    let change = on_change(Some(Status::Online), Some(Status::Invisible));
    assert!(change.clear_game);
    assert_eq!(change.announce, Some(Presence::Offline));
    let quiet = on_change(Some(Status::Invisible), None);
    assert!(!quiet.clear_game);
    assert_eq!(quiet.announce, None);
    let busy = on_change(None, Some(Status::Busy));
    assert_eq!(busy.announce, Some(Presence::Busy));
}

#[test]
fn invisible_users_are_left_out() {
    let declared = [
        UserStatus { user_id: 1, status: Status::Online, device: Some(Device::Linux) },
        UserStatus { user_id: 2, status: Status::Invisible, device: None },
        UserStatus { user_id: 3, status: Status::Away, device: None },
    ];
    let shown = visible_presences(&declared);
    assert_eq!(shown.len(), 2);
    assert_eq!(shown[0].user_id, 1);
    assert_eq!(shown[0].presence, Presence::Online);
    assert_eq!(shown[1].user_id, 3);
    assert_eq!(shown[1].presence, Presence::Away);
}

#[test]
fn game_presence_table_follows_reports() {
    let mut table = GamePresenceTable::new();
    assert!(table.report(1, Status::Online, &game(GamePresence::Online, "Halo")));
    assert!(table.report(2, Status::Busy, &game(GamePresence::Offline, "Halo")));
    assert!(!table.report(3, Status::Invisible, &game(GamePresence::Online, "Forza")));
    let seen = table.snapshot(&[1, 2, 3, 4]);
    assert_eq!(seen.len(), 1);
    assert_eq!(seen[0].user_id, 1);
    assert_eq!(seen[0].game.title.as_deref(), Some("Halo"));
    let cleared = table.clear(1).unwrap();
    assert_eq!(cleared.status, GamePresence::Offline);
    assert_eq!(cleared.title, None);
    assert!(table.clear(1).is_none());
    table.report(5, Status::Away, &game(GamePresence::Away, "Minecraft"));
    table.clear_all();
    assert!(table.snapshot(&[5]).is_empty());
}

#[test]
fn registry_tracks_connections() {
    let mut registry = Registry::new();
    let (first, joined) = registry.subscribe(7, Status::Busy, Some(SocketDevice { socket_id: 1, device: Device::Windows }), 8);
    assert!(joined == Joined::First);
    let (second, joined) = registry.subscribe(7, Status::Online, Some(SocketDevice { socket_id: 2, device: Device::Ios }), 8);
    assert!(joined == Joined::Additional);
    let statuses = registry.statuses_of(&[7, 8]);
    assert_eq!(statuses.len(), 1);
    assert_eq!(statuses[0].status, Status::Busy);
    assert_eq!(statuses[0].device, Some(Device::Ios));
    assert_eq!(registry.offline_users(&[7, 8, 9]), vec![8, 9]);
    assert_eq!(registry.set_status(7, Status::Away), Some(Status::Busy));
    assert_eq!(registry.set_status(8, Status::Away), None);
    assert_eq!(registry.unsubscribe(7, 2, second), None);
    let statuses = registry.statuses_of(&[7]);
    assert_eq!(statuses[0].device, Some(Device::Windows));
    assert_eq!(registry.unsubscribe(7, 1, first), Some(Status::Away));
    assert_eq!(registry.offline_users(&[7]), vec![7]);
}

#[test]
fn registry_delivers_to_connected_users() {
    let mut registry = Registry::new();
    let (mut receiver, _) = registry.subscribe(1, Status::Online, None, 4);
    registry.inform_users(&[1, 2], &"hello".to_string());
    assert_eq!(receiver.try_recv().unwrap(), "hello");
}

#[test]
fn server_info_reports_the_config() {
    let info = Info { name: "Home".to_string(), kind: "Release".to_string(), description: "A server".to_string() };
    let reported = ServerInfo::describe(&info, "1.2.3");
    assert_eq!(reported.name, "Home");
    assert_eq!(reported.version, "1.2.3");
    assert_eq!(reported.kind, "Release");
    assert_eq!(reported.description, "A server");
}

#[test]
fn link_responses_mark_reauth() {
    let rows = [
        LinkedAccount { platform: Platform::Xbox, handle: "Gamer".to_string() },
        LinkedAccount { platform: Platform::Steam, handle: "steamer".to_string() },
    ];
    let links = link_responses(&rows, true);
    assert_eq!(links.len(), 2);
    assert_eq!(links[0].platform, Platform::Xbox);
    assert_eq!(links[1].handle, "steamer");
    assert!(links.iter().all(|l| l.needs_reauth));
    assert!(link_responses(&[], false).is_empty());
}

#[test]
fn connect_declare_disconnect_report_presence_changes() {
    let mut registry = Registry::new();
    let (first, change) = registry.connect(4, Status::Online, Some(SocketDevice { socket_id: 10, device: Device::Android }), 8);
    assert_eq!(change, Some(PresenceChange { clear_game: false, announce: Some(Presence::Online) }));
    let (second, change) = registry.connect(4, Status::Busy, None, 8);
    assert_eq!(change, None);
    assert_eq!(registry.declare(4, Status::Invisible), Some(PresenceChange { clear_game: true, announce: Some(Presence::Offline) }));
    assert_eq!(registry.declare(5, Status::Online), None);
    assert_eq!(registry.disconnect(4, 99, second), None);
    assert_eq!(registry.disconnect(4, 10, first), Some(PresenceChange { clear_game: false, announce: None }));
    assert_eq!(registry.offline_users(&[4]), vec![4]);
}

#[test]
fn message_response_joins_files() {
    let message = Message {
        seq: 3,
        id: 9,
        room_id: 1,
        author_id: 2,
        body: Some("hi".to_string()),
        created_at: 100,
        edited_at: None,
        deleted_at: None,
    };
    let file = AttachmentResponse { id: 5, filename: "a.png".to_string(), mime: "image/png".to_string(), byte_size: 10, spoiler: false };
    let response = MessageResponse::new(message, vec![file]);
    assert_eq!(response.seq, 3);
    assert_eq!(response.body.as_deref(), Some("hi"));
    assert_eq!(response.attachments.len(), 1);
    assert_eq!(response.attachments[0].filename, "a.png");
}

#[test]
fn release_removes_the_entry_only_when_no_receiver_remains() {
    let mut registry = Registry::new();
    let (_first, _) = registry.subscribe(3, Status::Away, Some(SocketDevice { socket_id: 1, device: Device::Linux }), 4);
    let (_second, _) = registry.subscribe(3, Status::Online, Some(SocketDevice { socket_id: 2, device: Device::Xbox }), 4);
    assert_eq!(registry.release(3, 2, 1), None);
    assert_eq!(registry.statuses_of(&[3])[0].device, Some(Device::Linux));
    assert_eq!(registry.release(3, 1, 0), Some(Status::Away));
    assert_eq!(registry.offline_users(&[3]), vec![3]);
    assert_eq!(registry.release(3, 1, 0), None);
}
