use xors::events::{
    client_intent, ClientIntent, ErrorData, GameOverReason, XoClientEvent, XoClientEventKind,
    XoClientEventsData, XoServerEvent, XoServerEventData, XoServerEventKind,
};
use xors::paths::get_image_disk_path;
use xors::schemas::{
    DeleteUserSchema, JwtClaims, MessageSchema, NewUserSchema, ResetPasswordSchema, SigninSchema,
    UpdateUserSchema,
};

#[test]
fn client_intent_accepts_search_without_payload() {
    let e = XoClientEvent { event: XoClientEventKind::Search, data: None };
    assert_eq!(client_intent(&e), Ok(ClientIntent::Search));
}

#[test]
fn client_intent_accepts_play_with_place() {
    let e = XoClientEvent {
        event: XoClientEventKind::Play,
        data: Some(XoClientEventsData::Play { place: 4 }),
    };
    assert_eq!(client_intent(&e), Ok(ClientIntent::Play { place: 4 }));
}

#[test]
fn client_intent_rejects_mismatched_payloads() {
    let e = XoClientEvent {
        event: XoClientEventKind::Search,
        data: Some(XoClientEventsData::Play { place: 4 }),
    };
    assert_eq!(client_intent(&e), Err(ErrorData::InvalidBody));
    let e = XoClientEvent { event: XoClientEventKind::Play, data: None };
    assert_eq!(client_intent(&e), Err(ErrorData::InvalidBody));
}

#[test]
fn server_event_kinds_match_payloads() {
    let data = XoServerEventData::AutoPlay { place: 3 };
    assert!(matches!(data.kind(), XoServerEventKind::AutoPlay));
    let env = XoServerEvent::from_data(data);
    assert!(matches!(env.event, XoServerEventKind::AutoPlay));
    assert!(matches!(env.data, Some(XoServerEventData::AutoPlay { place: 3 })));
    assert!(matches!(
        XoServerEventData::Error(ErrorData::NotInGame).kind(),
        XoServerEventKind::Error
    ));
    assert!(matches!(
        XoServerEventData::RoundStart { round: 1 }.kind(),
        XoServerEventKind::RoundStart
    ));
}

#[test]
fn game_over_reason_text() {
    assert_eq!(GameOverReason::PlayerWon.as_str(), "Player Won");
    assert_eq!(GameOverReason::Draw.as_str(), "Draw");
    assert_eq!(GameOverReason::PlayerDisconnected.as_str(), "Player Disconnected");
}

#[test]
fn image_path_keeps_plain_names() {
    assert_eq!(get_image_disk_path("abc-123.png"), "./profile_images/abc-123.png");
}

#[test]
fn image_path_drops_forbidden_characters() {
    assert_eq!(get_image_disk_path("a b?c*"), "./profile_images/abc");
    assert_eq!(get_image_disk_path(""), "./profile_images/");
}

#[test]
fn jwt_claims_flags() {
    let access = JwtClaims::new(9, None, 2_000);
    assert!(!access.is_refresh_token());
    assert!(!access.is_expired(1_999));
    assert!(access.is_expired(2_000));
    let refresh = JwtClaims::new(9, Some(1_500), 3_000);
    assert!(refresh.is_refresh_token());
    assert!(!refresh.is_expired(2_000));
}

#[test]
fn schema_defaults_are_placeholders() {
    let u = NewUserSchema::default();
    assert_eq!(u.first_name, "First");
    assert_eq!(u.last_name.as_deref(), Some("Last"));
    assert_eq!(u.username, "Username");
    assert_eq!(u.password, "Password");
    let s = SigninSchema::default();
    assert_eq!(s.username, "Username");
    assert_eq!(s.password, "Password");
    let d = DeleteUserSchema::default();
    assert_eq!(d.password, "password");
    let up = UpdateUserSchema::default();
    assert_eq!(up.first_name.as_deref(), Some("first_name"));
    assert_eq!(up.last_name.as_deref(), Some("last_name"));
    assert_eq!(up.profile_image.as_deref(), Some("<IMAGE_BASE64>"));
    let rp = ResetPasswordSchema::default();
    assert_eq!(rp.old_password, "OldPassword");
    assert_eq!(rp.new_password, "NewPassword");
    let m = MessageSchema::new("Message".to_owned());
    assert_eq!(m.message(), "Message");
}
