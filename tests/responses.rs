use mars_api::payloads::{
    PlayerLoginResponder, PlayerLoginResponse, PlayerPreLoginResponder, PlayerPreLoginResponse,
    PlayerProfileResponder,
};
use mars_api::responder::{EmptyResponse, JsonResponder};

#[test]
fn json_responder_statuses() {
    assert_eq!(JsonResponder::created(EmptyResponse {}).status, 201);
    assert_eq!(JsonResponder::ok(5u8).status, 200);
    let r = JsonResponder::from("x", 404);
    assert_eq!((r.response, r.status), ("x", 404));
}

#[test]
fn pre_login_status_depends_on_new() {
    let make = |new| PlayerPreLoginResponder {
        response: PlayerPreLoginResponse::<u8, u8> { new, allowed: true, player: 1, active_punishments: vec![] },
    };
    assert_eq!(make(true).status(), 201);
    assert_eq!(make(false).status(), 200);
}

#[test]
fn login_and_profile_statuses() {
    let login = PlayerLoginResponder { response: PlayerLoginResponse { active_session: 3u8 } };
    assert_eq!(login.status(), 201);
    let profile: PlayerProfileResponder<u8, u8> = PlayerProfileResponder::RawProfile(1);
    assert_eq!(profile.status(), 200);
}
