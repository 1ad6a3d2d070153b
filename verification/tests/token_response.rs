use webhttp::access_token::{
    create_access_token, create_refresh_token, AccessToken, ACCESS_TOKEN_TIME, REFRESH_TOKEN_TIME,
};
use webhttp::response::{NoneBodyData, Response};

fn claims(exp: u128) -> AccessToken {
    AccessToken {
        user_id: 7,
        user_name: "Alice".to_string(),
        user_account: "alice".to_string(),
        app_id: "testapp".to_string(),
        exp,
    }
}

#[test]
fn access_token_expires_two_days_out() {
    assert_eq!(ACCESS_TOKEN_TIME, 48);
    let t = create_access_token(
        7,
        &"alice".to_string(),
        &"Alice".to_string(),
        &"testapp".to_string(),
        1_000_000,
    );
    assert_eq!(t.user_id, 7);
    assert_eq!(t.user_account, "alice");
    assert_eq!(t.user_name, "Alice");
    assert_eq!(t.app_id, "testapp");
    assert_eq!(t.exp, 1_000_000 + 48 * 3_600_000);
}

#[test]
fn refresh_token_expires_a_week_out() {
    assert_eq!(REFRESH_TOKEN_TIME, 168);
    let t = create_refresh_token(
        7,
        &"alice".to_string(),
        &"Alice".to_string(),
        &"testapp".to_string(),
        0,
    );
    assert_eq!(t.exp, 168 * 3_600_000);
}

#[test]
fn expiry_is_strict() {
    let t = claims(5000);
    assert!(!t.is_expired_at(4999));
    assert!(!t.is_expired_at(5000));
    assert!(t.is_expired_at(5001));
}

#[test]
fn expiry_against_the_clock() {
    // The clock reads somewhere after the epoch and before the distant
    // future.
    assert!(claims(0).is_expired());
    assert!(!claims(u128::MAX).is_expired());
}

#[test]
fn success_renders_the_payload_envelope() {
    let r: Response<NoneBodyData> = Response::success(NoneBodyData {});
    assert_eq!(r.code, 200);
    assert!(r.is_success());
    let ok = r.finished().ok().unwrap();
    assert!(ok.status);
    assert_eq!(ok.code, 200);
}

#[test]
fn failures_render_the_error_envelope() {
    let cases: Vec<(Response<NoneBodyData>, u16)> = vec![
        (Response::internal_error("boom"), 500),
        (Response::bad_request("boom"), 400),
        (Response::forbidden("boom"), 403),
        (Response::not_acceptable("boom"), 406),
        (Response::unauthorized("boom"), 401),
        (Response::nofound("boom"), 404),
    ];
    for (r, code) in cases {
        assert_eq!(r.code, code);
        assert!(!r.is_success());
        let e = r.finished().err().unwrap();
        assert!(!e.status);
        assert_eq!(e.code, code);
        assert_eq!(e.message, "boom");
    }
}
