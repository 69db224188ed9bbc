use noir_atelier::api::{
    api_url, bearer, call_url, error_message, is_success, method, needs_token, publication_call,
    response_error, save_call, ApiCall, Method,
};
use noir_atelier::text::signed_decimal_string;

#[test]
fn urls_live_below_the_api_root() {
    assert_eq!(api_url("/outfits"), "/api/outfits");
    assert_eq!(api_url(""), "/api");
}

#[test]
fn bearer_header_wraps_the_token() {
    assert_eq!(bearer("abc.def"), "Bearer abc.def");
    assert_eq!(bearer(""), "Bearer ");
}

#[test]
fn every_call_has_its_address_and_method() {
    let cases = [
        (ApiCall::Register, "/api/auth/register", Method::Post, false),
        (ApiCall::Login, "/api/auth/login", Method::Post, false),
        (ApiCall::PublicOutfits, "/api/outfits", Method::Get, false),
        (ApiCall::MyOutfits, "/api/outfits/mine", Method::Get, true),
        (ApiCall::CreateOutfit, "/api/outfits", Method::Post, true),
        (ApiCall::UpdateOutfit(12), "/api/outfits/12", Method::Put, true),
        (ApiCall::DeleteOutfit(7), "/api/outfits/7", Method::Delete, true),
        (ApiCall::Publish(305), "/api/outfits/305/publish", Method::Post, true),
        (ApiCall::Unpublish(0), "/api/outfits/0/unpublish", Method::Post, true),
        (ApiCall::UpdateOutfit(-4), "/api/outfits/-4", Method::Put, true),
    ];
    for (call, url, m, token) in cases {
        assert_eq!(call_url(call), url);
        assert_eq!(method(call), m);
        assert_eq!(needs_token(call), token);
    }
}

#[test]
fn ids_are_written_like_display() {
    for v in [0, 9, 10, -1, -10, 1234567, i64::MAX, i64::MIN] {
        assert_eq!(signed_decimal_string(v), v.to_string());
    }
}

#[test]
fn save_and_publication_calls() {
    assert_eq!(save_call(Some(5)), ApiCall::UpdateOutfit(5));
    assert_eq!(save_call(None), ApiCall::CreateOutfit);
    assert_eq!(publication_call(8, true), ApiCall::Unpublish(8));
    assert_eq!(publication_call(8, false), ApiCall::Publish(8));
}

#[test]
fn success_is_the_2xx_range() {
    assert!(!is_success(199));
    assert!(is_success(200));
    assert!(is_success(204));
    assert!(is_success(299));
    assert!(!is_success(300));
    assert!(!is_success(404));
}

#[test]
fn error_messages_name_status_and_reason() {
    assert_eq!(error_message(404, "Not Found", None), "API вернул HTTP 404: Not Found");
    assert_eq!(error_message(401, "Unauthorized", Some("Bad token")), "API вернул HTTP 401: Bad token");
}

#[test]
fn responses_are_judged_by_status_and_detail() {
    assert_eq!(response_error(200, "OK", "{\"detail\":\"x\"}"), None);
    assert_eq!(response_error(201, "Created", "not json"), None);
    assert_eq!(
        response_error(400, "Bad Request", "{\"detail\":\"Email уже занят\"}"),
        Some("API вернул HTTP 400: Email уже занят".to_string())
    );
    assert_eq!(
        response_error(500, "Internal Server Error", "<html>oops</html>"),
        Some("API вернул HTTP 500: Internal Server Error".to_string())
    );
    assert_eq!(
        response_error(422, "Unprocessable Entity", "{\"detail\":[{\"msg\":\"field required\"}]}"),
        Some("API вернул HTTP 422: Unprocessable Entity".to_string())
    );
    assert_eq!(
        response_error(403, "Forbidden", "[\"detail\"]"),
        Some("API вернул HTTP 403: Forbidden".to_string())
    );
    assert_eq!(response_error(403, "Forbidden", ""), Some("API вернул HTTP 403: Forbidden".to_string()));
}

#[test]
fn no_two_calls_share_method_and_address() {
    let calls = [
        ApiCall::Register,
        ApiCall::Login,
        ApiCall::PublicOutfits,
        ApiCall::MyOutfits,
        ApiCall::CreateOutfit,
        ApiCall::UpdateOutfit(1),
        ApiCall::UpdateOutfit(11),
        ApiCall::DeleteOutfit(1),
        ApiCall::Publish(1),
        ApiCall::Publish(-1),
        ApiCall::Unpublish(1),
    ];
    for a in calls {
        for b in calls {
            let same = method(a) == method(b) && call_url(a) == call_url(b);
            assert_eq!(same, a == b, "{a:?} {b:?}");
        }
    }
}
