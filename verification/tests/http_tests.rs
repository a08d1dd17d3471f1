use front_chat::http::{generate_404_response, generate_health_response, handle_http_request};

#[test]
fn health_check_reports_ok() {
    let r = generate_health_response();
    assert_eq!(r.status, 200);
    assert_eq!(
        r.body.unwrap(),
        br#"{"status":"ok","service":"front-chat","message":"Chat server is running"}"#.to_vec()
    );
}

#[test]
fn unknown_address_is_not_found() {
    let r = handle_http_request("GET", "/nope", "<html></html>");
    assert_eq!(r.status, 404);
    assert_eq!(r.body, generate_404_response().body);
}
