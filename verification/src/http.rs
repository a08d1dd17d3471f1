//! The HTTP side: the server's setup and its answers to plain requests.
use crate::text::owned;
use vstd::prelude::*;
use vstd::string::StringSliceAdditionalSpecFns;

verus! {

/// The page shown for any unknown address.
pub const NOT_FOUND_PAGE: &'static str = r#"<!DOCTYPE html>
<html lang="en">
<head>
    <meta charset="UTF-8">
    <meta name="viewport" content="width=device-width, initial-scale=1.0">
    <title>404 - Not Found</title>
    <style>
        body {
            font-family: -apple-system, BlinkMacSystemFont, 'Segoe UI', Roboto, sans-serif;
            text-align: center;
            padding: 2rem;
            background: #f8fafc;
        }
        .container {
            max-width: 500px;
            margin: 0 auto;
            background: white;
            padding: 2rem;
            border-radius: 8px;
            box-shadow: 0 2px 10px rgba(0,0,0,0.1);
        }
        h1 { color: #dc2626; }
    </style>
</head>
<body>
    <div class="container">
        <h1>404 - Not Found</h1>
        <p>The requested page could not be found.</p>
        <a href="/">← Back to Chat</a>
    </div>
</body>
</html>"#;

/// The body of the health check.
pub const HEALTH_BODY: &'static str = r#"{"status":"ok","service":"front-chat","message":"Chat server is running"}"#;

/// An answer to an HTTP request.
#[derive(Debug)]
pub struct HttpResponse {
    pub status: u16,
    pub headers: Vec<(String, String)>,
    pub body: Option<Vec<u8>>,
}

/// The names and values of a list of headers.
pub open spec fn headers_view(h: Seq<(String, String)>) -> Seq<(Seq<char>, Seq<char>)> {
    h.map_values(|p: (String, String)| (p.0@, p.1@))
}

/// `r` has the given status, one header `Content-Type: content_type`, and the
/// UTF-8 bytes of `body` as its body.
pub open spec fn answers(r: HttpResponse, status: u16, content_type: Seq<char>, body: &str) -> bool {
    &&& r.status == status
    &&& headers_view(r.headers@) == seq![("Content-Type"@, content_type)]
    &&& r.body matches Some(b) && b@ == body.spec_bytes()
}

/// An answer with one `Content-Type` header.
fn respond(status: u16, content_type: &str, body: &str) -> (r: HttpResponse)
    ensures
        answers(r, status, content_type@, body),
{
    let headers = vec![(owned("Content-Type"), owned(content_type))];
    assert(headers_view(headers@) =~= seq![("Content-Type"@, content_type@)]);
    HttpResponse { status, headers, body: Some(body.as_bytes_vec()) }
}

/// The chat page, given its HTML.
pub fn generate_chat_interface(html_content: &str) -> (r: HttpResponse)
    ensures
        answers(r, 200, "text/html; charset=utf-8"@, html_content),
{
    respond(200, "text/html; charset=utf-8", html_content)
}

/// The health check: a small JSON document that says the server runs.
pub fn generate_health_response() -> (r: HttpResponse)
    ensures
        answers(r, 200, "application/json"@, HEALTH_BODY),
{
    respond(200, "application/json", HEALTH_BODY)
}

/// The page for an unknown address.
pub fn generate_404_response() -> (r: HttpResponse)
    ensures
        answers(r, 404, "text/html; charset=utf-8"@, NOT_FOUND_PAGE),
{
    respond(404, "text/html; charset=utf-8", NOT_FOUND_PAGE)
}

/// Answers a plain HTTP request: `GET /` is the chat page, `GET /health` the
/// health check, anything else the not-found page.
pub fn handle_http_request(method: &str, uri: &str, chat_html: &str) -> (r: HttpResponse)
    ensures
        method@ == "GET"@ && uri@ == "/"@ ==> answers(r, 200, "text/html; charset=utf-8"@, chat_html),
        method@ == "GET"@ && uri@ == "/health"@ ==> answers(r, 200, "application/json"@, HEALTH_BODY),
        !(method@ == "GET"@ && (uri@ == "/"@ || uri@ == "/health"@)) ==> answers(
            r,
            404,
            "text/html; charset=utf-8"@,
            NOT_FOUND_PAGE,
        ),
{
    proof {
        reveal_strlit("/");
        reveal_strlit("/health");
        assert("/"@.len() != "/health"@.len());
    }
    let get = crate::external::text_eq(method, "GET");
    if get && crate::external::text_eq(uri, "/") {
        generate_chat_interface(chat_html)
    } else if get && crate::external::text_eq(uri, "/health") {
        generate_health_response()
    } else {
        generate_404_response()
    }
}

} // verus!
