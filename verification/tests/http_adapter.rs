use greentic_deployer::flow::{collect_answers, Question};
use greentic_deployer::http::{
    find_header_end, http_bad_request_response, http_not_found_response, http_ok_response,
    http_schema_response, parse_http_request, read_target, RequestKind,
};
use greentic_deployer::json::{json_to_string, parse_json, JsonValue};

fn region_question() -> Question {
    Question {
        id: String::from("region"),
        prompt: String::from("Region?"),
        default: Some(String::from("us-east-1")),
    }
}

#[test]
fn http_adapter_serves_schema_and_accepts_answers() {
    // A client asking GET /schema sees the question list as JSON.
    let questions = vec![region_question()];
    let get: Vec<u8> = b"GET /schema HTTP/1.1\r\nHost: 127.0.0.1\r\n\r\n".to_vec();
    let parsed = parse_http_request(&get);
    assert_eq!(parsed.kind, RequestKind::Schema);

    let response = http_schema_response(&questions);
    assert!(response.starts_with("HTTP/1.1 200 OK\r\n"));
    let body_start = response.find("\r\n\r\n").expect("header terminator") + 4;
    let body = &response[body_start..];
    assert_eq!(
        body,
        "{\"questions\":[{\"id\":\"region\",\"prompt\":\"Region?\",\"default\":\"us-east-1\"}]}"
    );
    let schema: serde_json::Value = serde_json::from_str(body).expect("schema json");
    assert_eq!(schema["questions"][0]["id"].as_str(), Some("region"));
    // The declared length matches the body bytes.
    let len_line = response
        .lines()
        .find(|l| l.starts_with("Content-Length:"))
        .expect("length header");
    let declared: usize = len_line["Content-Length:".len()..].trim().parse().expect("number");
    assert_eq!(declared, body.len());

    // POST /answers with {"region":"eu-west-1"} unblocks the waiting ask
    // and produces answers {"region":"eu-west-1"}.
    let post: Vec<u8> =
        b"POST /answers HTTP/1.1\r\nContent-Length: 22\r\n\r\n{\"region\":\"eu-west-1\"}".to_vec();
    assert_eq!(read_target(&post), Some(post.len()));
    let parsed = parse_http_request(&post);
    assert_eq!(parsed.kind, RequestKind::Answers);
    assert_eq!(parsed.body, "{\"region\":\"eu-west-1\"}");
    let answers = parse_json(parsed.body.as_bytes()).expect("valid JSON body");
    let provided = collect_answers(&questions, &answers).expect("answers complete");
    let region = provided.get("region").expect("region answered");
    assert_eq!(json_to_string(region), "\"eu-west-1\"");
}

#[test]
fn unanswered_question_falls_back_to_default() {
    let questions = vec![region_question()];
    let answers = JsonValue::Obj(Vec::new());
    let provided = collect_answers(&questions, &answers).expect("default fills in");
    let region = provided.get("region").expect("region present");
    assert_eq!(json_to_string(region), "\"us-east-1\"");
}

#[test]
fn header_scanning_honors_content_length() {
    let partial: Vec<u8> = b"POST /answers HTTP/1.1\r\nContent-Length: 10\r\n\r\n12345".to_vec();
    let target = read_target(&partial).expect("headers complete");
    assert_eq!(target, partial.len() + 5);
    let headerless: Vec<u8> = b"POST /answers HTTP/1.1\r\nContent-Le".to_vec();
    assert_eq!(read_target(&headerless), None);
    assert_eq!(find_header_end(&partial), Some(b"POST /answers HTTP/1.1\r\nContent-Length: 10\r\n\r\n".len()));
}

#[test]
fn other_paths_get_not_found_and_bad_bodies_get_400() {
    let other: Vec<u8> = b"GET /else HTTP/1.1\r\n\r\n".to_vec();
    assert_eq!(parse_http_request(&other).kind, RequestKind::Other);
    assert_eq!(http_not_found_response(), "HTTP/1.1 404 Not Found\r\nContent-Length: 0\r\n\r\n");
    assert_eq!(
        http_bad_request_response(),
        "HTTP/1.1 400 Bad Request\r\nContent-Length: 0\r\n\r\n"
    );
    assert_eq!(http_ok_response(), "HTTP/1.1 200 OK\r\nContent-Length: 0\r\n\r\n");
    let bad_body: Vec<u8> = b"POST /answers HTTP/1.1\r\n\r\nnot json".to_vec();
    let parsed = parse_http_request(&bad_body);
    assert_eq!(parsed.kind, RequestKind::Answers);
    assert!(parse_json(parsed.body.as_bytes()).is_none());
}
