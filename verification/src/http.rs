//! The hand-rolled HTTP micro-parser behind the ephemeral listener
//! transport: a bounded state machine over the accumulated request bytes
//! (headers, then a body up to `Content-Length`), kept apart from sockets
//! so it is testable in isolation.

use vstd::prelude::*;
use crate::flow::{question_view, questions_view, Question, QuestionSpec};
use crate::json::{
    json_view, json_view_list, json_to_string, spec_json_text, JsonSpec, JsonValue,
};
use crate::strutil::{
    concat5, find_char, parse_usize_dec, spec_all_digits, spec_dec_val, spec_find_char,
    spec_starts_with, spec_trim, spec_u64_dec, starts_with_str, substr, trim_ascii,
    u64_to_string,
};
use vstd::string::StringExecFns;

verus! {

/// What `String::from_utf8_lossy` decodes the bytes to: a function of the
/// bytes alone.
pub uninterp spec fn lossy_of(bytes: Seq<u8>) -> Seq<char>;

/// Relies on `String::from_utf8_lossy` from std: the decoded text depends
/// on the bytes alone.
#[verifier::external_body]
fn utf8_lossy(bytes: &[u8]) -> (r: String)
    ensures
        r@ == lossy_of(bytes@),
{
    String::from_utf8_lossy(bytes).into_owned()
}

/// The index just past the first `\r\n\r\n` header terminator, if any.
pub open spec fn spec_header_end(s: Seq<u8>, from: int) -> Option<int>
    decreases s.len() - from,
{
    if from < 0 || from + 4 > s.len() {
        Option::None
    } else if s[from] == 13 && s[from + 1] == 10 && s[from + 2] == 13 && s[from + 3] == 10 {
        Option::Some(from + 4)
    } else {
        spec_header_end(s, from + 1)
    }
}

/// Finds the end of the header section: the position just past the first
/// blank-line terminator.
pub fn find_header_end(buf: &Vec<u8>) -> (r: Option<usize>)
    ensures
        match r {
            Option::Some(e) => 4 <= e <= buf@.len() && spec_header_end(buf@, 0) == Option::Some(
                e as int,
            ),
            Option::None => spec_header_end(buf@, 0) is None,
        },
{
    let n = buf.len();
    if n < 4 {
        return Option::None;
    }
    let mut i: usize = 0;
    while i <= n - 4
        invariant
            i <= n - 4 + 1,
            4 <= n == buf@.len(),
            spec_header_end(buf@, 0) == spec_header_end(buf@, i as int),
        decreases n - i,
    {
        if buf[i] == 13 && buf[i + 1] == 10 && buf[i + 2] == 13 && buf[i + 3] == 10 {
            return Option::Some(i + 4);
        }
        i = i + 1;
    }
    Option::None
}

/// One header line's contribution to the scanned `Content-Length`: a line
/// with the exact prefix replaces the running value with its parsed count,
/// an unparsable count with zero; other lines leave it.
pub open spec fn spec_cl_apply(line: Seq<char>, acc: nat) -> nat {
    if spec_starts_with(line, "Content-Length:"@) {
        let value = spec_trim(line.subrange(15, line.len() as int));
        if value.len() > 0 && spec_all_digits(value) && spec_dec_val(value) <= usize::MAX as nat {
            spec_dec_val(value)
        } else {
            0
        }
    } else {
        acc
    }
}

/// A line as the scanner sees it: without its trailing carriage return.
pub open spec fn spec_strip_cr(line: Seq<char>) -> Seq<char> {
    if line.len() > 0 && line[line.len() - 1] == '\r' {
        line.subrange(0, line.len() - 1)
    } else {
        line
    }
}

/// The `Content-Length` the header text scans to, line by line, the last
/// matching line winning; zero when none matches.
pub open spec fn spec_scan_content_length(s: Seq<char>, acc: nat) -> nat
    decreases s.len(),
{
    match spec_find_char(s, '\n') {
        Option::Some(i) => if 0 <= i < s.len() {
            spec_scan_content_length(
                s.subrange(i + 1, s.len() as int),
                spec_cl_apply(spec_strip_cr(s.subrange(0, i)), acc),
            )
        } else {
            spec_cl_apply(spec_strip_cr(s), acc)
        },
        Option::None => spec_cl_apply(spec_strip_cr(s), acc),
    }
}

fn strip_cr(line: &String) -> (r: String)
    ensures
        r@ == spec_strip_cr(line@),
{
    let n: usize = line.as_str().unicode_len();
    if n > 0 {
        if line.as_str().get_char(n - 1) == '\r' {
            return substr(line.as_str(), 0, n - 1);
        }
    }
    line.clone()
}

fn cl_apply(line: &String, acc: usize) -> (r: usize)
    ensures
        r as nat == spec_cl_apply(line@, acc as nat),
{
    proof {
        reveal_strlit("Content-Length:");
    }
    if starts_with_str(line.as_str(), "Content-Length:") {
        let n: usize = line.as_str().unicode_len();
        let raw = substr(line.as_str(), 15, n);
        let value = trim_ascii(raw.as_str());
        match parse_usize_dec(value.as_str()) {
            Option::Some(v) => v,
            Option::None => 0,
        }
    } else {
        acc
    }
}

/// Scans the header text for the last `Content-Length` line.
fn scan_content_length(headers: &String) -> (r: usize)
    ensures
        r as nat == spec_scan_content_length(headers@, 0),
{
    let ghost full = headers@;
    let n: usize = headers.as_str().unicode_len();
    let mut acc: usize = 0;
    let mut start: usize = 0;
    proof {
        assert(full.subrange(0, n as int) =~= full);
    }
    loop
        invariant_except_break
            spec_scan_content_length(full, 0) == spec_scan_content_length(
                full.subrange(start as int, n as int),
                acc as nat,
            ),
        invariant
            start <= n,
            n == full.len(),
            headers@ == full,
        ensures
            acc as nat == spec_scan_content_length(full, 0),
        decreases n - start,
    {
        let ghost remaining = full.subrange(start as int, n as int);
        match crate::strutil::find_char_from(headers.as_str(), '\n', start) {
            Option::Some(i) => {
                proof {
                    crate::strutil::lemma_find_char_from_bounds(full, '\n', start as int);
                    assert(remaining[i - start] == full[i as int]);
                    assert forall|j: int| 0 <= j < i - start implies remaining[j] != '\n' by {
                        assert(remaining[j] == full[start + j]);
                    };
                    crate::strutil::lemma_find_char_from_unique(remaining, '\n', 0, i - start);
                    assert(remaining.subrange(0, i - start) =~= full.subrange(
                        start as int,
                        i as int,
                    ));
                    assert(remaining.subrange(i - start + 1, remaining.len() as int)
                        =~= full.subrange(i + 1, n as int));
                }
                let line = substr(headers.as_str(), start, i);
                let stripped = strip_cr(&line);
                acc = cl_apply(&stripped, acc);
                start = i + 1;
            },
            Option::None => {
                proof {
                    crate::strutil::lemma_find_char_from_bounds(full, '\n', start as int);
                    crate::strutil::lemma_find_char_from_bounds(remaining, '\n', 0);
                    if spec_find_char(remaining, '\n') is Some {
                        let t = spec_find_char(remaining, '\n')->Some_0;
                        assert(remaining[t] == full[start + t]);
                        assert(false);
                    }
                }
                let line = substr(headers.as_str(), start, n);
                let stripped = strip_cr(&line);
                acc = cl_apply(&stripped, acc);
                break ;
            },
        }
    }
    acc
}

/// How far the acceptor must read: `None` until the header terminator has
/// arrived, then the total byte count of headers plus declared body.
pub fn read_target(buf: &Vec<u8>) -> (r: Option<usize>)
    ensures
        match r {
            Option::Some(total) => match spec_header_end(buf@, 0) {
                Option::Some(e) => {
                    let cl = spec_scan_content_length(lossy_of(buf@.subrange(0, e)), 0);
                    total as nat == (if e + cl <= usize::MAX as nat {
                        (e + cl) as nat
                    } else {
                        usize::MAX as nat
                    })
                },
                Option::None => false,
            },
            Option::None => spec_header_end(buf@, 0) is None,
        },
{
    let header_end = match find_header_end(buf) {
        Option::Some(e) => e,
        Option::None => {
            return Option::None;
        },
    };
    let mut prefix: Vec<u8> = Vec::new();
    let mut i: usize = 0;
    while i < header_end
        invariant
            i <= header_end,
            header_end <= buf@.len(),
            prefix@ =~= buf@.subrange(0, i as int),
        decreases header_end - i,
    {
        prefix.push(buf[i]);
        assert(prefix@ =~= buf@.subrange(0, i + 1));
        i = i + 1;
    }
    let headers = utf8_lossy(prefix.as_slice());
    let cl = scan_content_length(&headers);
    if cl > usize::MAX - header_end {
        return Option::Some(usize::MAX);
    }
    Option::Some(header_end + cl)
}

/// How the acceptor answers a request.
#[derive(Debug, Clone, Copy, PartialEq, Eq, Structural)]
pub enum RequestKind {
    /// `GET /schema`: the question list as JSON.
    Schema,
    /// `POST /answers`: a JSON object of answers.
    Answers,
    /// Anything else: not found.
    Other,
}

/// The request line's classification: decided by its leading text.
pub open spec fn spec_classify(text: Seq<char>) -> RequestKind {
    let line = match spec_find_char(text, '\n') {
        Option::Some(i) => spec_strip_cr(text.subrange(0, i)),
        Option::None => text,
    };
    if spec_starts_with(line, "GET /schema"@) {
        RequestKind::Schema
    } else if spec_starts_with(line, "POST /answers"@) {
        RequestKind::Answers
    } else {
        RequestKind::Other
    }
}

/// The request body: the text between the first header terminator and the
/// next one, or the rest of the text.
pub open spec fn spec_body_text(text: Seq<char>) -> Seq<char> {
    match crate::strutil::spec_find_seq(text, "\r\n\r\n"@, 0) {
        Option::None => Seq::<char>::empty(),
        Option::Some(i) => {
            let after = text.subrange(i + 4, text.len() as int);
            match crate::strutil::spec_find_seq(after, "\r\n\r\n"@, 0) {
                Option::Some(j) => after.subrange(0, j),
                Option::None => after,
            }
        },
    }
}

/// A classified request: its kind and body text.
#[derive(Debug, Clone)]
pub struct ParsedRequest {
    pub kind: RequestKind,
    pub body: String,
}

/// Classifies the accumulated request bytes and extracts the body text.
pub fn parse_http_request(buf: &Vec<u8>) -> (r: ParsedRequest)
    ensures
        r.kind == spec_classify(lossy_of(buf@)),
        r.body@ == spec_body_text(lossy_of(buf@)),
{
    proof {
        reveal_strlit("GET /schema");
        reveal_strlit("POST /answers");
        reveal_strlit("\r\n\r\n");
    }
    let text = utf8_lossy(buf.as_slice());
    let n: usize = text.as_str().unicode_len();
    let line: String = match find_char(text.as_str(), '\n') {
        Option::Some(i) => {
            let raw = substr(text.as_str(), 0, i);
            strip_cr(&raw)
        },
        Option::None => text.clone(),
    };
    let kind: RequestKind = if starts_with_str(line.as_str(), "GET /schema") {
        RequestKind::Schema
    } else if starts_with_str(line.as_str(), "POST /answers") {
        RequestKind::Answers
    } else {
        RequestKind::Other
    };
    let body: String = match crate::strutil::find_sub(text.as_str(), "\r\n\r\n") {
        Option::None => String::new(),
        Option::Some(i) => {
            let after = substr(text.as_str(), i + 4, n);
            match crate::strutil::find_sub(after.as_str(), "\r\n\r\n") {
                Option::Some(j) => substr(after.as_str(), 0, j),
                Option::None => after,
            }
        },
    };
    ParsedRequest { kind, body }
}

/// One question as the schema endpoint publishes it.
pub open spec fn spec_question_json(q: QuestionSpec) -> JsonSpec {
    JsonSpec::Obj(
        seq![
            ("id"@, JsonSpec::Str(q.id)),
            ("prompt"@, JsonSpec::Str(q.prompt)),
            ("default"@, match q.default {
                Option::Some(d) => JsonSpec::Str(d),
                Option::None => JsonSpec::Null,
            }),
        ],
    )
}

/// The schema document: the question list under a `questions` field.
pub open spec fn spec_schema_json(questions: Seq<QuestionSpec>) -> JsonSpec {
    JsonSpec::Obj(
        seq![
            ("questions"@, JsonSpec::Arr(
                questions.map_values(|q: QuestionSpec| spec_question_json(q)),
            )),
        ],
    )
}

fn question_to_json(q: &Question) -> (r: JsonValue)
    ensures
        json_view(r) == spec_question_json(question_view(*q)),
{
    broadcast use crate::json::lemma_json_view_fields;

    proof {
        reveal_strlit("id");
        reveal_strlit("prompt");
        reveal_strlit("default");
    }
    let mut fields: Vec<(String, JsonValue)> = Vec::new();
    fields.push((String::from_str("id"), JsonValue::Str(q.id.clone())));
    fields.push((String::from_str("prompt"), JsonValue::Str(q.prompt.clone())));
    let default_doc: JsonValue = match &q.default {
        Option::Some(d) => JsonValue::Str(d.clone()),
        Option::None => JsonValue::Null,
    };
    fields.push((String::from_str("default"), default_doc));
    let r = JsonValue::Obj(fields);
    proof {
        let gf = crate::json::json_view_fields(fields@);
        assert(gf.len() == 3);
        assert(gf[0] == (fields@[0].0@, json_view(fields@[0].1)));
        assert(gf[1] == (fields@[1].0@, json_view(fields@[1].1)));
        assert(gf[2] == (fields@[2].0@, json_view(fields@[2].1)));
        assert(gf =~= spec_question_json(question_view(*q))->Obj_0);
        assert(json_view(r) =~~= spec_question_json(question_view(*q)));
    }
    r
}

/// Renders the schema document for a question list.
#[verifier::loop_isolation(false)]
pub fn schema_json(questions: &Vec<Question>) -> (r: JsonValue)
    ensures
        json_view(r) == spec_schema_json(questions_view(questions@)),
{
    broadcast use crate::json::lemma_json_view_fields, crate::json::lemma_json_view_list;

    proof {
        reveal_strlit("questions");
    }
    let mut docs: Vec<JsonValue> = Vec::new();
    let n = questions.len();
    let mut i: usize = 0;
    let ghost target = questions_view(questions@).map_values(
        |q: QuestionSpec| spec_question_json(q),
    );
    while i < n
        invariant
            i <= n,
            json_view_list(docs@) =~= target.subrange(0, i as int),
        decreases n - i,
    {
        let ghost before = docs@;
        let doc = question_to_json(&questions[i]);
        docs.push(doc);
        proof {
            crate::json::lemma_view_list_push(before, doc);
            assert(target[i as int] == spec_question_json(question_view(questions@[i as int])));
            assert(json_view_list(docs@) =~= target.subrange(0, i + 1));
        }
        i = i + 1;
    }
    assert(target.subrange(0, n as int) =~= target);
    let mut fields: Vec<(String, JsonValue)> = Vec::new();
    fields.push((String::from_str("questions"), JsonValue::Arr(docs)));
    let r = JsonValue::Obj(fields);
    proof {
        let gf = crate::json::json_view_fields(fields@);
        assert(gf.len() == 1);
        assert(gf[0] == (fields@[0].0@, json_view(fields@[0].1)));
        assert(json_view(r) =~~= spec_schema_json(questions_view(questions@)));
    }
    r
}

/// The `200` response carrying the schema document, with its byte length
/// declared.
pub fn http_schema_response(questions: &Vec<Question>) -> (r: String)
    ensures
        exists|blen: nat|
            r@ == "HTTP/1.1 200 OK\r\nContent-Type: application/json\r\nContent-Length: "@
                + spec_u64_dec(blen) + "\r\n\r\n"@ + spec_json_text(
                spec_schema_json(questions_view(questions@)),
            ),
{
    let doc = schema_json(questions);
    let body = json_to_string(&doc);
    let blen: usize = body.as_str().len();
    let len_text = u64_to_string(blen as u64);
    let r = concat5(
        "HTTP/1.1 200 OK\r\nContent-Type: application/json\r\nContent-Length: ",
        len_text.as_str(),
        "\r\n\r\n",
        body.as_str(),
        "",
    );
    proof {
        reveal_strlit("");
        assert(r@ =~= "HTTP/1.1 200 OK\r\nContent-Type: application/json\r\nContent-Length: "@
            + spec_u64_dec(blen as nat) + "\r\n\r\n"@ + spec_json_text(
            spec_schema_json(questions_view(questions@)),
        ));
    }
    r
}

/// The empty `200` acknowledging accepted answers.
pub fn http_ok_response() -> (r: String)
    ensures
        r@ == "HTTP/1.1 200 OK\r\nContent-Length: 0\r\n\r\n"@,
{
    String::from_str("HTTP/1.1 200 OK\r\nContent-Length: 0\r\n\r\n")
}

/// The `400` for a body that is not JSON.
pub fn http_bad_request_response() -> (r: String)
    ensures
        r@ == "HTTP/1.1 400 Bad Request\r\nContent-Length: 0\r\n\r\n"@,
{
    String::from_str("HTTP/1.1 400 Bad Request\r\nContent-Length: 0\r\n\r\n")
}

/// The `404` for any other path or method.
pub fn http_not_found_response() -> (r: String)
    ensures
        r@ == "HTTP/1.1 404 Not Found\r\nContent-Length: 0\r\n\r\n"@,
{
    String::from_str("HTTP/1.1 404 Not Found\r\nContent-Length: 0\r\n\r\n")
}

} // verus!
