use dtube_pinner::message::{
    push_request, Request, RequestGetDiscussionsByBlog, Response, ResponseGetDiscussionsByBlog,
    ResponseGetDiscussionsByBlogEntry,
};
use dtube_pinner::rpc::{
    decode_response, encode_request, frame, is_json_response, read_reply, settle, ApiError,
    RpcError, RpcMethod, RpcVersion, JSON_TYPE,
};

fn asking(limit: i32, tag: &str) -> RequestGetDiscussionsByBlog {
    RequestGetDiscussionsByBlog { limit, tag: tag.to_string() }
}

fn json_type() -> Option<&'static [u8]> {
    Some(b"application/json".as_slice())
}

fn decoded(body: &str) -> Result<ResponseGetDiscussionsByBlog, ApiError> {
    decode_response::<ResponseGetDiscussionsByBlog>(json_type(), body.as_bytes())
}

const ENTRY: &str = r#"{"id":42,"author":"phc","permlink":"p","body":"b","json_metadata":"{}","category":"dtube","net_votes":3}"#;

#[test]
fn request_names_the_interface_and_the_method() {
    assert_eq!(<Vec<RequestGetDiscussionsByBlog> as Request>::api(), "database_api");
    assert_eq!(
        <Vec<RequestGetDiscussionsByBlog> as Request>::method(),
        "get_discussions_by_blog"
    );
}

#[test]
fn version_and_method_are_fixed() {
    assert_eq!(RpcVersion.as_str(), "2.0");
    assert_eq!(RpcMethod.as_str(), "call");
    assert_eq!(RpcVersion::parse("2.0"), Some(RpcVersion));
    assert_eq!(RpcVersion::parse("1.0"), None);
    assert_eq!(RpcVersion::parse("2.00"), None);
    assert_eq!(RpcVersion::parse(""), None);
}

#[test]
fn encode_writes_the_parameters_as_an_array_of_objects() {
    assert_eq!(vec![asking(100, "phc")].encode().unwrap(), r#"[{"limit":100,"tag":"phc"}]"#);
    assert_eq!(Vec::<RequestGetDiscussionsByBlog>::new().encode().unwrap(), "[]");
    assert_eq!(
        vec![asking(1, "a"), asking(2, "b"), asking(3, "c")].encode().unwrap(),
        r#"[{"limit":1,"tag":"a"},{"limit":2,"tag":"b"},{"limit":3,"tag":"c"}]"#
    );
}

#[test]
fn encode_writes_integers_in_decimal() {
    assert_eq!(vec![asking(0, "x")].encode().unwrap(), r#"[{"limit":0,"tag":"x"}]"#);
    assert_eq!(vec![asking(9, "x")].encode().unwrap(), r#"[{"limit":9,"tag":"x"}]"#);
    assert_eq!(vec![asking(10, "x")].encode().unwrap(), r#"[{"limit":10,"tag":"x"}]"#);
    assert_eq!(vec![asking(-1, "x")].encode().unwrap(), r#"[{"limit":-1,"tag":"x"}]"#);
    assert_eq!(
        vec![asking(i32::MAX, "x")].encode().unwrap(),
        r#"[{"limit":2147483647,"tag":"x"}]"#
    );
    assert_eq!(
        vec![asking(i32::MIN, "x")].encode().unwrap(),
        r#"[{"limit":-2147483648,"tag":"x"}]"#
    );
    assert_eq!(vec![asking(1203405, "x")].encode().unwrap(), r#"[{"limit":1203405,"tag":"x"}]"#);
}

#[test]
fn encode_quotes_and_escapes_strings() {
    assert_eq!(
        vec![asking(1, "a\"b\\c\nd")].encode().unwrap(),
        r#"[{"limit":1,"tag":"a\"b\\c\nd"}]"#
    );
    assert_eq!(vec![asking(1, "")].encode().unwrap(), r#"[{"limit":1,"tag":""}]"#);
}

#[test]
fn encode_request_writes_the_whole_call() {
    let body = encode_request(&vec![asking(100, "phc")]).unwrap();
    assert_eq!(
        body,
        r#"{"jsonrpc":"2.0","id":0,"method":"call","params":["database_api","get_discussions_by_blog",[{"limit":100,"tag":"phc"}]]}"#
    );
    let read: serde_json::Value = serde_json::from_str(&body).unwrap();
    assert_eq!(read["params"][2][0]["tag"], "phc");
}

#[test]
fn content_type_must_read_application_json() {
    assert_eq!(JSON_TYPE, "application/json");
    assert!(is_json_response(Some(JSON_TYPE.as_bytes())));
    assert!(is_json_response(Some(b"application/json".as_slice())));
    assert!(is_json_response(Some(b"Application/JSON".as_slice())));
    assert!(!is_json_response(None));
    assert!(!is_json_response(Some(b"".as_slice())));
    assert!(!is_json_response(Some(b"text/html".as_slice())));
    assert!(!is_json_response(Some(b"application/jsonp".as_slice())));
    assert!(!is_json_response(Some(b"application/json; charset=utf-8".as_slice())));
    assert!(!is_json_response(Some(b" application/json".as_slice())));
    assert!(!is_json_response(Some(b"application/xml!".as_slice())));
    assert!(!is_json_response(Some(b"application\x0fjson".as_slice())));
    assert!(!is_json_response(Some(b"@PPLICATION/JSON".as_slice())));
}

#[test]
fn decode_reads_the_posts_of_a_result() {
    let body = format!(r#"{{"id":0,"result":[{},{}]}}"#, ENTRY, ENTRY.replace("42", "-7"));
    let posts = decoded(&body).unwrap();
    assert_eq!(posts.0.len(), 2);
    assert_eq!(posts.0[0].id, 42);
    assert_eq!(posts.0[0].author, "phc");
    assert_eq!(posts.0[0].permlink, "p");
    assert_eq!(posts.0[0].body, "b");
    assert_eq!(posts.0[0].json_metadata, "{}");
    assert_eq!(posts.0[0].category, "dtube");
    assert_eq!(posts.0[1].id, -7);
}

#[test]
fn decode_reads_an_empty_result() {
    let posts = decoded(r#"{"id":0,"result":[]}"#).unwrap();
    assert!(posts.0.is_empty());
    let posts = decoded(r#"{"result":[],"error":null,"id":"x"}"#).unwrap();
    assert!(posts.0.is_empty());
}

#[test]
fn decode_looks_at_the_content_type_first() {
    let body = br#"{"id":0,"result":[]}"#;
    assert!(matches!(
        decode_response::<ResponseGetDiscussionsByBlog>(None, body),
        Err(ApiError::NotAJsonResponse)
    ));
    assert!(matches!(
        decode_response::<ResponseGetDiscussionsByBlog>(Some(b"text/html".as_slice()), body),
        Err(ApiError::NotAJsonResponse)
    ));
    assert!(matches!(
        decode_response::<ResponseGetDiscussionsByBlog>(Some(b"text/html".as_slice()), b"<html>"),
        Err(ApiError::NotAJsonResponse)
    ));
}

#[test]
fn decode_reports_what_is_not_json() {
    assert!(matches!(decoded("<html>"), Err(ApiError::Json(_))));
    assert!(matches!(decoded(""), Err(ApiError::Json(_))));
    assert!(matches!(decoded(r#"{"id":0,"result":[]"#), Err(ApiError::Json(_))));
    assert!(matches!(
        decode_response::<ResponseGetDiscussionsByBlog>(json_type(), b"\"\xff\""),
        Err(ApiError::Json(_))
    ));
}

#[test]
fn decode_reports_the_error_of_the_service() {
    let body = r#"{"id":0,"error":{"code":-32000,"message":"no such feed","data":{"stack":[1,2]}}}"#;
    match decoded(body) {
        Err(ApiError::Rpc(RpcError { code, message, data })) => {
            assert_eq!(code, -32000);
            assert_eq!(message, "no such feed");
            let expected: serde_json::Value = serde_json::from_str(r#"{"stack":[1,2]}"#).unwrap();
            assert_eq!(data, Some(expected));
        }
        other => panic!("unexpected: {:?}", other),
    }
    let body = r#"{"id":0,"result":null,"error":{"code":1,"message":"m"}}"#;
    match decoded(body) {
        Err(ApiError::Rpc(e)) => {
            assert_eq!(e.code, 1);
            assert_eq!(e.message, "m");
            assert_eq!(e.data, None);
        }
        other => panic!("unexpected: {:?}", other),
    }
    let body = r#"{"id":0,"error":{"code":9223372036854775807,"message":"","data":null}}"#;
    match decoded(body) {
        Err(ApiError::Rpc(e)) => {
            assert_eq!(e.code, i64::MAX);
            assert_eq!(e.data, None);
        }
        other => panic!("unexpected: {:?}", other),
    }
}

#[test]
fn a_result_counts_before_an_error() {
    let body = r#"{"id":0,"result":[],"error":{"code":1,"message":"m"}}"#;
    assert!(decoded(body).unwrap().0.is_empty());
}

#[test]
fn decode_rejects_a_malformed_envelope() {
    // neither result nor error
    assert!(matches!(decoded(r#"{"id":0}"#), Err(ApiError::UnexpectedResponse)));
    assert!(matches!(
        decoded(r#"{"id":0,"result":null,"error":null}"#),
        Err(ApiError::UnexpectedResponse)
    ));
    // no id
    assert!(matches!(decoded(r#"{"result":[]}"#), Err(ApiError::UnexpectedResponse)));
    // an unknown member
    assert!(matches!(
        decoded(r#"{"id":0,"result":[],"jsonrpc":"2.0"}"#),
        Err(ApiError::UnexpectedResponse)
    ));
    // not an object
    assert!(matches!(decoded("[]"), Err(ApiError::UnexpectedResponse)));
    assert!(matches!(decoded("null"), Err(ApiError::UnexpectedResponse)));
    // a result of the wrong kind
    assert!(matches!(decoded(r#"{"id":0,"result":{}}"#), Err(ApiError::UnexpectedResponse)));
    assert!(matches!(decoded(r#"{"id":0,"result":[1]}"#), Err(ApiError::UnexpectedResponse)));
    // an error of the wrong kind, even beside a good result
    assert!(matches!(
        decoded(r#"{"id":0,"result":[],"error":{"code":"x","message":"m"}}"#),
        Err(ApiError::UnexpectedResponse)
    ));
    assert!(matches!(
        decoded(r#"{"id":0,"error":{"code":1,"message":"m","more":1}}"#),
        Err(ApiError::UnexpectedResponse)
    ));
    assert!(matches!(
        decoded(r#"{"id":0,"error":{"code":1}}"#),
        Err(ApiError::UnexpectedResponse)
    ));
    assert!(matches!(
        decoded(r#"{"id":0,"error":{"code":1.5,"message":"m"}}"#),
        Err(ApiError::UnexpectedResponse)
    ));
    assert!(matches!(decoded(r#"{"id":0,"error":"x"}"#), Err(ApiError::UnexpectedResponse)));
}

#[test]
fn an_entry_needs_all_its_members() {
    let good: serde_json::Value = serde_json::from_str(ENTRY).unwrap();
    let entry = ResponseGetDiscussionsByBlogEntry::decode(&good).unwrap();
    assert_eq!(entry.id, 42);
    for key in ["id", "author", "permlink", "body", "json_metadata", "category"] {
        let mut lacking = good.clone();
        lacking.as_object_mut().unwrap().remove(key);
        assert!(ResponseGetDiscussionsByBlogEntry::decode(&lacking).is_none(), "{}", key);
    }
    let wrong: serde_json::Value = serde_json::from_str(&ENTRY.replace("\"phc\"", "1")).unwrap();
    assert!(ResponseGetDiscussionsByBlogEntry::decode(&wrong).is_none());
}

#[test]
fn an_entry_id_must_fit_thirty_two_bits() {
    let at = |id: &str| {
        let value: serde_json::Value =
            serde_json::from_str(&ENTRY.replace("42", id)).unwrap();
        ResponseGetDiscussionsByBlogEntry::decode(&value).map(|e| e.id)
    };
    assert_eq!(at("2147483647"), Some(i32::MAX));
    assert_eq!(at("-2147483648"), Some(i32::MIN));
    assert_eq!(at("2147483648"), None);
    assert_eq!(at("-2147483649"), None);
    assert_eq!(at("18446744073709551615"), None);
    assert_eq!(at("1.0"), None);
    assert_eq!(at("\"1\""), None);
    assert_eq!(at("null"), None);
}

#[test]
fn response_decode_wants_an_array_of_entries() {
    let value: serde_json::Value = serde_json::from_str(&format!("[{}]", ENTRY)).unwrap();
    assert_eq!(ResponseGetDiscussionsByBlog::decode(&value).unwrap().0.len(), 1);
    let value: serde_json::Value = serde_json::from_str(&format!("[{},{{}}]", ENTRY)).unwrap();
    assert!(ResponseGetDiscussionsByBlog::decode(&value).is_none());
    let value: serde_json::Value = serde_json::from_str(ENTRY).unwrap();
    assert!(ResponseGetDiscussionsByBlog::decode(&value).is_none());
}

#[test]
fn rpc_error_decode_passes_data_on() {
    let value: serde_json::Value =
        serde_json::from_str(r#"{"code":-1,"message":"m","data":[true,"x"]}"#).unwrap();
    let error = RpcError::decode(&value).unwrap();
    assert_eq!(error.code, -1);
    assert_eq!(error.message, "m");
    let data: serde_json::Value = serde_json::from_str(r#"[true,"x"]"#).unwrap();
    assert_eq!(error.data, Some(data));
    assert!(RpcError::decode(&serde_json::Value::Null).is_none());
}

#[test]
fn read_reply_reads_a_parsed_document() {
    let document: serde_json::Value =
        serde_json::from_str(&format!(r#"{{"id":1,"result":[{}]}}"#, ENTRY)).unwrap();
    let posts = read_reply::<ResponseGetDiscussionsByBlog>(&document).unwrap();
    assert_eq!(posts.0[0].category, "dtube");
    let document: serde_json::Value = serde_json::from_str(r#"{"id":1,"other":2}"#).unwrap();
    assert!(matches!(
        read_reply::<ResponseGetDiscussionsByBlog>(&document),
        Err(ApiError::UnexpectedResponse)
    ));
}

#[test]
fn frame_puts_the_parts_in_their_places() {
    assert_eq!(
        frame("V", "M", "A", "N", "P"),
        r#"{"jsonrpc":V,"id":0,"method":M,"params":[A,N,P]}"#
    );
    assert_eq!(
        frame("\"2.0\"", "\"call\"", "\"api\"", "\"name\"", "[]"),
        r#"{"jsonrpc":"2.0","id":0,"method":"call","params":["api","name",[]]}"#
    );
    assert_eq!(frame("", "", "", "", ""), r#"{"jsonrpc":,"id":0,"method":,"params":[,,]}"#);
}

#[test]
fn push_request_appends_one_object() {
    let mut out = String::from("x");
    push_request(&mut out, 100, "\"phc\"");
    assert_eq!(out, r#"x{"limit":100,"tag":"phc"}"#);
    push_request(&mut out, -5, "T");
    assert_eq!(out, r#"x{"limit":100,"tag":"phc"}{"limit":-5,"tag":T}"#);
}

#[test]
fn settle_prefers_the_result() {
    let error = || RpcError { code: 3, message: "m".to_string(), data: None };
    assert_eq!(settle(Some(1u8), Some(error())).unwrap(), 1);
    assert_eq!(settle(Some(2u8), None).unwrap(), 2);
    match settle::<u8>(None, Some(error())) {
        Err(ApiError::Rpc(e)) => {
            assert_eq!(e.code, 3);
            assert_eq!(e.message, "m");
            assert_eq!(e.data, None);
        }
        other => panic!("unexpected: {:?}", other),
    }
    assert!(matches!(settle::<u8>(None, None), Err(ApiError::UnexpectedResponse)));
}

#[test]
fn from_parts_checks_the_range_of_the_id() {
    let made = |id: i64| {
        ResponseGetDiscussionsByBlogEntry::from_parts(
            id,
            "a".to_string(),
            "p".to_string(),
            "b".to_string(),
            "j".to_string(),
            "c".to_string(),
        )
    };
    let entry = made(5).unwrap();
    assert_eq!(entry.id, 5);
    assert_eq!(entry.author, "a");
    assert_eq!(entry.permlink, "p");
    assert_eq!(entry.body, "b");
    assert_eq!(entry.json_metadata, "j");
    assert_eq!(entry.category, "c");
    assert_eq!(made(2147483647).unwrap().id, i32::MAX);
    assert_eq!(made(-2147483648).unwrap().id, i32::MIN);
    assert!(made(2147483648).is_none());
    assert!(made(-2147483649).is_none());
    assert!(made(i64::MAX).is_none());
    assert!(made(i64::MIN).is_none());
}
