use climan::json::{json_text, Json};
use climan::model::{trim_text, Authentication, Body, Method, ParamValue};
use climan::path::{extract_first, parse_path, PathSeg};
use climan::request::{build_request, check_header_name, check_header_value, BuildError, Request};
use climan::subst::substitute;
use climan::vars::{parse_variables, WorkflowContext};

fn store(entries: Vec<(&str, Option<&str>)>) -> WorkflowContext {
    WorkflowContext::new(
        entries
            .into_iter()
            .map(|(k, v)| (k.to_string(), v.map(|s| s.to_string())))
            .collect(),
    )
}

#[test]
fn substitute_replaces_bound_variable() {
    let ctx = store(vec![("auth", Some("abc123"))]);
    assert_eq!(substitute("Bearer $auth", &ctx), "Bearer abc123");
}

#[test]
fn substitute_is_identity_on_unset_and_absent() {
    // Every reference names an unset or absent variable: the text is
    // unchanged, not erased.
    let ctx = store(vec![("known_but_unset", None)]);
    let template = "x=$known_but_unset y=$absent $ lone";
    assert_eq!(substitute(template, &ctx), template);
}

#[test]
fn substitute_mixes_literals_and_values() {
    let ctx = store(vec![("a", Some("1")), ("b", None)]);
    assert_eq!(substitute("$a-$b-$c-$a", &ctx), "1-$b-$c-1");
}

#[test]
fn substitute_empty_template() {
    let ctx = store(vec![]);
    assert_eq!(substitute("", &ctx), "");
}

#[test]
fn store_later_merge_overwrites() {
    let mut ctx = store(vec![("a", Some("1")), ("b", Some("2"))]);
    ctx.update(vec![
        ("b".to_string(), Some("3".to_string())),
        ("c".to_string(), None),
    ]);
    assert_eq!(ctx.get("a"), Some(Some("1".to_string())));
    assert_eq!(ctx.get("b"), Some(Some("3".to_string())));
    assert_eq!(ctx.get("c"), Some(None));
    assert_eq!(ctx.get("d"), None);
}

#[test]
fn store_new_dedups_later_wins() {
    let ctx = store(vec![("a", Some("1")), ("a", Some("2"))]);
    assert_eq!(ctx.get("a"), Some(Some("2".to_string())));
    assert_eq!(ctx.bindings().len(), 1);
}

#[test]
fn parse_variables_splits_on_equals() {
    let ctx = parse_variables(vec![
        "a=1".to_string(),
        "no_equals".to_string(),
        "empty=".to_string(),
        "x=y=z".to_string(),
    ]);
    assert_eq!(ctx.get("a"), Some(Some("1".to_string())));
    assert_eq!(ctx.get("no_equals"), None);
    assert_eq!(ctx.get("empty"), Some(Some("".to_string())));
    // the value stops at the second `=`
    assert_eq!(ctx.get("x"), Some(Some("y".to_string())));
}

#[test]
fn method_parse_is_case_insensitive() {
    assert_eq!(Method::parse("get"), Some(Method::Get));
    assert_eq!(Method::parse("GET"), Some(Method::Get));
    assert_eq!(Method::parse("Get"), Some(Method::Get));
    assert_eq!(Method::parse("pAtCh"), Some(Method::Patch));
    assert_eq!(Method::parse("DELETE"), Some(Method::Delete));
    assert_eq!(Method::parse("head"), Some(Method::Head));
    assert_eq!(Method::parse("fetch"), None);
    assert_eq!(Method::Post.name(), "POST");
}

#[test]
fn trim_strips_both_ends() {
    assert_eq!(trim_text("  hello world\n\t"), "hello world");
    assert_eq!(trim_text("\r\n"), "");
    assert_eq!(trim_text("solid"), "solid");
    assert_eq!(trim_text(""), "");
}

#[test]
fn trim_strips_unicode_whitespace() {
    // the whole Unicode white-space set is stripped, not just ASCII
    assert_eq!(trim_text("\u{a0}x\u{a0}"), "x");
    assert_eq!(trim_text("\u{2028}\u{3000}y\u{85}\u{2009}"), "y");
    assert_eq!(trim_text("a\u{a0}b"), "a\u{a0}b");
}

#[test]
fn body_text_honors_trim_flag() {
    let b = Body::Content {
        content: "  x  ".to_string(),
        trim: Some(true),
    };
    assert_eq!(b.text(None), Some("x".to_string()));
    let b2 = Body::Content {
        content: "  x  ".to_string(),
        trim: None,
    };
    assert_eq!(b2.text(None), Some("  x  ".to_string()));
    // Unicode whitespace is stripped too: a non-breaking space goes
    let b3 = Body::Content {
        content: "\u{a0}x".to_string(),
        trim: Some(true),
    };
    assert_eq!(b3.text(None), Some("x".to_string()));
}

#[test]
fn body_file_decodes_bytes_lossily() {
    let b = Body::File {
        file: "ignored.bin".to_string(),
    };
    // valid UTF-8 passes through; an invalid byte becomes U+FFFD
    assert_eq!(b.text(Some(b"plain".to_vec())), Some("plain".to_string()));
    let lossy = b.text(Some(vec![0x68, 0x69, 0xFF])).unwrap();
    assert_eq!(lossy, "hi\u{fffd}");
    // a file body without content is unreadable
    assert_eq!(b.text(None), None);
}

#[test]
fn json_text_canonical_forms() {
    assert_eq!(json_text(&Json::Null), "null");
    assert_eq!(json_text(&Json::Bool(true)), "true");
    assert_eq!(json_text(&Json::Num("42".to_string())), "42");
    assert_eq!(json_text(&Json::Str("a\"b\\c\nd".to_string())), "\"a\\\"b\\\\c\\nd\"");
    assert_eq!(json_text(&Json::Str("\u{1}".to_string())), "\"\\u0001\"");
    let arr = Json::Arr(vec![Json::Num("1".to_string()), Json::Str("x".to_string()), Json::Null]);
    assert_eq!(json_text(&arr), "[1,\"x\",null]");
    let obj = Json::Obj(vec![
        ("a".to_string(), Json::Bool(false)),
        ("b".to_string(), Json::Arr(vec![])),
    ]);
    assert_eq!(json_text(&obj), "{\"a\":false,\"b\":[]}");
}

#[test]
fn parse_path_accepts_selectors() {
    assert_eq!(
        parse_path("$.token"),
        Some(vec![PathSeg::Child("token".to_string())])
    );
    assert_eq!(
        parse_path("$.a[2].b"),
        Some(vec![
            PathSeg::Child("a".to_string()),
            PathSeg::Index(2),
            PathSeg::Child("b".to_string()),
        ])
    );
    assert_eq!(
        parse_path("$['white space'][*].*"),
        Some(vec![
            PathSeg::Child("white space".to_string()),
            PathSeg::Wild,
            PathSeg::Wild,
        ])
    );
    assert_eq!(
        parse_path("$..token.id"),
        Some(vec![
            PathSeg::Desc("token".to_string()),
            PathSeg::Child("id".to_string()),
        ])
    );
    assert_eq!(parse_path("$"), Some(vec![]));
}

#[test]
fn parse_path_rejects_malformed() {
    assert_eq!(parse_path(""), None);
    assert_eq!(parse_path("token"), None);
    assert_eq!(parse_path("$."), None);
    assert_eq!(parse_path("$.."), None);
    assert_eq!(parse_path("$...a"), None);
    assert_eq!(parse_path("$[x]"), None);
    assert_eq!(parse_path("$[2"), None);
    assert_eq!(parse_path("$.a b"), Some(vec![PathSeg::Child("a b".to_string())]));
    assert_eq!(parse_path("$[9999999999]"), None);
}

#[test]
fn extract_unwraps_string_and_stringifies_rest() {
    let json = Json::Obj(vec![
        ("s".to_string(), Json::Str("abc".to_string())),
        ("n".to_string(), Json::Num("42".to_string())),
        (
            "o".to_string(),
            Json::Obj(vec![("k".to_string(), Json::Str("v".to_string()))]),
        ),
        ("arr".to_string(), Json::Arr(vec![Json::Num("1".to_string()), Json::Num("2".to_string())])),
    ]);
    let path_s = parse_path("$.s").unwrap();
    // a string match is unwrapped: no surrounding quotes
    assert_eq!(extract_first(&json, &path_s), Some("abc".to_string()));
    let path_n = parse_path("$.n").unwrap();
    assert_eq!(extract_first(&json, &path_n), Some("42".to_string()));
    let path_o = parse_path("$.o").unwrap();
    assert_eq!(extract_first(&json, &path_o), Some("{\"k\":\"v\"}".to_string()));
    let path_a = parse_path("$.arr").unwrap();
    assert_eq!(extract_first(&json, &path_a), Some("[1,2]".to_string()));
    let path_missing = parse_path("$.nothing").unwrap();
    assert_eq!(extract_first(&json, &path_missing), None);
}

#[test]
fn extract_takes_first_match_in_document_order() {
    let json = Json::Obj(vec![
        ("a".to_string(), Json::Arr(vec![])),
        ("b".to_string(), Json::Str("first".to_string())),
        ("c".to_string(), Json::Str("second".to_string())),
    ]);
    let wild = parse_path("$.*").unwrap();
    // the empty array matches but yields no deeper value only for deeper
    // selectors; `$.*` itself matches every member value: the first is []
    assert_eq!(extract_first(&json, &wild), Some("[]".to_string()));
    let deeper = parse_path("$.*[0]").unwrap();
    let json2 = Json::Obj(vec![
        ("a".to_string(), Json::Arr(vec![])),
        ("b".to_string(), Json::Arr(vec![Json::Str("hit".to_string())])),
        ("c".to_string(), Json::Arr(vec![Json::Str("later".to_string())])),
    ]);
    assert_eq!(extract_first(&json2, &deeper), Some("hit".to_string()));
}

#[test]
fn header_validation_rules() {
    assert!(check_header_name("Content-Type"));
    assert!(check_header_name("x_custom.1~"));
    assert!(!check_header_name(""));
    assert!(!check_header_name("bad header"));
    assert!(!check_header_name("bad:header"));
    assert!(check_header_value("text/plain; charset=utf-8"));
    assert!(check_header_value("tab\tok"));
    // anything from space upward is carried through, non-ASCII included
    assert!(check_header_value("non-ascii caf\u{e9}"));
    assert!(!check_header_value("ctrl\u{1}char"));
    assert!(!check_header_value("del\u{7f}char"));
    assert!(!check_header_value("newline\nchar"));
}

#[test]
fn build_resolves_every_field() {
    let ctx = store(vec![
        ("host", Some("example.test")),
        ("tok", Some("abc")),
        ("who", Some("alice")),
    ]);
    let req = Request {
        name: "step".to_string(),
        uri: "http://$host/x".to_string(),
        method: Method::Post,
        query_params: Some(vec![
            ("q".to_string(), ParamValue::StringParam("$tok".to_string())),
            ("n".to_string(), ParamValue::NumberParam("1.5".to_string())),
            ("b".to_string(), ParamValue::BoolParam(true)),
        ]),
        headers: Some(vec![(
            "Authorization".to_string(),
            "Bearer $tok".to_string(),
        )]),
        body: Some(Body::Content {
            content: " hi $who ".to_string(),
            trim: Some(true),
        }),
        authentication: Some(Authentication::Basic {
            username: "$who".to_string(),
            password: Some("$tok".to_string()),
        }),
        extractors: None,
    };
    let ctx_built = build_request(&req, &ctx, None).unwrap();
    assert_eq!(ctx_built.uri, "http://example.test/x");
    assert_eq!(ctx_built.method, Method::Post);
    assert_eq!(
        ctx_built.query_params,
        vec![
            ("q".to_string(), "abc".to_string()),
            ("n".to_string(), "1.5".to_string()),
            ("b".to_string(), "true".to_string()),
        ]
    );
    assert_eq!(
        ctx_built.headers,
        vec![("Authorization".to_string(), "Bearer abc".to_string())]
    );
    assert_eq!(ctx_built.body, Some("hi alice".to_string()));
    assert_eq!(
        ctx_built.authentication,
        Some(Authentication::Basic {
            username: "alice".to_string(),
            password: Some("abc".to_string()),
        })
    );
}

#[test]
fn list_param_expands_in_order() {
    // a list of length three expands to exactly three entries under the
    // same key, in list order
    let ctx = store(vec![]);
    let req = Request {
        name: "s".to_string(),
        uri: "http://h/".to_string(),
        method: Method::Get,
        query_params: Some(vec![(
            "k".to_string(),
            ParamValue::ListParam(vec![
                Json::Num("1".to_string()),
                Json::Str("two".to_string()),
                Json::Bool(false),
            ]),
        )]),
        headers: None,
        body: None,
        authentication: None,
        extractors: None,
    };
    let built = build_request(&req, &ctx, None).unwrap();
    assert_eq!(
        built.query_params,
        vec![
            ("k".to_string(), "1".to_string()),
            ("k".to_string(), "\"two\"".to_string()),
            ("k".to_string(), "false".to_string()),
        ]
    );
}

#[test]
fn build_rejects_bad_header_name() {
    let ctx = store(vec![]);
    let req = Request {
        name: "s".to_string(),
        uri: "http://h/".to_string(),
        method: Method::Get,
        query_params: None,
        headers: Some(vec![("bad header".to_string(), "v".to_string())]),
        body: None,
        authentication: None,
        extractors: None,
    };
    assert_eq!(
        build_request(&req, &ctx, None),
        Err(BuildError::InvalidHeaderName {
            name: "bad header".to_string()
        })
    );
}

#[test]
fn build_rejects_bad_header_value_after_substitution() {
    let ctx = store(vec![("v", Some("with\u{1}ctrl"))]);
    let req = Request {
        name: "s".to_string(),
        uri: "http://h/".to_string(),
        method: Method::Get,
        query_params: None,
        headers: Some(vec![("x-k".to_string(), "$v".to_string())]),
        body: None,
        authentication: None,
        extractors: None,
    };
    assert_eq!(
        build_request(&req, &ctx, None),
        Err(BuildError::InvalidHeaderValue {
            name: "x-k".to_string(),
            value: "with\u{1}ctrl".to_string()
        })
    );
}

#[test]
fn build_rejects_unreadable_body_file() {
    let ctx = store(vec![]);
    let req = Request {
        name: "s".to_string(),
        uri: "http://h/".to_string(),
        method: Method::Get,
        query_params: None,
        headers: None,
        body: Some(Body::File {
            file: "data.bin".to_string(),
        }),
        authentication: None,
        extractors: None,
    };
    assert_eq!(
        build_request(&req, &ctx, None),
        Err(BuildError::UnreadableBodyFile {
            file: "data.bin".to_string()
        })
    );
}

#[test]
fn substitute_handles_edge_positions() {
    let ctx = store(vec![("a", Some("X"))]);
    assert_eq!(substitute("$a", &ctx), "X");
    assert_eq!(substitute("end $a", &ctx), "end X");
    assert_eq!(substitute("$a$a", &ctx), "XX");
    assert_eq!(substitute("cash: $", &ctx), "cash: $");
    assert_eq!(substitute("$-", &ctx), "$-");
    // names stop at the first non-name character
    assert_eq!(substitute("$a.b", &ctx), "X.b");
}

#[test]
fn descent_finds_nested_members_in_document_order() {
    // `..token`: the match at the value itself comes before any deeper one
    let json = Json::Obj(vec![
        ("token".to_string(), Json::Str("outer".to_string())),
        (
            "auth".to_string(),
            Json::Obj(vec![("token".to_string(), Json::Str("inner".to_string()))]),
        ),
    ]);
    let path = parse_path("$..token").unwrap();
    assert_eq!(extract_first(&json, &path), Some("outer".to_string()));

    // without a match at the root, the first deeper match wins, walking
    // members in order and arrays element by element
    let deep = Json::Obj(vec![
        ("a".to_string(), Json::Arr(vec![Json::Null, Json::Obj(vec![(
            "token".to_string(),
            Json::Str("in array".to_string()),
        )])])),
        (
            "b".to_string(),
            Json::Obj(vec![("token".to_string(), Json::Str("later".to_string()))]),
        ),
    ]);
    assert_eq!(extract_first(&deep, &path), Some("in array".to_string()));

    // descent composes with further selectors
    let composed = parse_path("$..pair[1]").unwrap();
    let doc = Json::Obj(vec![(
        "x".to_string(),
        Json::Obj(vec![(
            "pair".to_string(),
            Json::Arr(vec![Json::Num("1".to_string()), Json::Num("2".to_string())]),
        )]),
    )]);
    assert_eq!(extract_first(&doc, &composed), Some("2".to_string()));

    // no member of that name anywhere: no match
    let empty = parse_path("$..absent").unwrap();
    assert_eq!(extract_first(&json, &empty), None);
}
