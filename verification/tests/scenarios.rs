use climan::codec::{decode_request, encode_request};
use climan::json::{json_text, Json};
use climan::model::{Authentication, Body, Method, ParamValue};
use climan::request::{Request, RequestContext};
use climan::response::{interpret_response, InterpretError, Response};
use climan::vars::WorkflowContext;
use climan::workflow::{
    Phase, StepEvent, Workflow, WorkflowError, WorkflowExec, WorkflowObserver, WorkflowOutcome,
};

struct SilentObserver;

impl WorkflowObserver for SilentObserver {
    fn before_send(&mut self, _r: &Request, _c: &RequestContext, _v: &WorkflowContext) {}
    fn after_receive(&mut self, _r: &Request, _c: &RequestContext, _resp: &Response) {}
}

struct CountingObserver {
    sends: usize,
    receives: usize,
}

impl WorkflowObserver for CountingObserver {
    fn before_send(&mut self, _r: &Request, _c: &RequestContext, _v: &WorkflowContext) {
        self.sends += 1;
    }
    fn after_receive(&mut self, _r: &Request, _c: &RequestContext, _resp: &Response) {
        self.receives += 1;
    }
}

fn get_request(name: &str, uri: &str) -> Request {
    Request {
        name: name.to_string(),
        uri: uri.to_string(),
        method: Method::Get,
        query_params: None,
        headers: None,
        body: None,
        authentication: None,
        extractors: None,
    }
}

fn delivered(status: u16, content_type: &str, body: &str) -> StepEvent {
    StepEvent::Delivered {
        status_code: status,
        time_to_headers_ms: 1,
        time_total_ms: 2,
        headers: vec![("content-type".to_string(), content_type.to_string())],
        body: body.to_string(),
    }
}

#[test]
fn interpret_ignores_non_json_bodies() {
    let req = get_request("s", "http://h/");
    let resp = interpret_response(
        &req,
        200,
        1,
        2,
        vec![("content-type".to_string(), "text/plain".to_string())],
        "not json {{{".to_string(),
    )
    .unwrap();
    assert_eq!(resp.status_code, 200);
    assert_eq!(resp.body, "not json {{{");
    assert!(resp.extracted_variables.is_empty());
}

#[test]
fn interpret_rejects_malformed_json() {
    let req = get_request("s", "http://h/");
    let r = interpret_response(
        &req,
        200,
        1,
        2,
        vec![("Content-Type".to_string(), "Application/JSON; charset=utf-8".to_string())],
        "{not json".to_string(),
    );
    assert_eq!(r, Err(InterpretError::MalformedJson));
}

#[test]
fn interpret_rejects_invalid_path() {
    let mut req = get_request("s", "http://h/");
    req.extractors = Some(vec![("x".to_string(), "no dollar".to_string())]);
    let r = interpret_response(
        &req,
        200,
        1,
        2,
        vec![("content-type".to_string(), "application/json".to_string())],
        "{}".to_string(),
    );
    assert_eq!(
        r,
        Err(InterpretError::InvalidPath {
            name: "x".to_string(),
            path: "no dollar".to_string()
        })
    );
}

#[test]
fn interpret_extracts_variables() {
    let mut req = get_request("s", "http://h/");
    req.extractors = Some(vec![
        ("tok".to_string(), "$.token".to_string()),
        ("n".to_string(), "$.count".to_string()),
        ("missing".to_string(), "$.absent".to_string()),
    ]);
    let resp = interpret_response(
        &req,
        200,
        1,
        2,
        vec![("content-type".to_string(), "application/json".to_string())],
        "{\"token\": \"abc123\", \"count\": 7}".to_string(),
    )
    .unwrap();
    assert_eq!(
        resp.extracted_variables,
        vec![
            ("tok".to_string(), Some("abc123".to_string())),
            ("n".to_string(), Some("7".to_string())),
            // a path that matches nothing records the name as present but
            // unset, not omitted
            ("missing".to_string(), None),
        ]
    );
}

#[test]
fn workflow_threads_token_into_second_step() {
    // step 1 logs in and extracts the token; step 2 carries it as a header
    let mut login = get_request("login", "http://server/login");
    login.extractors = Some(vec![("auth".to_string(), "$.token".to_string())]);
    let mut secure = get_request("secure", "http://server/secure");
    secure.headers = Some(vec![(
        "Authorization".to_string(),
        "Bearer $auth".to_string(),
    )]);
    let workflow = Workflow {
        name: "w".to_string(),
        requests: vec![login, secure],
    };
    let mut obs = CountingObserver { sends: 0, receives: 0 };
    let mut exec = WorkflowExec::new(workflow, WorkflowContext::new(vec![]));

    assert!(exec.prepare(None, &mut obs));
    assert_eq!(exec.pending_request().uri, "http://server/login");
    exec.feed(
        delivered(200, "application/json", "{\"token\":\"abc123\"}"),
        &mut obs,
    );
    assert_eq!(exec.phase(), Phase::Ready);

    assert!(exec.prepare(None, &mut obs));
    assert_eq!(
        exec.pending_request().headers,
        vec![("Authorization".to_string(), "Bearer abc123".to_string())]
    );
    exec.feed(delivered(200, "text/plain", "ok"), &mut obs);
    assert!(exec.done());
    assert_eq!(obs.sends, 2);
    assert_eq!(obs.receives, 2);

    match exec.outcome() {
        WorkflowOutcome::Completed(result) => {
            assert_eq!(result.responses.len(), 2);
            assert_eq!(
                result.final_variables.get("auth"),
                Some(Some("abc123".to_string()))
            );
        }
        WorkflowOutcome::Aborted { .. } => panic!("workflow should complete"),
    }
}

#[test]
fn non_success_status_aborts_after_one_response() {
    // step 1 answers 500: the result is aborted after exactly one response
    // and step 2 is never attempted
    let step1 = get_request("first", "http://server/a");
    let step2 = get_request("second", "http://server/b");
    let workflow = Workflow {
        name: "w".to_string(),
        requests: vec![step1, step2],
    };
    let mut obs = CountingObserver { sends: 0, receives: 0 };
    let mut exec = WorkflowExec::new(workflow, WorkflowContext::new(vec![]));
    assert!(exec.prepare(None, &mut obs));
    exec.feed(delivered(500, "text/plain", "boom"), &mut obs);
    assert_eq!(exec.phase(), Phase::Aborted);
    assert!(exec.done());
    assert_eq!(obs.sends, 1);
    match exec.outcome() {
        WorkflowOutcome::Aborted { responses, error } => {
            assert_eq!(responses.len(), 1);
            assert_eq!(responses[0].status_code, 500);
            assert_eq!(error, WorkflowError::UnexpectedStatus(500));
        }
        WorkflowOutcome::Completed(_) => panic!("workflow should abort"),
    }
}

#[test]
fn final_store_is_initial_merged_with_extractions_in_order() {
    // two successful steps both extract `v`: the later one wins; the
    // initial binding of `w` survives
    let mut s1 = get_request("one", "http://server/1");
    s1.extractors = Some(vec![("v".to_string(), "$.a".to_string())]);
    let mut s2 = get_request("two", "http://server/2");
    s2.extractors = Some(vec![("v".to_string(), "$.b".to_string())]);
    let workflow = Workflow {
        name: "w".to_string(),
        requests: vec![s1, s2],
    };
    let initial = WorkflowContext::new(vec![
        ("w".to_string(), Some("keep".to_string())),
        ("v".to_string(), Some("seed".to_string())),
    ]);
    let mut obs = SilentObserver;
    let mut exec = WorkflowExec::new(workflow, initial);
    assert!(exec.prepare(None, &mut obs));
    exec.feed(delivered(201, "application/json", "{\"a\":\"first\"}"), &mut obs);
    assert!(exec.prepare(None, &mut obs));
    exec.feed(delivered(299, "application/json", "{\"b\":\"second\"}"), &mut obs);
    assert!(exec.done());
    match exec.outcome() {
        WorkflowOutcome::Completed(result) => {
            assert_eq!(result.final_variables.get("w"), Some(Some("keep".to_string())));
            assert_eq!(result.final_variables.get("v"), Some(Some("second".to_string())));
        }
        WorkflowOutcome::Aborted { .. } => panic!("workflow should complete"),
    }
}

#[test]
fn transport_failure_aborts_without_a_record() {
    let workflow = Workflow {
        name: "w".to_string(),
        requests: vec![get_request("only", "http://server/x")],
    };
    let mut obs = SilentObserver;
    let mut exec = WorkflowExec::new(workflow, WorkflowContext::new(vec![]));
    assert!(exec.prepare(None, &mut obs));
    exec.feed(
        StepEvent::Failed {
            message: "connection refused".to_string(),
        },
        &mut obs,
    );
    match exec.outcome() {
        WorkflowOutcome::Aborted { responses, error } => {
            assert_eq!(responses.len(), 0);
            assert_eq!(
                error,
                WorkflowError::Transport("connection refused".to_string())
            );
        }
        WorkflowOutcome::Completed(_) => panic!("workflow should abort"),
    }
}

#[test]
fn build_failure_aborts_the_workflow() {
    let mut bad = get_request("bad", "http://server/x");
    bad.headers = Some(vec![("no spaces allowed".to_string(), "v".to_string())]);
    let workflow = Workflow {
        name: "w".to_string(),
        requests: vec![bad],
    };
    let mut obs = SilentObserver;
    let mut exec = WorkflowExec::new(workflow, WorkflowContext::new(vec![]));
    assert!(!exec.prepare(None, &mut obs));
    assert_eq!(exec.phase(), Phase::Aborted);
    match exec.outcome() {
        WorkflowOutcome::Aborted { responses, error } => {
            assert_eq!(responses.len(), 0);
            assert!(matches!(error, WorkflowError::Build(_)));
        }
        WorkflowOutcome::Completed(_) => panic!("workflow should abort"),
    }
}

#[test]
fn extraction_failure_aborts_the_workflow() {
    let mut s = get_request("s", "http://server/x");
    s.extractors = Some(vec![("x".to_string(), "$.a".to_string())]);
    let workflow = Workflow {
        name: "w".to_string(),
        requests: vec![s],
    };
    let mut obs = SilentObserver;
    let mut exec = WorkflowExec::new(workflow, WorkflowContext::new(vec![]));
    assert!(exec.prepare(None, &mut obs));
    exec.feed(delivered(200, "application/json", "{broken"), &mut obs);
    match exec.outcome() {
        WorkflowOutcome::Aborted { responses, error } => {
            assert_eq!(responses.len(), 0);
            assert_eq!(error, WorkflowError::Interpret(InterpretError::MalformedJson));
        }
        WorkflowOutcome::Completed(_) => panic!("workflow should abort"),
    }
}

#[test]
fn file_body_is_read_per_execution() {
    let mut s = get_request("s", "http://server/upload");
    s.method = Method::Put;
    s.body = Some(Body::File {
        file: "payload.txt".to_string(),
    });
    let workflow = Workflow {
        name: "w".to_string(),
        requests: vec![s],
    };
    let mut obs = SilentObserver;
    let mut exec = WorkflowExec::new(workflow, WorkflowContext::new(vec![]));
    assert_eq!(exec.next_body_file(), Some("payload.txt".to_string()));
    assert!(exec.prepare(Some(b"file bytes".to_vec()), &mut obs));
    assert_eq!(exec.pending_request().body, Some("file bytes".to_string()));
}

#[test]
fn document_form_round_trips_through_text() {
    let req = Request {
        name: "login".to_string(),
        uri: "http://$host/login".to_string(),
        method: Method::Post,
        query_params: Some(vec![
            ("debug".to_string(), ParamValue::BoolParam(true)),
            (
                "ids".to_string(),
                ParamValue::ListParam(vec![
                    Json::Num("1".to_string()),
                    Json::Num("2".to_string()),
                ]),
            ),
        ]),
        headers: Some(vec![("Accept".to_string(), "application/json".to_string())]),
        body: Some(Body::Content {
            content: "user=$who".to_string(),
            trim: None,
        }),
        authentication: Some(Authentication::Bearer {
            token: "$tok".to_string(),
        }),
        extractors: Some(vec![("auth".to_string(), "$.token".to_string())]),
    };
    let doc = encode_request(&req);
    let text = json_text(&doc);
    assert_eq!(
        text,
        "{\"name\":\"login\",\"uri\":\"http://$host/login\",\"method\":\"POST\",\
         \"queryParams\":{\"debug\":true,\"ids\":[1,2]},\
         \"headers\":{\"Accept\":\"application/json\"},\
         \"body\":{\"content\":\"user=$who\"},\
         \"authentication\":{\"type\":\"bearer\",\"token\":\"$tok\"},\
         \"extractors\":{\"auth\":\"$.token\"}}"
    );
    // the document text survives a real parse: pull fields back out of it
    // through the response interpreter, which parses JSON bodies
    let mut probe = get_request("probe", "http://h/");
    probe.extractors = Some(vec![
        ("name".to_string(), "$.name".to_string()),
        ("method".to_string(), "$.method".to_string()),
        ("first_id".to_string(), "$.queryParams.ids[0]".to_string()),
        ("accept".to_string(), "$['headers']['Accept']".to_string()),
    ]);
    let resp = interpret_response(
        &probe,
        200,
        1,
        2,
        vec![("content-type".to_string(), "application/json".to_string())],
        text,
    )
    .unwrap();
    assert_eq!(
        resp.extracted_variables,
        vec![
            ("name".to_string(), Some("login".to_string())),
            ("method".to_string(), Some("POST".to_string())),
            ("first_id".to_string(), Some("1".to_string())),
            ("accept".to_string(), Some("application/json".to_string())),
        ]
    );
}

#[test]
fn document_form_decodes_back_to_the_template() {
    let req = Request {
        name: "upload".to_string(),
        uri: "http://$host/files".to_string(),
        method: Method::Put,
        query_params: Some(vec![(
            "tags".to_string(),
            ParamValue::ListParam(vec![Json::Str("a".to_string()), Json::Null]),
        )]),
        headers: None,
        body: Some(Body::File {
            file: "payload.bin".to_string(),
        }),
        authentication: Some(Authentication::Basic {
            username: "$user".to_string(),
            password: None,
        }),
        extractors: None,
    };
    let reloaded = decode_request(&encode_request(&req)).unwrap();
    assert_eq!(reloaded, req);
}

#[test]
fn decode_rejects_documents_of_the_wrong_shape() {
    assert_eq!(decode_request(&Json::Null), None);
    // a template document needs at least name, uri and a known method
    let missing_method = Json::Obj(vec![
        ("name".to_string(), Json::Str("x".to_string())),
        ("uri".to_string(), Json::Str("http://h/".to_string())),
    ]);
    assert_eq!(decode_request(&missing_method), None);
    let bad_method = Json::Obj(vec![
        ("name".to_string(), Json::Str("x".to_string())),
        ("uri".to_string(), Json::Str("http://h/".to_string())),
        ("method".to_string(), Json::Str("fetch".to_string())),
    ]);
    assert_eq!(decode_request(&bad_method), None);
    let minimal = Json::Obj(vec![
        ("name".to_string(), Json::Str("x".to_string())),
        ("uri".to_string(), Json::Str("http://h/".to_string())),
        ("method".to_string(), Json::Str("get".to_string())),
    ]);
    let decoded = decode_request(&minimal).unwrap();
    assert_eq!(decoded.method, Method::Get);
    assert_eq!(decoded.query_params, None);
}

#[test]
fn empty_workflow_completes_immediately() {
    let workflow = Workflow {
        name: "empty".to_string(),
        requests: vec![],
    };
    let exec = WorkflowExec::new(
        workflow,
        WorkflowContext::new(vec![("seed".to_string(), Some("v".to_string()))]),
    );
    assert!(exec.done());
    match exec.outcome() {
        WorkflowOutcome::Completed(result) => {
            assert_eq!(result.responses.len(), 0);
            assert_eq!(result.final_variables.get("seed"), Some(Some("v".to_string())));
        }
        WorkflowOutcome::Aborted { .. } => panic!("an empty workflow completes"),
    }
}
