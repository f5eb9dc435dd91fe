//! The response interpreter: classifies a response body by its content type
//! — JSON only where the `content-type` header value starts, case-insensitively,
//! with `application/json` — and runs the declared extractors against the
//! parsed body to produce new variables.

use vstd::prelude::*;
use crate::json::{Json, JsonV, parse_json, spec_parse_json};
use crate::path::{PathSeg, parse_path, spec_parse_path, spec_extract, segs_view, extract_first};
use crate::request::{Request, pairs_view};
use crate::text::{eq_ignore_ascii_case, spec_eq_ignore_ascii_case, starts_with_ignore_ascii_case,
    spec_starts_with_ignore_ascii_case};

verus! {

/// The execution record of one request: status, timings, response headers,
/// the raw body text, and the variables the extractors produced.
#[derive(Debug, PartialEq, Eq)]
pub struct Response {
    pub status_code: u16,
    /// Milliseconds from send to the response headers.
    pub time_to_headers_ms: u64,
    /// Milliseconds from send to the end of the body.
    pub time_total_ms: u64,
    pub headers: Vec<(String, String)>,
    pub body: String,
    /// What the extractors produced: a name maps to `None` where its path
    /// matched nothing, and the map is empty for a non-JSON response.
    pub extracted_variables: Vec<(String, Option<String>)>,
}

/// Why interpreting a response failed.
#[derive(Debug, PartialEq, Eq)]
pub enum InterpretError {
    /// The content type declares JSON and the body does not parse as JSON.
    MalformedJson,
    /// An extractor declares a path expression that is not well-formed: a
    /// configuration error, named by extractor and path.
    InvalidPath { name: String, path: String },
}

/// The view of a list of extracted bindings.
pub open spec fn bindings_view(s: Seq<(String, Option<String>)>) -> Seq<
    (Seq<char>, Option<Seq<char>>),
> {
    s.map_values(|b: (String, Option<String>)| (b.0@, b.1.deep_view()))
}

/// The value of the first header of that name, matched without regard to
/// ASCII case.
pub open spec fn spec_find_header(hs: Seq<(Seq<char>, Seq<char>)>, name: Seq<char>) -> Option<
    Seq<char>,
>
    decreases hs.len(),
{
    if hs.len() == 0 {
        None
    } else if spec_eq_ignore_ascii_case(hs[0].0, name) {
        Some(hs[0].1)
    } else {
        spec_find_header(hs.drop_first(), name)
    }
}

proof fn lemma_find_header_at(hs: Seq<(Seq<char>, Seq<char>)>, name: Seq<char>, t: int)
    requires
        0 <= t < hs.len(),
        spec_eq_ignore_ascii_case(hs[t].0, name),
        forall|u: int| 0 <= u < t ==> !spec_eq_ignore_ascii_case(#[trigger] hs[u].0, name),
    ensures
        spec_find_header(hs, name) == Some(hs[t].1),
    decreases t,
{
    if t > 0 {
        assert(hs.drop_first()[t - 1] == hs[t]);
        lemma_find_header_at(hs.drop_first(), name, t - 1);
    }
}

proof fn lemma_find_header_absent(hs: Seq<(Seq<char>, Seq<char>)>, name: Seq<char>)
    requires
        forall|u: int| 0 <= u < hs.len() ==> !spec_eq_ignore_ascii_case(#[trigger] hs[u].0, name),
    ensures
        spec_find_header(hs, name) is None,
    decreases hs.len(),
{
    if hs.len() > 0 {
        lemma_find_header_absent(hs.drop_first(), name);
    }
}

/// Whether the headers declare a JSON body: the first `content-type` header's
/// value starts, case-insensitively, with `application/json`. Every other
/// content type — and a missing one — is opaque text.
pub open spec fn spec_is_json(hs: Seq<(Seq<char>, Seq<char>)>) -> bool {
    match spec_find_header(hs, "content-type"@) {
        Some(v) => spec_starts_with_ignore_ascii_case(v, "application/json"@),
        None => false,
    }
}

/// Decides whether the headers declare a JSON body.
pub fn content_type_is_json(headers: &Vec<(String, String)>) -> (r: bool)
    ensures
        r == spec_is_json(pairs_view(headers@)),
{
    let ghost hv = pairs_view(headers@);
    let n = headers.len();
    let mut i: usize = 0;
    while i < n
        invariant
            hv == pairs_view(headers@),
            n == headers@.len(),
            i <= n,
            hv.len() == n,
            forall|u: int| 0 <= u < n ==> hv[u] == (headers@[u].0@, headers@[u].1@),
            forall|u: int|
                0 <= u < i ==> !spec_eq_ignore_ascii_case(#[trigger] hv[u].0, "content-type"@),
        decreases n - i,
    {
        if eq_ignore_ascii_case(headers[i].0.as_str(), "content-type") {
            proof {
                lemma_find_header_at(hv, "content-type"@, i as int);
            }
            return starts_with_ignore_ascii_case(headers[i].1.as_str(), "application/json");
        }
        i += 1;
    }
    proof {
        lemma_find_header_absent(hv, "content-type"@);
    }
    false
}

/// The extractor declarations of a template, empty where none are declared.
pub open spec fn spec_extractors_of(t: crate::request::RequestV) -> Seq<(Seq<char>, Seq<char>)> {
    match t.extractors {
        Some(e) => e,
        None => Seq::empty(),
    }
}

/// The bindings the extractors from `i` on produce against the JSON value
/// `jv`, in declaration order: each extractor binds its name to the first
/// match of its path, or to `None` where the path matches nothing. `None`
/// as a whole where some path expression is malformed.
pub open spec fn spec_run_extractors(
    ex: Seq<(Seq<char>, Seq<char>)>,
    i: int,
    jv: JsonV,
) -> Option<Seq<(Seq<char>, Option<Seq<char>>)>>
    decreases ex.len() - i,
{
    if i < 0 || i >= ex.len() {
        Some(Seq::empty())
    } else {
        match spec_parse_path(ex[i].1) {
            None => None,
            Some(segs) => match spec_run_extractors(ex, i + 1, jv) {
                Some(rest) => Some(seq![(ex[i].0, spec_extract(jv, segs))] + rest),
                None => None,
            },
        }
    }
}

/// Runs the template's extractors against a parsed JSON body.
fn run_extractors(req: &Request, json: &Json) -> (r: Result<
    Vec<(String, Option<String>)>,
    InterpretError,
>)
    ensures
        r is Ok <==> spec_run_extractors(spec_extractors_of(req@), 0, json@) is Some,
        r matches Ok(out) ==> bindings_view(out@) == spec_run_extractors(
            spec_extractors_of(req@),
            0,
            json@,
        )->0,
        r matches Err(e) ==> e matches InterpretError::InvalidPath { name, path } && exists|j: int|
            0 <= j < spec_extractors_of(req@).len() && #[trigger] spec_extractors_of(req@)[j] == (
            name@,
            path@,
            ) && spec_parse_path(path@) is None,
{
    let ghost exv = spec_extractors_of(req@);
    let mut out: Vec<(String, Option<String>)> = Vec::new();
    match &req.extractors {
        None => {
            proof {
                assert(bindings_view(out@) =~= Seq::<(Seq<char>, Option<Seq<char>>)>::empty());
            }
            Ok(out)
        },
        Some(ex) => {
            let n = ex.len();
            let mut i: usize = 0;
            proof {
                assert(bindings_view(out@) =~= Seq::<(Seq<char>, Option<Seq<char>>)>::empty());
            }
            while i < n
                invariant
                    req@.extractors == Some(pairs_view(ex@)),
                    exv == spec_extractors_of(req@),
                    exv == pairs_view(ex@),
                    n == ex@.len(),
                    i <= n,
                    exv.len() == n,
                    forall|u: int| 0 <= u < n ==> exv[u] == (ex@[u].0@, ex@[u].1@),
                    spec_run_extractors(exv, i as int, json@) is Some ==> (spec_run_extractors(
                        exv,
                        0,
                        json@,
                    ) is Some && spec_run_extractors(exv, 0, json@)->0 == bindings_view(out@)
                        + spec_run_extractors(exv, i as int, json@)->0),
                    spec_run_extractors(exv, i as int, json@) is None ==> spec_run_extractors(
                        exv,
                        0,
                        json@,
                    ) is None,
                decreases n - i,
            {
                let name = &ex[i].0;
                let path = &ex[i].1;
                let ghost pre = out@;
                match parse_path(path.as_str()) {
                    None => {
                        return Err(
                            InterpretError::InvalidPath { name: name.clone(), path: path.clone() },
                        );
                    },
                    Some(segs) => {
                        let value = extract_first(json, &segs);
                        out.push((name.clone(), value));
                        proof {
                            let ghost entry = (
                                exv[i as int].0,
                                spec_extract(json@, segs_view(segs@)),
                            );
                            assert(bindings_view(out@) =~= bindings_view(pre).push(entry));
                            if spec_run_extractors(exv, i + 1, json@) is Some {
                                assert((bindings_view(pre) + seq![entry]) + spec_run_extractors(
                                    exv,
                                    i + 1,
                                    json@,
                                )->0 =~= bindings_view(pre) + (seq![entry] + spec_run_extractors(
                                    exv,
                                    i + 1,
                                    json@,
                                )->0));
                            }
                        }
                    },
                }
                i += 1;
            }
            proof {
                assert(spec_run_extractors(exv, n as int, json@) == Some(
                    Seq::<(Seq<char>, Option<Seq<char>>)>::empty(),
                ));
                assert(bindings_view(out@) + Seq::<(Seq<char>, Option<Seq<char>>)>::empty()
                    =~= bindings_view(out@));
            }
            Ok(out)
        },
    }
}


/// Whether interpreting succeeds: a non-JSON content type always does; a
/// JSON one needs a well-formed body and well-formed extractor paths.
pub open spec fn spec_interpret_ok(
    t: crate::request::RequestV,
    hv: Seq<(Seq<char>, Seq<char>)>,
    body: Seq<char>,
) -> bool {
    !spec_is_json(hv) || (spec_parse_json(body) is Some && spec_run_extractors(
        spec_extractors_of(t),
        0,
        spec_parse_json(body)->0,
    ) is Some)
}

/// The bindings a successful interpretation extracts: what the extractors
/// produce against the parsed JSON body, or nothing for an opaque body.
pub open spec fn spec_extracted_entries(
    t: crate::request::RequestV,
    hv: Seq<(Seq<char>, Seq<char>)>,
    body: Seq<char>,
) -> Seq<(Seq<char>, Option<Seq<char>>)> {
    if spec_is_json(hv) {
        spec_run_extractors(spec_extractors_of(t), 0, spec_parse_json(body)->0)->0
    } else {
        Seq::empty()
    }
}

/// Interprets the raw outcome of one request: classifies the body by content
/// type, parses it as JSON where the content type declares JSON — malformed
/// JSON is then a hard error — and runs the extractors. A non-JSON response
/// yields an empty extracted-variable map. The status code, timings, headers
/// and body text are carried through unchanged.
pub fn interpret_response(
    req: &Request,
    status_code: u16,
    time_to_headers_ms: u64,
    time_total_ms: u64,
    headers: Vec<(String, String)>,
    body: String,
) -> (r: Result<Response, InterpretError>)
    ensures
        r is Ok <==> spec_interpret_ok(req@, pairs_view(headers@), body@),
        r matches Ok(resp) ==> resp.status_code == status_code
            && resp.time_to_headers_ms == time_to_headers_ms && resp.time_total_ms == time_total_ms
            && resp.headers@ == headers@ && resp.body@ == body@,
        r matches Ok(resp) ==> bindings_view(resp.extracted_variables@) == spec_extracted_entries(
            req@,
            pairs_view(headers@),
            body@,
        ),
        r == Err::<Response, InterpretError>(InterpretError::MalformedJson) <==> (spec_is_json(
            pairs_view(headers@),
        ) && spec_parse_json(body@) is None),
        r matches Err(e) ==> e matches InterpretError::MalformedJson || (e
            matches InterpretError::InvalidPath { name, path } && exists|j: int|
            0 <= j < spec_extractors_of(req@).len() && #[trigger] spec_extractors_of(req@)[j] == (
            name@,
            path@,
            ) && spec_parse_path(path@) is None),
{
    let is_json = content_type_is_json(&headers);
    let extracted: Vec<(String, Option<String>)> = if is_json {
        match parse_json(body.as_str()) {
            None => {
                return Err(InterpretError::MalformedJson);
            },
            Some(json) => {
                match run_extractors(req, &json) {
                    Ok(out) => out,
                    Err(e) => {
                        return Err(e);
                    },
                }
            },
        }
    } else {
        let empty: Vec<(String, Option<String>)> = Vec::new();
        proof {
            assert(bindings_view(empty@) =~= Seq::<(Seq<char>, Option<Seq<char>>)>::empty());
        }
        empty
    };
    Ok(
        Response {
            status_code,
            time_to_headers_ms,
            time_total_ms,
            headers,
            body,
            extracted_variables: extracted,
        },
    )
}

} // verus!
