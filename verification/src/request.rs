//! The request template — the declarative description of one HTTP call —
//! and the request builder, which resolves a template against a variable
//! store into a concrete, ready-to-send request.

use vstd::prelude::*;
use vstd::string::StrSliceExecFns;
use crate::json::{Json, JsonV, json_text, spec_json_text, json_arr_view, lemma_json_arr_view};
use crate::model::{Method, ParamValue, ParamValueV, Body, BodyV, Authentication, AuthenticationV,
    spec_body_text};
use crate::subst::{substitute, spec_subst};
use crate::vars::WorkflowContext;

verus! {

/// The declarative description of one HTTP call. `uri`, header values,
/// query values, body content and authentication fields are substitution
/// targets; `name`, `method`, header names and extractor names and paths are
/// not.
#[derive(Debug, PartialEq, Eq)]
pub struct Request {
    /// The step's display name; not a substitution target.
    pub name: String,
    pub uri: String,
    pub method: Method,
    pub query_params: Option<Vec<(String, ParamValue)>>,
    pub headers: Option<Vec<(String, String)>>,
    pub body: Option<Body>,
    pub authentication: Option<Authentication>,
    /// Output-variable name to JSON-path expression, evaluated against a
    /// JSON response body.
    pub extractors: Option<Vec<(String, String)>>,
}

/// The mathematical model of a request template.
pub struct RequestV {
    pub name: Seq<char>,
    pub uri: Seq<char>,
    pub method: Method,
    pub query_params: Option<Seq<(Seq<char>, ParamValueV)>>,
    pub headers: Option<Seq<(Seq<char>, Seq<char>)>>,
    pub body: Option<BodyV>,
    pub authentication: Option<AuthenticationV>,
    pub extractors: Option<Seq<(Seq<char>, Seq<char>)>>,
}

/// The view of a list of string pairs.
pub open spec fn pairs_view(s: Seq<(String, String)>) -> Seq<(Seq<char>, Seq<char>)> {
    s.map_values(|p: (String, String)| (p.0@, p.1@))
}

/// The view of a list of query-parameter declarations.
pub open spec fn params_view(s: Seq<(String, ParamValue)>) -> Seq<(Seq<char>, ParamValueV)> {
    s.map_values(|p: (String, ParamValue)| (p.0@, p.1@))
}

impl View for Request {
    type V = RequestV;

    open spec fn view(&self) -> RequestV {
        RequestV {
            name: self.name@,
            uri: self.uri@,
            method: self.method,
            query_params: match self.query_params {
                Some(q) => Some(params_view(q@)),
                None => None,
            },
            headers: match self.headers {
                Some(h) => Some(pairs_view(h@)),
                None => None,
            },
            body: match self.body {
                Some(b) => Some(b@),
                None => None,
            },
            authentication: match self.authentication {
                Some(a) => Some(a@),
                None => None,
            },
            extractors: match self.extractors {
                Some(e) => Some(pairs_view(e@)),
                None => None,
            },
        }
    }
}

/// A fully resolved request: every templated field substituted, ready to
/// transmit. This is also what the observation hooks are shown, so observers
/// see the request exactly as transmitted.
#[derive(Debug, PartialEq, Eq)]
pub struct RequestContext {
    pub uri: String,
    pub method: Method,
    /// Resolved query entries, in declaration order; a list-valued parameter
    /// stands here as repeated entries sharing the key.
    pub query_params: Vec<(String, String)>,
    /// Resolved headers, in declaration order.
    pub headers: Vec<(String, String)>,
    pub body: Option<String>,
    /// Resolved authentication, fields substituted.
    pub authentication: Option<Authentication>,
}

/// The mathematical model of a resolved request.
pub struct RequestContextV {
    pub uri: Seq<char>,
    pub method: Method,
    pub query_params: Seq<(Seq<char>, Seq<char>)>,
    pub headers: Seq<(Seq<char>, Seq<char>)>,
    pub body: Option<Seq<char>>,
    pub authentication: Option<AuthenticationV>,
}

impl View for RequestContext {
    type V = RequestContextV;

    open spec fn view(&self) -> RequestContextV {
        RequestContextV {
            uri: self.uri@,
            method: self.method,
            query_params: pairs_view(self.query_params@),
            headers: pairs_view(self.headers@),
            body: match self.body {
                Some(b) => Some(b@),
                None => None,
            },
            authentication: match self.authentication {
                Some(a) => Some(a@),
                None => None,
            },
        }
    }
}

/// Why building a request failed.
#[derive(Debug, PartialEq, Eq)]
pub enum BuildError {
    /// A header name is empty or holds a character outside the HTTP token
    /// set.
    InvalidHeaderName { name: String },
    /// A header value holds a control character after substitution.
    InvalidHeaderValue { name: String, value: String },
    /// The body names a file and no file content was handed in.
    UnreadableBodyFile { file: String },
}

/// A character of an HTTP header-name token.
pub open spec fn is_tchar(c: char) -> bool {
    ('a' <= c && c <= 'z') || ('A' <= c && c <= 'Z') || ('0' <= c && c <= '9') || c == '!' || c
        == '#' || c == '$' || c == '%' || c == '&' || c == '\'' || c == '*' || c == '+' || c == '-'
        || c == '.' || c == '^' || c == '_' || c == '`' || c == '|' || c == '~'
}

/// A header name is a nonempty run of token characters.
pub open spec fn valid_header_name(s: Seq<char>) -> bool {
    s.len() > 0 && forall|i: int| 0 <= i < s.len() ==> is_tchar(#[trigger] s[i])
}

/// A header value holds no control character: horizontal tab and anything
/// from space upward is allowed, DEL is not.
pub open spec fn valid_header_value(s: Seq<char>) -> bool {
    forall|i: int|
        0 <= i < s.len() ==> (#[trigger] s[i] == '\t' || (' ' <= s[i] && s[i] != '\u{7f}'))
}

fn is_tchar_exec(c: char) -> (r: bool)
    ensures
        r == is_tchar(c),
{
    ('a' <= c && c <= 'z') || ('A' <= c && c <= 'Z') || ('0' <= c && c <= '9') || c == '!' || c
        == '#' || c == '$' || c == '%' || c == '&' || c == '\'' || c == '*' || c == '+' || c == '-'
        || c == '.' || c == '^' || c == '_' || c == '`' || c == '|' || c == '~'
}

/// Decides whether `s` is a well-formed header name.
pub fn check_header_name(s: &str) -> (r: bool)
    ensures
        r == valid_header_name(s@),
{
    let len = s.unicode_len();
    if len == 0 {
        return false;
    }
    let mut i: usize = 0;
    while i < len
        invariant
            i <= len,
            len == s@.len(),
            forall|j: int| 0 <= j < i ==> is_tchar(#[trigger] s@[j]),
        decreases len - i,
    {
        if !is_tchar_exec(s.get_char(i)) {
            return false;
        }
        i += 1;
    }
    true
}

/// Decides whether `s` is a well-formed header value.
pub fn check_header_value(s: &str) -> (r: bool)
    ensures
        r == valid_header_value(s@),
{
    let len = s.unicode_len();
    let mut i: usize = 0;
    while i < len
        invariant
            i <= len,
            len == s@.len(),
            forall|j: int|
                0 <= j < i ==> (#[trigger] s@[j] == '\t' || (' ' <= s@[j] && s@[j] != '\u{7f}')),
        decreases len - i,
    {
        let c = s.get_char(i);
        if !(c == '\t' || (' ' <= c && c != '\u{7f}')) {
            return false;
        }
        i += 1;
    }
    true
}

/// The text forms of one query-parameter value before substitution: one text
/// for a scalar, the canonical JSON text of each element for a list.
pub open spec fn spec_param_texts(v: ParamValueV) -> Seq<Seq<char>> {
    match v {
        ParamValueV::Str(s) => seq![s],
        ParamValueV::Num(s) => seq![s],
        ParamValueV::Bool(b) => seq![if b {
            "true"@
        } else {
            "false"@
        }],
        ParamValueV::List(items) => items.map_values(|j: JsonV| spec_json_text(j)),
    }
}

/// The resolved query entries one declared parameter contributes: each text
/// form substituted, every entry under the declared key, in order.
pub open spec fn spec_expand_param(
    k: Seq<char>,
    v: ParamValueV,
    m: Map<Seq<char>, Option<Seq<char>>>,
) -> Seq<(Seq<char>, Seq<char>)> {
    spec_param_texts(v).map_values(|t: Seq<char>| (k, spec_subst(t, m)))
}

/// The resolved query entries of the declared parameters from `i` on, in
/// declaration order.
pub open spec fn spec_resolve_query(
    params: Seq<(Seq<char>, ParamValueV)>,
    i: int,
    m: Map<Seq<char>, Option<Seq<char>>>,
) -> Seq<(Seq<char>, Seq<char>)>
    decreases params.len() - i,
{
    if i < 0 || i >= params.len() {
        Seq::empty()
    } else {
        spec_expand_param(params[i].0, params[i].1, m) + spec_resolve_query(params, i + 1, m)
    }
}

/// The resolved headers: names kept, each value substituted independently.
pub open spec fn spec_resolve_headers(
    headers: Seq<(Seq<char>, Seq<char>)>,
    m: Map<Seq<char>, Option<Seq<char>>>,
) -> Seq<(Seq<char>, Seq<char>)> {
    headers.map_values(|h: (Seq<char>, Seq<char>)| (h.0, spec_subst(h.1, m)))
}

/// The resolved authentication: every field substituted.
pub open spec fn spec_resolve_auth(
    a: AuthenticationV,
    m: Map<Seq<char>, Option<Seq<char>>>,
) -> AuthenticationV {
    match a {
        AuthenticationV::Basic { username, password } => AuthenticationV::Basic {
            username: spec_subst(username, m),
            password: match password {
                Some(p) => Some(spec_subst(p, m)),
                None => None,
            },
        },
        AuthenticationV::Bearer { token } => AuthenticationV::Bearer { token: spec_subst(token, m) },
    }
}

/// A list-valued query parameter of length M expands to exactly M resolved
/// query entries, all sharing the declared key, in list order.
pub proof fn lemma_list_param_expansion(
    k: Seq<char>,
    items: Seq<JsonV>,
    m: Map<Seq<char>, Option<Seq<char>>>,
)
    ensures
        spec_expand_param(k, ParamValueV::List(items), m).len() == items.len(),
        forall|u: int|
            0 <= u < items.len() ==> spec_expand_param(k, ParamValueV::List(items), m)[u] == (
            k,
            spec_subst(spec_json_text(items[u]), m),
            ),
{
}

/// The query entries of the template, empty where none are declared.
pub open spec fn spec_query_of(t: RequestV) -> Seq<(Seq<char>, ParamValueV)> {
    match t.query_params {
        Some(q) => q,
        None => Seq::empty(),
    }
}

/// The header declarations of the template, empty where none are declared.
pub open spec fn spec_headers_of(t: RequestV) -> Seq<(Seq<char>, Seq<char>)> {
    match t.headers {
        Some(h) => h,
        None => Seq::empty(),
    }
}

/// Whether the template builds successfully under the store and the file
/// content at hand: every resolved header must be well-formed, and a file
/// body must have its content.
pub open spec fn spec_build_ok(
    t: RequestV,
    m: Map<Seq<char>, Option<Seq<char>>>,
    file_content: Option<Seq<u8>>,
) -> bool {
    &&& forall|j: int|
        0 <= j < spec_headers_of(t).len() ==> valid_header_name(
            #[trigger] spec_headers_of(t)[j].0,
        )
    &&& forall|j: int|
        0 <= j < spec_headers_of(t).len() ==> valid_header_value(
            spec_subst(#[trigger] spec_headers_of(t)[j].1, m),
        )
    &&& match t.body {
        Some(b) => spec_body_text(b, file_content) is Some,
        None => true,
    }
}

/// The resolved request a successful build yields.
pub open spec fn spec_build_result(
    t: RequestV,
    m: Map<Seq<char>, Option<Seq<char>>>,
    file_content: Option<Seq<u8>>,
) -> RequestContextV {
    RequestContextV {
        uri: spec_subst(t.uri, m),
        method: t.method,
        query_params: spec_resolve_query(spec_query_of(t), 0, m),
        headers: spec_resolve_headers(spec_headers_of(t), m),
        body: match t.body {
            Some(b) => Some(spec_subst(spec_body_text(b, file_content)->0, m)),
            None => None,
        },
        authentication: match t.authentication {
            Some(a) => Some(spec_resolve_auth(a, m)),
            None => None,
        },
    }
}

/// Resolving a request is a pure function of the template, the store and the
/// body file content: equal inputs build equal resolved requests.
pub proof fn lemma_build_deterministic(
    t1: RequestV,
    t2: RequestV,
    m1: Map<Seq<char>, Option<Seq<char>>>,
    m2: Map<Seq<char>, Option<Seq<char>>>,
    f1: Option<Seq<u8>>,
    f2: Option<Seq<u8>>,
)
    requires
        t1 == t2,
        m1 == m2,
        f1 == f2,
    ensures
        spec_build_ok(t1, m1, f1) == spec_build_ok(t2, m2, f2),
        spec_build_result(t1, m1, f1) == spec_build_result(t2, m2, f2),
{
}

fn clone_opt_string(o: &Option<String>) -> (r: Option<String>)
    ensures
        r == *o,
{
    match o {
        Option::None => Option::None,
        Option::Some(s) => Option::Some(s.clone()),
    }
}

/// Resolves the authentication declaration under the store.
fn resolve_auth(a: &Authentication, context: &WorkflowContext) -> (r: Authentication)
    ensures
        r@ == spec_resolve_auth(a@, context@),
{
    match a {
        Authentication::Basic { username, password } => {
            let new_password = match password {
                Some(p) => Some(substitute(p.as_str(), context)),
                None => None,
            };
            Authentication::Basic {
                username: substitute(username.as_str(), context),
                password: new_password,
            }
        },
        Authentication::Bearer { token } => Authentication::Bearer {
            token: substitute(token.as_str(), context),
        },
    }
}

/// Builds the concrete request a template describes under the current store:
/// substitutes the URI, every query value, every header value, the body and
/// the authentication fields; header names are not substituted. Fails — and
/// only fails — on a malformed header name, a malformed resolved header
/// value, or a file body whose content is not at hand.
pub fn build_request(req: &Request, context: &WorkflowContext, file_content: Option<Vec<u8>>) -> (r:
    Result<RequestContext, BuildError>)
    ensures
        r is Ok <==> spec_build_ok(req@, context@, match file_content {
            Some(bytes) => Some(bytes@),
            None => None,
        }),
        r matches Ok(ctx) ==> ctx@ == spec_build_result(req@, context@, match file_content {
            Some(bytes) => Some(bytes@),
            None => None,
        }),
        r matches Err(BuildError::InvalidHeaderName { name }) ==> exists|j: int|
            0 <= j < spec_headers_of(req@).len() && #[trigger] spec_headers_of(req@)[j].0 == name@
                && !valid_header_name(name@),
        r matches Err(BuildError::InvalidHeaderValue { name, value }) ==> exists|j: int|
            0 <= j < spec_headers_of(req@).len() && #[trigger] spec_headers_of(req@)[j].0 == name@
                && value@ == spec_subst(spec_headers_of(req@)[j].1, context@)
                && !valid_header_value(value@),
        r matches Err(BuildError::UnreadableBodyFile { file }) ==> req@.body matches Some(b)
            && b matches BodyV::File { file: f } && f == file@ && file_content is None,
{
    let ghost m = context@;
    let ghost fcv: Option<Seq<u8>> = if file_content is Some {
        Some((file_content->0)@)
    } else {
        None
    };
    let uri = substitute(req.uri.as_str(), context);

    // Headers: validate each name, substitute and validate each value.
    let ghost hv = spec_headers_of(req@);
    let mut headers: Vec<(String, String)> = Vec::new();
    match &req.headers {
        Some(hs) => {
            let n = hs.len();
            let mut i: usize = 0;
            while i < n
                invariant
                    m == context@,
                    req@.headers == Some(pairs_view(hs@)),
                    hv == spec_headers_of(req@),
                    hv == pairs_view(hs@),
                    n == hs@.len(),
                    i <= n,
                    hv.len() == n,
                    forall|j: int| 0 <= j < n ==> hv[j] == (hs@[j].0@, hs@[j].1@),
                    pairs_view(headers@) =~= spec_resolve_headers(hv, m).take(i as int),
                    forall|j: int| 0 <= j < i ==> valid_header_name(#[trigger] hv[j].0),
                    forall|j: int|
                        0 <= j < i ==> valid_header_value(spec_subst(#[trigger] hv[j].1, m)),
                decreases n - i,
            {
                let name = &hs[i].0;
                if !check_header_name(name.as_str()) {
                    proof {
                        assert(spec_headers_of(req@)[i as int].0 == name@);
                        assert(!valid_header_name(spec_headers_of(req@)[i as int].0));
                    }
                    return Err(BuildError::InvalidHeaderName { name: name.clone() });
                }
                let value = substitute(hs[i].1.as_str(), context);
                if !check_header_value(value.as_str()) {
                    proof {
                        assert(spec_headers_of(req@)[i as int].0 == name@);
                        assert(value@ == spec_subst(spec_headers_of(req@)[i as int].1, m));
                        assert(!valid_header_value(spec_subst(
                            spec_headers_of(req@)[i as int].1,
                            m,
                        )));
                    }
                    return Err(
                        BuildError::InvalidHeaderValue { name: name.clone(), value },
                    );
                }
                let ghost pre = headers@;
                headers.push((name.clone(), value));
                proof {
                    assert(spec_resolve_headers(hv, m)[i as int] == (
                        hv[i as int].0,
                        spec_subst(hv[i as int].1, m),
                    ));
                    assert(pairs_view(headers@) =~= pairs_view(pre).push(
                        (hs@[i as int].0@, value@),
                    ));
                    assert(pairs_view(headers@) =~= spec_resolve_headers(hv, m).take(i + 1));
                }
                i += 1;
            }
            proof {
                assert(spec_resolve_headers(hv, m).take(n as int) =~= spec_resolve_headers(hv, m));
            }
        },
        None => {
            proof {
                assert(pairs_view(headers@) =~= spec_resolve_headers(hv, m));
            }
        },
    }

    // Query parameters: expand each declared parameter in order.
    let ghost qv = spec_query_of(req@);
    let mut query: Vec<(String, String)> = Vec::new();
    match &req.query_params {
        Some(qs) => {
            let n = qs.len();
            let mut i: usize = 0;
            proof {
                assert(pairs_view(query@) =~= Seq::<(Seq<char>, Seq<char>)>::empty());
            }
            while i < n
                invariant
                    m == context@,
                    req@.query_params == Some(params_view(qs@)),
                    qv == spec_query_of(req@),
                    qv == params_view(qs@),
                    n == qs@.len(),
                    i <= n,
                    qv.len() == n,
                    forall|j: int| 0 <= j < n ==> qv[j] == (qs@[j].0@, qs@[j].1@),
                    pairs_view(query@) + spec_resolve_query(qv, i as int, m) == spec_resolve_query(
                        qv,
                        0,
                        m,
                    ),
                decreases n - i,
            {
                let ghost pre = pairs_view(query@);
                let key = &qs[i].0;
                match &qs[i].1 {
                    ParamValue::StringParam(s) => {
                        let value = substitute(s.as_str(), context);
                        proof {
                            assert(qv[i as int] == (qs@[i as int].0@, qs@[i as int].1@));
                            assert(qv[i as int].1 == ParamValueV::Str(s@));
                        }
                        query.push((key.clone(), value));
                        proof {
                            assert(pairs_view(query@) =~= pre.push((key@, value@)));
                            assert(value@ == spec_subst(s@, m));
                            assert(spec_param_texts(qv[i as int].1) =~= seq![s@]);
                            assert(spec_expand_param(qv[i as int].0, qv[i as int].1, m) =~= seq![
                                (key@, spec_subst(s@, m)),
                            ]);
                            assert(pairs_view(query@) =~= pre + spec_expand_param(
                                qv[i as int].0,
                                qv[i as int].1,
                                m,
                            ));
                        }
                    },
                    ParamValue::NumberParam(s) => {
                        let value = substitute(s.as_str(), context);
                        proof {
                            assert(qv[i as int] == (qs@[i as int].0@, qs@[i as int].1@));
                            assert(qv[i as int].1 == ParamValueV::Num(s@));
                        }
                        query.push((key.clone(), value));
                        proof {
                            assert(pairs_view(query@) =~= pre.push((key@, value@)));
                            assert(value@ == spec_subst(s@, m));
                            assert(spec_param_texts(qv[i as int].1) =~= seq![s@]);
                            assert(spec_expand_param(qv[i as int].0, qv[i as int].1, m) =~= seq![
                                (key@, spec_subst(s@, m)),
                            ]);
                            assert(pairs_view(query@) =~= pre + spec_expand_param(
                                qv[i as int].0,
                                qv[i as int].1,
                                m,
                            ));
                        }
                    },
                    ParamValue::BoolParam(b) => {
                        let text: &str = if *b {
                            "true"
                        } else {
                            "false"
                        };
                        let value = substitute(text, context);
                        proof {
                            assert(qv[i as int] == (qs@[i as int].0@, qs@[i as int].1@));
                            assert(qv[i as int].1 == ParamValueV::Bool(*b));
                        }
                        query.push((key.clone(), value));
                        proof {
                            assert(pairs_view(query@) =~= pre.push((key@, value@)));
                            assert(value@ == spec_subst(text@, m));
                            assert(spec_param_texts(qv[i as int].1) =~= seq![text@]);
                            assert(spec_expand_param(qv[i as int].0, qv[i as int].1, m) =~= seq![
                                (key@, spec_subst(text@, m)),
                            ]);
                            assert(pairs_view(query@) =~= pre + spec_expand_param(
                                qv[i as int].0,
                                qv[i as int].1,
                                m,
                            ));
                        }
                    },
                    ParamValue::ListParam(items) => {
                        let ghost iv = json_arr_view(items@, 0);
                        proof {
                            lemma_json_arr_view(items@, 0);
                            lemma_list_param_expansion(key@, iv, m);
                        }
                        let ghost expansion = spec_expand_param(key@, ParamValueV::List(iv), m);
                        let cnt = items.len();
                        let mut u: usize = 0;
                        proof {
                            assert(pre + expansion.take(0) =~= pre);
                        }
                        while u < cnt
                            invariant
                                m == context@,
                                cnt == items@.len(),
                                u <= cnt,
                                iv == json_arr_view(items@, 0),
                                iv.len() == cnt,
                                forall|t: int|
                                    0 <= t < cnt ==> iv[t] == crate::json::json_view(items@[t]),
                                expansion == spec_expand_param(key@, ParamValueV::List(iv), m),
                                expansion.len() == cnt,
                                forall|t: int|
                                    0 <= t < cnt ==> expansion[t] == (
                                    key@,
                                    spec_subst(spec_json_text(iv[t]), m),
                                    ),
                                pairs_view(query@) == pre + expansion.take(u as int),
                            decreases cnt - u,
                        {
                            let ghost qpre = pairs_view(query@);
                            let text = json_text(&items[u]);
                            let value = substitute(text.as_str(), context);
                            query.push((key.clone(), value));
                            proof {
                                assert(pairs_view(query@) =~= qpre.push((key@, value@)));
                                assert(text@ == spec_json_text(iv[u as int]));
                                assert(value@ == spec_subst(spec_json_text(iv[u as int]), m));
                                assert(expansion[u as int] == (key@, value@));
                                assert(expansion.take(u + 1) =~= expansion.take(u as int).push(
                                    expansion[u as int],
                                ));
                                assert(pairs_view(query@) =~= pre + expansion.take(u + 1));
                            }
                            u += 1;
                        }
                        proof {
                            assert(expansion.take(cnt as int) =~= expansion);
                            assert(qv[i as int].1 == ParamValueV::List(iv));
                        }
                    },
                }
                proof {
                    assert(spec_resolve_query(qv, i as int, m) == spec_expand_param(
                        qv[i as int].0,
                        qv[i as int].1,
                        m,
                    ) + spec_resolve_query(qv, i + 1, m));
                    assert((pre + spec_expand_param(qv[i as int].0, qv[i as int].1, m))
                        + spec_resolve_query(qv, i + 1, m) =~= pre + spec_resolve_query(
                        qv,
                        i as int,
                        m,
                    ));
                }
                i += 1;
            }
            proof {
                assert(spec_resolve_query(qv, n as int, m) =~= Seq::<(Seq<char>, Seq<char>)>::empty());
                assert(pairs_view(query@) + Seq::<(Seq<char>, Seq<char>)>::empty() =~= pairs_view(
                    query@,
                ));
            }
        },
        None => {
            proof {
                assert(pairs_view(query@) =~= spec_resolve_query(qv, 0, m));
            }
        },
    }

    // Body: file bytes decoded lossily, or inline content honoring trim;
    // then substituted.
    let body: Option<String> = match &req.body {
        Some(b) => {
            match b.text(file_content) {
                Some(text) => Some(substitute(text.as_str(), context)),
                None => {
                    let file = match b {
                        Body::File { file } => file.clone(),
                        Body::Content { content: _, trim: _ } => String::new(),
                    };
                    return Err(BuildError::UnreadableBodyFile { file });
                },
            }
        },
        None => None,
    };

    // Authentication: every field substituted.
    let authentication = match &req.authentication {
        Some(a) => Some(resolve_auth(a, context)),
        None => None,
    };

    Ok(RequestContext { uri, method: req.method, query_params: query, headers, body, authentication })
}

} // verus!
