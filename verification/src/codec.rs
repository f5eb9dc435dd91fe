//! The document form of a request template: a JSON value with the fields
//! `name`, `uri`, `method`, `queryParams`, `headers`, `body`,
//! `authentication` and `extractors` — query parameters are externally
//! spelled `queryParams`. Encoding loses nothing: reading the document form
//! back recovers the template exactly, so a template serialized to its
//! document form and reloaded resolves to an identical request under the
//! same variable store.

use vstd::prelude::*;
use vstd::string::StringExecFns;
use crate::json::{Json, JsonV, json_obj_view, json_arr_view, lemma_json_obj_view,
    lemma_json_arr_view, json_view, clone_json};
use crate::model::{Method, ParamValue, ParamValueV, Body, BodyV, Authentication, AuthenticationV};
use crate::path::{obj_lookup, obj_get};
use crate::request::{Request, RequestV, params_view, pairs_view};

verus! {

/// The document form of one query-parameter value.
pub open spec fn enc_param(v: ParamValueV) -> JsonV {
    match v {
        ParamValueV::Str(s) => JsonV::Str(s),
        ParamValueV::Num(s) => JsonV::Num(s),
        ParamValueV::Bool(b) => JsonV::Bool(b),
        ParamValueV::List(items) => JsonV::Arr(items),
    }
}

/// The document form of the query-parameter mapping.
pub open spec fn enc_params(q: Seq<(Seq<char>, ParamValueV)>) -> Seq<(Seq<char>, JsonV)> {
    q.map_values(|p: (Seq<char>, ParamValueV)| (p.0, enc_param(p.1)))
}

/// The document form of a string-to-string mapping (headers, extractors).
pub open spec fn enc_strings(h: Seq<(Seq<char>, Seq<char>)>) -> Seq<(Seq<char>, JsonV)> {
    h.map_values(|p: (Seq<char>, Seq<char>)| (p.0, JsonV::Str(p.1)))
}

/// The document form of a body declaration.
pub open spec fn enc_body(b: BodyV) -> JsonV {
    match b {
        BodyV::File { file } => JsonV::Obj(seq![("file"@, JsonV::Str(file))]),
        BodyV::Content { content, trim } => JsonV::Obj(
            seq![("content"@, JsonV::Str(content))] + match trim {
                Some(t) => seq![("trim"@, JsonV::Bool(t))],
                None => Seq::empty(),
            },
        ),
    }
}

/// The document form of an authentication declaration.
pub open spec fn enc_auth(a: AuthenticationV) -> JsonV {
    match a {
        AuthenticationV::Basic { username, password } => JsonV::Obj(
            seq![("type"@, JsonV::Str("basic"@)), ("username"@, JsonV::Str(username))] + match password {
                Some(p) => seq![("password"@, JsonV::Str(p))],
                None => Seq::empty(),
            },
        ),
        AuthenticationV::Bearer { token } => JsonV::Obj(
            seq![("type"@, JsonV::Str("bearer"@)), ("token"@, JsonV::Str(token))],
        ),
    }
}

/// A field that stands in the document only where the declaration is
/// present.
pub open spec fn opt_field(name: Seq<char>, v: Option<JsonV>) -> Seq<(Seq<char>, JsonV)> {
    match v {
        Some(j) => seq![(name, j)],
        None => Seq::empty(),
    }
}

/// The members of a template's document form, in a fixed order, optional
/// declarations present only where declared.
pub open spec fn spec_encode_fields(t: RequestV) -> Seq<(Seq<char>, JsonV)> {
    seq![
        ("name"@, JsonV::Str(t.name)),
        ("uri"@, JsonV::Str(t.uri)),
        ("method"@, JsonV::Str(t.method.spec_name())),
    ] + opt_field(
        "queryParams"@,
        match t.query_params {
            Some(q) => Some(JsonV::Obj(enc_params(q))),
            None => None,
        },
    ) + opt_field(
        "headers"@,
        match t.headers {
            Some(h) => Some(JsonV::Obj(enc_strings(h))),
            None => None,
        },
    ) + opt_field(
        "body"@,
        match t.body {
            Some(b) => Some(enc_body(b)),
            None => None,
        },
    ) + opt_field(
        "authentication"@,
        match t.authentication {
            Some(a) => Some(enc_auth(a)),
            None => None,
        },
    ) + opt_field(
        "extractors"@,
        match t.extractors {
            Some(e) => Some(JsonV::Obj(enc_strings(e))),
            None => None,
        },
    )
}

/// The document form of a request template.
pub open spec fn spec_encode(t: RequestV) -> JsonV {
    JsonV::Obj(spec_encode_fields(t))
}

/// What a document member yields as a query-parameter value.
pub open spec fn dec_param(v: JsonV) -> Option<ParamValueV> {
    match v {
        JsonV::Str(s) => Some(ParamValueV::Str(s)),
        JsonV::Num(s) => Some(ParamValueV::Num(s)),
        JsonV::Bool(b) => Some(ParamValueV::Bool(b)),
        JsonV::Arr(items) => Some(ParamValueV::List(items)),
        _ => None,
    }
}

/// The query parameters a document object yields, from member `i` on.
pub open spec fn dec_params(q: Seq<(Seq<char>, JsonV)>, i: int) -> Option<
    Seq<(Seq<char>, ParamValueV)>,
>
    decreases q.len() - i,
{
    if i < 0 || i >= q.len() {
        Some(Seq::empty())
    } else {
        match dec_param(q[i].1) {
            None => None,
            Some(p) => match dec_params(q, i + 1) {
                Some(rest) => Some(seq![(q[i].0, p)] + rest),
                None => None,
            },
        }
    }
}

/// The string pairs a document object yields, from member `i` on; every
/// member value must be a JSON string.
pub open spec fn dec_strings(q: Seq<(Seq<char>, JsonV)>, i: int) -> Option<
    Seq<(Seq<char>, Seq<char>)>,
>
    decreases q.len() - i,
{
    if i < 0 || i >= q.len() {
        Some(Seq::empty())
    } else {
        match q[i].1 {
            JsonV::Str(s) => match dec_strings(q, i + 1) {
                Some(rest) => Some(seq![(q[i].0, s)] + rest),
                None => None,
            },
            _ => None,
        }
    }
}

/// The body declaration a document value yields.
pub open spec fn dec_body(v: JsonV) -> Option<BodyV> {
    match v {
        JsonV::Obj(fields) => match obj_lookup(fields, "file"@) {
            Some(JsonV::Str(f)) => Some(BodyV::File { file: f }),
            Some(_) => None,
            None => match obj_lookup(fields, "content"@) {
                Some(JsonV::Str(c)) => match obj_lookup(fields, "trim"@) {
                    Some(JsonV::Bool(b)) => Some(BodyV::Content { content: c, trim: Some(b) }),
                    Some(_) => None,
                    None => Some(BodyV::Content { content: c, trim: None }),
                },
                _ => None,
            },
        },
        _ => None,
    }
}

/// The authentication declaration a document value yields.
pub open spec fn dec_auth(v: JsonV) -> Option<AuthenticationV> {
    match v {
        JsonV::Obj(fields) => match obj_lookup(fields, "type"@) {
            Some(JsonV::Str(ty)) => if ty == "basic"@ {
                match obj_lookup(fields, "username"@) {
                    Some(JsonV::Str(u)) => match obj_lookup(fields, "password"@) {
                        Some(JsonV::Str(p)) => Some(
                            AuthenticationV::Basic { username: u, password: Some(p) },
                        ),
                        Some(_) => None,
                        None => Some(AuthenticationV::Basic { username: u, password: None }),
                    },
                    _ => None,
                }
            } else if ty == "bearer"@ {
                match obj_lookup(fields, "token"@) {
                    Some(JsonV::Str(tok)) => Some(AuthenticationV::Bearer { token: tok }),
                    _ => None,
                }
            } else {
                None
            },
            _ => None,
        },
        _ => None,
    }
}

/// An optional object member holding query parameters.
pub open spec fn dec_opt_params(o: Option<JsonV>) -> Option<
    Option<Seq<(Seq<char>, ParamValueV)>>,
> {
    match o {
        None => Some(None),
        Some(JsonV::Obj(q)) => match dec_params(q, 0) {
            Some(x) => Some(Some(x)),
            None => None,
        },
        Some(_) => None,
    }
}

/// An optional object member holding a string-to-string mapping.
pub open spec fn dec_opt_strings(o: Option<JsonV>) -> Option<Option<Seq<(Seq<char>, Seq<char>)>>> {
    match o {
        None => Some(None),
        Some(JsonV::Obj(q)) => match dec_strings(q, 0) {
            Some(x) => Some(Some(x)),
            None => None,
        },
        Some(_) => None,
    }
}

/// An optional object member holding a body declaration.
pub open spec fn dec_opt_body(o: Option<JsonV>) -> Option<Option<BodyV>> {
    match o {
        None => Some(None),
        Some(v) => match dec_body(v) {
            Some(b) => Some(Some(b)),
            None => None,
        },
    }
}

/// An optional object member holding an authentication declaration.
pub open spec fn dec_opt_auth(o: Option<JsonV>) -> Option<Option<AuthenticationV>> {
    match o {
        None => Some(None),
        Some(v) => match dec_auth(v) {
            Some(a) => Some(Some(a)),
            None => None,
        },
    }
}

/// The template a document value describes, `None` where the document is not
/// a well-formed template document.
pub open spec fn spec_decode(v: JsonV) -> Option<RequestV> {
    match v {
        JsonV::Obj(fields) => match (
            obj_lookup(fields, "name"@),
            obj_lookup(fields, "uri"@),
            obj_lookup(fields, "method"@),
        ) {
            (Some(JsonV::Str(name)), Some(JsonV::Str(uri)), Some(JsonV::Str(mname))) => match Method::spec_parse(
                mname,
            ) {
                Some(method) => match (
                    dec_opt_params(obj_lookup(fields, "queryParams"@)),
                    dec_opt_strings(obj_lookup(fields, "headers"@)),
                    dec_opt_body(obj_lookup(fields, "body"@)),
                    dec_opt_auth(obj_lookup(fields, "authentication"@)),
                    dec_opt_strings(obj_lookup(fields, "extractors"@)),
                ) {
                    (Some(q), Some(h), Some(b), Some(a), Some(e)) => Some(
                        RequestV {
                            name,
                            uri,
                            method,
                            query_params: q,
                            headers: h,
                            body: b,
                            authentication: a,
                            extractors: e,
                        },
                    ),
                    _ => None,
                },
                None => None,
            },
            _ => None,
        },
        _ => None,
    }
}

proof fn lemma_obj_lookup_append(a: Seq<(Seq<char>, JsonV)>, b: Seq<(Seq<char>, JsonV)>, k: Seq<char>)
    ensures
        obj_lookup(a + b, k) == match obj_lookup(a, k) {
            Some(v) => Some(v),
            None => obj_lookup(b, k),
        },
    decreases a.len(),
{
    if a.len() == 0 {
        assert(a + b =~= b);
    } else {
        assert((a + b)[0] == a[0]);
        assert((a + b).drop_first() =~= a.drop_first() + b);
        lemma_obj_lookup_append(a.drop_first(), b, k);
    }
}

proof fn lemma_obj_lookup_single(name: Seq<char>, v: JsonV, k: Seq<char>)
    ensures
        obj_lookup(seq![(name, v)], k) == if name == k {
            Some(v)
        } else {
            None
        },
{
    let s = seq![(name, v)];
    assert(s.len() == 1);
    assert(s[0] == (name, v));
    assert(s.drop_first() =~= Seq::<(Seq<char>, JsonV)>::empty());
    assert(obj_lookup(Seq::<(Seq<char>, JsonV)>::empty(), k) is None);
    if name == k {
        assert(obj_lookup(s, k) == Some(v));
    } else {
        assert(obj_lookup(s, k) == obj_lookup(s.drop_first(), k));
    }
}

proof fn lemma_obj_lookup_opt_field(name: Seq<char>, o: Option<JsonV>, k: Seq<char>)
    ensures
        obj_lookup(opt_field(name, o), k) == (if name == k {
            o
        } else {
            None
        }),
{
    match o {
        Some(v) => {
            lemma_obj_lookup_single(name, v, k);
        },
        None => {
        },
    }
}

proof fn lemma_dec_params_inv(q: Seq<(Seq<char>, ParamValueV)>, i: int)
    requires
        0 <= i <= q.len(),
    ensures
        dec_params(enc_params(q), i) == Some(q.skip(i)),
    decreases q.len() - i,
{
    if i < q.len() {
        assert(enc_params(q)[i] == (q[i].0, enc_param(q[i].1)));
        match q[i].1 {
            ParamValueV::Str(s) => {},
            ParamValueV::Num(s) => {},
            ParamValueV::Bool(b) => {},
            ParamValueV::List(items) => {},
        }
        assert(dec_param(enc_param(q[i].1)) == Some(q[i].1));
        lemma_dec_params_inv(q, i + 1);
        assert(q[i] == (q[i].0, q[i].1));
        assert(seq![q[i]] + q.skip(i + 1) =~= q.skip(i));
    } else {
        assert(q.skip(i) =~= Seq::<(Seq<char>, ParamValueV)>::empty());
    }
}

proof fn lemma_dec_strings_inv(h: Seq<(Seq<char>, Seq<char>)>, i: int)
    requires
        0 <= i <= h.len(),
    ensures
        dec_strings(enc_strings(h), i) == Some(h.skip(i)),
    decreases h.len() - i,
{
    if i < h.len() {
        assert(enc_strings(h)[i] == (h[i].0, JsonV::Str(h[i].1)));
        lemma_dec_strings_inv(h, i + 1);
        assert(h[i] == (h[i].0, h[i].1));
        assert(seq![h[i]] + h.skip(i + 1) =~= h.skip(i));
    } else {
        assert(h.skip(i) =~= Seq::<(Seq<char>, Seq<char>)>::empty());
    }
}

proof fn lemma_dec_body_inv(b: BodyV)
    ensures
        dec_body(enc_body(b)) == Some(b),
{
    reveal_strlit("file");
    reveal_strlit("content");
    reveal_strlit("trim");
    match b {
        BodyV::File { file } => {
            lemma_obj_lookup_single("file"@, JsonV::Str(file), "file"@);
        },
        BodyV::Content { content, trim } => {
            let base = seq![("content"@, JsonV::Str(content))];
            let tseg = match trim {
                Some(t) => seq![("trim"@, JsonV::Bool(t))],
                None => Seq::<(Seq<char>, JsonV)>::empty(),
            };
            let fields = base + tseg;
            lemma_obj_lookup_append(base, tseg, "file"@);
            lemma_obj_lookup_append(base, tseg, "content"@);
            lemma_obj_lookup_append(base, tseg, "trim"@);
            lemma_obj_lookup_single("content"@, JsonV::Str(content), "file"@);
            lemma_obj_lookup_single("content"@, JsonV::Str(content), "content"@);
            lemma_obj_lookup_single("content"@, JsonV::Str(content), "trim"@);
            assert("file"@.len() == 4 && "content"@.len() == 7 && "trim"@.len() == 4);
            assert(!("content"@ == "file"@));
            assert(!("content"@ == "trim"@));
            assert(obj_lookup(base, "file"@) is None);
            assert(obj_lookup(base, "content"@) == Some(JsonV::Str(content)));
            assert(obj_lookup(base, "trim"@) is None);
            match trim {
                Some(t) => {
                    lemma_obj_lookup_single("trim"@, JsonV::Bool(t), "file"@);
                    lemma_obj_lookup_single("trim"@, JsonV::Bool(t), "trim"@);
                    assert("trim"@[0] == 't' && "file"@[0] == 'f');
                    assert(!("trim"@ == "file"@));
                    assert(obj_lookup(tseg, "file"@) is None);
                    assert(obj_lookup(tseg, "trim"@) == Some(JsonV::Bool(t)));
                },
                None => {
                    assert(obj_lookup(tseg, "file"@) is None);
                    assert(obj_lookup(tseg, "trim"@) is None);
                },
            }
            assert(obj_lookup(fields, "file"@) is None);
            assert(obj_lookup(fields, "content"@) == Some(JsonV::Str(content)));
            assert(dec_body(enc_body(b)) == Some(b));
        },
    }
}

proof fn lemma_dec_auth_inv(a: AuthenticationV)
    ensures
        dec_auth(enc_auth(a)) == Some(a),
{
    reveal_strlit("type");
    reveal_strlit("basic");
    reveal_strlit("bearer");
    reveal_strlit("username");
    reveal_strlit("password");
    reveal_strlit("token");
    match a {
        AuthenticationV::Basic { username, password } => {
            let base = seq![
                ("type"@, JsonV::Str("basic"@)),
                ("username"@, JsonV::Str(username)),
            ];
            let pseg = match password {
                Some(p) => seq![("password"@, JsonV::Str(p))],
                None => Seq::<(Seq<char>, JsonV)>::empty(),
            };
            let fields = base + pseg;
            lemma_obj_lookup_append(base, pseg, "type"@);
            lemma_obj_lookup_append(base, pseg, "username"@);
            lemma_obj_lookup_append(base, pseg, "password"@);
            assert(base.drop_first() =~= seq![("username"@, JsonV::Str(username))]);
            lemma_obj_lookup_single("username"@, JsonV::Str(username), "username"@);
            lemma_obj_lookup_single("username"@, JsonV::Str(username), "password"@);
            assert("type"@.len() == 4 && "username"@.len() == 8 && "password"@.len() == 8
                && "basic"@.len() == 5 && "bearer"@.len() == 6);
            assert("username"@[0] == 'u' && "password"@[0] == 'p');
            assert(!("type"@ == "username"@));
            assert(!("type"@ == "password"@));
            assert(!("username"@ == "password"@));
            assert(base[0] == ("type"@, JsonV::Str("basic"@)));
            assert(obj_lookup(base, "type"@) == Some(JsonV::Str("basic"@)));
            assert(obj_lookup(base.drop_first(), "username"@) == Some(JsonV::Str(username)));
            assert(obj_lookup(base, "username"@) == Some(JsonV::Str(username)));
            assert(obj_lookup(base.drop_first(), "password"@) is None);
            assert(obj_lookup(base, "password"@) is None);
            match password {
                Some(p) => {
                    lemma_obj_lookup_single("password"@, JsonV::Str(p), "password"@);
                    assert(obj_lookup(pseg, "password"@) == Some(JsonV::Str(p)));
                },
                None => {
                    assert(obj_lookup(pseg, "password"@) is None);
                },
            }
            assert(obj_lookup(fields, "type"@) == Some(JsonV::Str("basic"@)));
            assert(obj_lookup(fields, "username"@) == Some(JsonV::Str(username)));
            assert("basic"@.len() == 5 && "bearer"@.len() == 6);
            assert(!("basic"@ == "bearer"@));
            assert(dec_auth(enc_auth(a)) == Some(a));
        },
        AuthenticationV::Bearer { token } => {
            let fields = seq![("type"@, JsonV::Str("bearer"@)), ("token"@, JsonV::Str(token))];
            assert(fields.drop_first() =~= seq![("token"@, JsonV::Str(token))]);
            lemma_obj_lookup_single("token"@, JsonV::Str(token), "token"@);
            assert(fields[0] == ("type"@, JsonV::Str("bearer"@)));
            assert(obj_lookup(fields, "type"@) == Some(JsonV::Str("bearer"@)));
            assert("type"@.len() == 4 && "token"@.len() == 5 && "basic"@.len() == 5
                && "bearer"@.len() == 6);
            assert(!("type"@ == "token"@));
            assert(obj_lookup(fields.drop_first(), "token"@) == Some(JsonV::Str(token)));
            assert(obj_lookup(fields, "token"@) == Some(JsonV::Str(token)));
            assert(!("bearer"@ == "basic"@));
            assert(dec_auth(enc_auth(a)) == Some(a));
        },
    }
}

proof fn lemma_method_parse_name(m: Method)
    ensures
        Method::spec_parse(m.spec_name()) == Some(m),
{
    reveal_strlit("GET");
    reveal_strlit("get");
    reveal_strlit("POST");
    reveal_strlit("post");
    reveal_strlit("PUT");
    reveal_strlit("put");
    reveal_strlit("DELETE");
    reveal_strlit("delete");
    reveal_strlit("PATCH");
    reveal_strlit("patch");
    reveal_strlit("HEAD");
    reveal_strlit("head");
    let lower = |a: Seq<char>| crate::text::spec_ascii_lower_str(a);
    match m {
        Method::Get => {
            assert(lower("GET"@) =~= lower("get"@));
        },
        Method::Post => {
            assert(lower("POST"@).len() != lower("get"@).len());
            assert(lower("POST"@) =~= lower("post"@));
        },
        Method::Put => {
            assert(lower("PUT"@)[0] == 'p' && lower("get"@)[0] == 'g');
            assert(lower("PUT"@).len() != lower("post"@).len());
            assert(lower("PUT"@) =~= lower("put"@));
        },
        Method::Delete => {
            assert(lower("DELETE"@).len() != lower("get"@).len());
            assert(lower("DELETE"@).len() != lower("post"@).len());
            assert(lower("DELETE"@).len() != lower("put"@).len());
            assert(lower("DELETE"@) =~= lower("delete"@));
        },
        Method::Patch => {
            assert(lower("PATCH"@).len() != lower("get"@).len());
            assert(lower("PATCH"@).len() != lower("post"@).len());
            assert(lower("PATCH"@).len() != lower("put"@).len());
            assert(lower("PATCH"@).len() != lower("delete"@).len());
            assert(lower("PATCH"@) =~= lower("patch"@));
        },
        Method::Head => {
            assert(lower("HEAD"@).len() != lower("get"@).len());
            assert(lower("HEAD"@)[0] == 'h' && lower("post"@)[0] == 'p');
            assert(lower("HEAD"@).len() != lower("put"@).len());
            assert(lower("HEAD"@).len() != lower("delete"@).len());
            assert(lower("HEAD"@).len() != lower("patch"@).len());
            assert(lower("HEAD"@) =~= lower("head"@));
        },
    }
}

/// Where each field of a template's document form is found: the member of
/// that name holds exactly the declaration, and names that are not members
/// are absent.
proof fn lemma_lookup_encode(t: RequestV, k: Seq<char>)
    ensures
        obj_lookup(spec_encode_fields(t), k) == (if k == "name"@ {
            Some(JsonV::Str(t.name))
        } else if k == "uri"@ {
            Some(JsonV::Str(t.uri))
        } else if k == "method"@ {
            Some(JsonV::Str(t.method.spec_name()))
        } else if k == "queryParams"@ {
            match t.query_params {
                Some(q) => Some(JsonV::Obj(enc_params(q))),
                None => None,
            }
        } else if k == "headers"@ {
            match t.headers {
                Some(h) => Some(JsonV::Obj(enc_strings(h))),
                None => None,
            }
        } else if k == "body"@ {
            match t.body {
                Some(b) => Some(enc_body(b)),
                None => None,
            }
        } else if k == "authentication"@ {
            match t.authentication {
                Some(a) => Some(enc_auth(a)),
                None => None,
            }
        } else if k == "extractors"@ {
            match t.extractors {
                Some(e) => Some(JsonV::Obj(enc_strings(e))),
                None => None,
            }
        } else {
            None
        }),
{
    reveal_strlit("name");
    reveal_strlit("uri");
    reveal_strlit("method");
    reveal_strlit("queryParams");
    reveal_strlit("headers");
    reveal_strlit("body");
    reveal_strlit("authentication");
    reveal_strlit("extractors");
    let base = seq![
        ("name"@, JsonV::Str(t.name)),
        ("uri"@, JsonV::Str(t.uri)),
        ("method"@, JsonV::Str(t.method.spec_name())),
    ];
    let qopt: Option<JsonV> = match t.query_params {
        Some(q) => Some(JsonV::Obj(enc_params(q))),
        None => None,
    };
    let hopt: Option<JsonV> = match t.headers {
        Some(h) => Some(JsonV::Obj(enc_strings(h))),
        None => None,
    };
    let bopt: Option<JsonV> = match t.body {
        Some(b) => Some(enc_body(b)),
        None => None,
    };
    let aopt: Option<JsonV> = match t.authentication {
        Some(a) => Some(enc_auth(a)),
        None => None,
    };
    let eopt: Option<JsonV> = match t.extractors {
        Some(e) => Some(JsonV::Obj(enc_strings(e))),
        None => None,
    };
    let qseg = opt_field("queryParams"@, qopt);
    let hseg = opt_field("headers"@, hopt);
    let bseg = opt_field("body"@, bopt);
    let aseg = opt_field("authentication"@, aopt);
    let eseg = opt_field("extractors"@, eopt);
    let fields = spec_encode_fields(t);
    assert(fields == base + qseg + hseg + bseg + aseg + eseg);
    assert(base + qseg + hseg + bseg + aseg + eseg =~= base + (qseg + (hseg + (bseg + (aseg
        + eseg)))));
    lemma_obj_lookup_append(base, qseg + (hseg + (bseg + (aseg + eseg))), k);
    lemma_obj_lookup_append(qseg, hseg + (bseg + (aseg + eseg)), k);
    lemma_obj_lookup_append(hseg, bseg + (aseg + eseg), k);
    lemma_obj_lookup_append(bseg, aseg + eseg, k);
    lemma_obj_lookup_append(aseg, eseg, k);
    lemma_obj_lookup_opt_field("queryParams"@, qopt, k);
    lemma_obj_lookup_opt_field("headers"@, hopt, k);
    lemma_obj_lookup_opt_field("body"@, bopt, k);
    lemma_obj_lookup_opt_field("authentication"@, aopt, k);
    lemma_obj_lookup_opt_field("extractors"@, eopt, k);
    // walk the three fixed members
    let base1 = base.drop_first();
    let base2 = base1.drop_first();
    let base3 = base2.drop_first();
    assert(base1 =~= seq![
        ("uri"@, JsonV::Str(t.uri)),
        ("method"@, JsonV::Str(t.method.spec_name())),
    ]);
    assert(base2 =~= seq![("method"@, JsonV::Str(t.method.spec_name()))]);
    assert(base3 =~= Seq::<(Seq<char>, JsonV)>::empty());
    assert(base[0] == ("name"@, JsonV::Str(t.name)));
    assert(base1[0] == ("uri"@, JsonV::Str(t.uri)));
    assert(base2[0] == ("method"@, JsonV::Str(t.method.spec_name())));
    assert(obj_lookup(base3, k) is None);
    assert(obj_lookup(base2, k) == (if k == "method"@ {
        Some(JsonV::Str(t.method.spec_name()))
    } else {
        None
    }));
    assert(obj_lookup(base1, k) == (if k == "uri"@ {
        Some(JsonV::Str(t.uri))
    } else {
        obj_lookup(base2, k)
    }));
    assert(obj_lookup(base, k) == (if k == "name"@ {
        Some(JsonV::Str(t.name))
    } else {
        obj_lookup(base1, k)
    }));
    assert("name"@.len() == 4 && "uri"@.len() == 3 && "method"@.len() == 6 && "queryParams"@.len()
        == 11 && "headers"@.len() == 7 && "body"@.len() == 4 && "authentication"@.len() == 14
        && "extractors"@.len() == 10);
    assert("name"@[0] == 'n' && "body"@[0] == 'b');
    if k == "name"@ {
        assert(obj_lookup(fields, k) == Some(JsonV::Str(t.name)));
    } else if k == "uri"@ {
        assert(obj_lookup(fields, k) == Some(JsonV::Str(t.uri)));
    } else if k == "method"@ {
        assert(obj_lookup(fields, k) == Some(JsonV::Str(t.method.spec_name())));
    } else if k == "queryParams"@ {
        assert(obj_lookup(base, k) is None);
        assert(obj_lookup(fields, k) == qopt);
    } else if k == "headers"@ {
        assert(obj_lookup(base, k) is None);
        assert(obj_lookup(qseg, k) is None);
        assert(obj_lookup(fields, k) == hopt);
    } else if k == "body"@ {
        assert(obj_lookup(fields, k) == bopt);
    } else if k == "authentication"@ {
        assert(obj_lookup(fields, k) == aopt);
    } else if k == "extractors"@ {
        assert(obj_lookup(fields, k) == eopt);
    } else {
        assert(obj_lookup(fields, k) is None);
    }
}

/// Round trip: a request template encoded to its document form and read back
/// is recovered exactly. With [`crate::request::lemma_build_deterministic`],
/// the reloaded template resolves to an identical request under any store.
pub proof fn lemma_document_round_trip(t: RequestV)
    ensures
        spec_decode(spec_encode(t)) == Some(t),
{
    reveal_strlit("name");
    reveal_strlit("uri");
    reveal_strlit("method");
    reveal_strlit("queryParams");
    reveal_strlit("headers");
    reveal_strlit("body");
    reveal_strlit("authentication");
    reveal_strlit("extractors");
    let fields = spec_encode_fields(t);
    lemma_lookup_encode(t, "name"@);
    lemma_lookup_encode(t, "uri"@);
    lemma_lookup_encode(t, "method"@);
    lemma_lookup_encode(t, "queryParams"@);
    lemma_lookup_encode(t, "headers"@);
    lemma_lookup_encode(t, "body"@);
    lemma_lookup_encode(t, "authentication"@);
    lemma_lookup_encode(t, "extractors"@);
    assert("name"@.len() == 4 && "uri"@.len() == 3 && "method"@.len() == 6 && "queryParams"@.len()
        == 11 && "headers"@.len() == 7 && "body"@.len() == 4 && "authentication"@.len() == 14
        && "extractors"@.len() == 10);
    assert("name"@[0] == 'n' && "body"@[0] == 'b');
    assert(!("name"@ == "uri"@));
    assert(!("name"@ == "method"@));
    assert(!("uri"@ == "method"@));
    assert(!("queryParams"@ == "name"@) && !("queryParams"@ == "uri"@) && !("queryParams"@
        == "method"@));
    assert(!("headers"@ == "name"@) && !("headers"@ == "uri"@) && !("headers"@ == "method"@)
        && !("headers"@ == "queryParams"@));
    assert(!("body"@ == "name"@) && !("body"@ == "uri"@) && !("body"@ == "method"@) && !("body"@
        == "queryParams"@) && !("body"@ == "headers"@));
    assert(!("authentication"@ == "name"@) && !("authentication"@ == "uri"@) && !("authentication"@
        == "method"@) && !("authentication"@ == "queryParams"@) && !("authentication"@
        == "headers"@) && !("authentication"@ == "body"@));
    assert(!("extractors"@ == "name"@) && !("extractors"@ == "uri"@) && !("extractors"@
        == "method"@) && !("extractors"@ == "queryParams"@) && !("extractors"@ == "headers"@)
        && !("extractors"@ == "body"@) && !("extractors"@ == "authentication"@));
    assert(obj_lookup(fields, "name"@) == Some(JsonV::Str(t.name)));
    assert(obj_lookup(fields, "uri"@) == Some(JsonV::Str(t.uri)));
    assert(obj_lookup(fields, "method"@) == Some(JsonV::Str(t.method.spec_name())));
    lemma_method_parse_name(t.method);
    match t.query_params {
        Some(q) => {
            lemma_dec_params_inv(q, 0);
            assert(q.skip(0) =~= q);
        },
        None => {},
    }
    match t.headers {
        Some(h) => {
            lemma_dec_strings_inv(h, 0);
            assert(h.skip(0) =~= h);
        },
        None => {},
    }
    match t.body {
        Some(b) => {
            lemma_dec_body_inv(b);
        },
        None => {},
    }
    match t.authentication {
        Some(a) => {
            lemma_dec_auth_inv(a);
        },
        None => {},
    }
    match t.extractors {
        Some(e) => {
            lemma_dec_strings_inv(e, 0);
            assert(e.skip(0) =~= e);
        },
        None => {},
    }
}

proof fn lemma_obj_view_push(s: Seq<(String, Json)>, e: (String, Json))
    ensures
        json_obj_view(s.push(e), 0) == json_obj_view(s, 0).push((e.0@, json_view(e.1))),
{
    lemma_json_obj_view(s.push(e), 0);
    lemma_json_obj_view(s, 0);
    assert forall|t: int|
        0 <= t < s.len() + 1 implies json_obj_view(s.push(e), 0)[t] == json_obj_view(
        s,
        0,
    ).push((e.0@, json_view(e.1)))[t] by {
        if t < s.len() {
            assert(s.push(e)[t] == s[t]);
            assert(json_obj_view(s.push(e), 0)[t] == (s[t].0@, json_view(s[t].1)));
            assert(json_obj_view(s, 0)[t] == (s[t].0@, json_view(s[t].1)));
        } else {
            assert(s.push(e)[t] == e);
            assert(json_obj_view(s.push(e), 0)[t] == (e.0@, json_view(e.1)));
        }
    }
    assert(json_obj_view(s.push(e), 0) =~= json_obj_view(s, 0).push((e.0@, json_view(e.1))));
}

/// Clones the elements of a JSON list.
fn clone_json_list(items: &Vec<Json>) -> (r: Vec<Json>)
    ensures
        json_arr_view(r@, 0) == json_arr_view(items@, 0),
{
    let mut out: Vec<Json> = Vec::new();
    let len = items.len();
    let mut k: usize = 0;
    while k < len
        invariant
            k <= len,
            len == items@.len(),
            out@.len() == k,
            forall|t: int| 0 <= t < k ==> json_view(#[trigger] out@[t]) == json_view(items@[t]),
        decreases len - k,
    {
        let piece = clone_json(&items[k]);
        out.push(piece);
        k += 1;
    }
    proof {
        lemma_json_arr_view(out@, 0);
        lemma_json_arr_view(items@, 0);
        assert forall|t: int|
            0 <= t < len implies json_arr_view(out@, 0)[t] == json_arr_view(items@, 0)[t] by {
            assert(json_arr_view(out@, 0)[t] == json_view(out@[t]));
            assert(json_arr_view(items@, 0)[t] == json_view(items@[t]));
        }
        assert(json_arr_view(out@, 0) =~= json_arr_view(items@, 0));
    }
    out
}

/// The document form of the query-parameter mapping.
fn encode_params_obj(qs: &Vec<(String, ParamValue)>) -> (r: Vec<(String, Json)>)
    ensures
        json_obj_view(r@, 0) == enc_params(params_view(qs@)),
{
    let ghost target = enc_params(params_view(qs@));
    let mut out: Vec<(String, Json)> = Vec::new();
    let len = qs.len();
    let mut k: usize = 0;
    proof {
        lemma_json_obj_view(out@, 0);
        assert(json_obj_view(out@, 0) =~= target.take(0));
    }
    while k < len
        invariant
            k <= len,
            len == qs@.len(),
            target == enc_params(params_view(qs@)),
            target.len() == len,
            forall|t: int|
                0 <= t < len ==> target[t] == (qs@[t].0@, enc_param(qs@[t].1@)),
            json_obj_view(out@, 0) == target.take(k as int),
        decreases len - k,
    {
        let ghost pre = out@;
        let key = qs[k].0.clone();
        let value: Json = match &qs[k].1 {
            ParamValue::StringParam(v) => Json::Str(v.clone()),
            ParamValue::NumberParam(v) => Json::Num(v.clone()),
            ParamValue::BoolParam(b) => Json::Bool(*b),
            ParamValue::ListParam(items) => Json::Arr(clone_json_list(items)),
        };
        proof {
            assert(json_view(value) == enc_param(qs@[k as int].1@));
        }
        out.push((key, value));
        proof {
            lemma_obj_view_push(pre, out@.last());
            assert(target.take(k + 1) =~= target.take(k as int).push(target[k as int]));
        }
        k += 1;
    }
    proof {
        assert(target.take(len as int) =~= target);
    }
    out
}

/// The document form of a string-to-string mapping.
fn encode_strings_obj(hs: &Vec<(String, String)>) -> (r: Vec<(String, Json)>)
    ensures
        json_obj_view(r@, 0) == enc_strings(pairs_view(hs@)),
{
    let ghost target = enc_strings(pairs_view(hs@));
    let mut out: Vec<(String, Json)> = Vec::new();
    let len = hs.len();
    let mut k: usize = 0;
    proof {
        lemma_json_obj_view(out@, 0);
        assert(json_obj_view(out@, 0) =~= target.take(0));
    }
    while k < len
        invariant
            k <= len,
            len == hs@.len(),
            target == enc_strings(pairs_view(hs@)),
            target.len() == len,
            forall|t: int| 0 <= t < len ==> target[t] == (hs@[t].0@, JsonV::Str(hs@[t].1@)),
            json_obj_view(out@, 0) == target.take(k as int),
        decreases len - k,
    {
        let ghost pre = out@;
        out.push((hs[k].0.clone(), Json::Str(hs[k].1.clone())));
        proof {
            lemma_obj_view_push(pre, out@.last());
            assert(target.take(k + 1) =~= target.take(k as int).push(target[k as int]));
        }
        k += 1;
    }
    proof {
        assert(target.take(len as int) =~= target);
    }
    out
}

/// The document form of a body declaration.
fn encode_body(b: &Body) -> (r: Json)
    ensures
        r@ == enc_body(b@),
{
    match b {
        Body::File { file } => {
            let mut fields: Vec<(String, Json)> = Vec::new();
            fields.push((String::from_str("file"), Json::Str(file.clone())));
            proof {
                lemma_json_obj_view(fields@, 0);
                assert(json_obj_view(fields@, 0) =~= seq![("file"@, JsonV::Str(file@))]);
            }
            Json::Obj(fields)
        },
        Body::Content { content, trim } => {
            let mut fields: Vec<(String, Json)> = Vec::new();
            fields.push((String::from_str("content"), Json::Str(content.clone())));
            proof {
                lemma_json_obj_view(fields@, 0);
                assert(json_obj_view(fields@, 0) =~= seq![("content"@, JsonV::Str(content@))]);
            }
            match trim {
                Some(t) => {
                    let ghost pre = fields@;
                    fields.push((String::from_str("trim"), Json::Bool(*t)));
                    proof {
                        lemma_obj_view_push(pre, fields@.last());
                        assert(json_obj_view(fields@, 0) =~= seq![
                            ("content"@, JsonV::Str(content@)),
                        ] + seq![("trim"@, JsonV::Bool(*t))]);
                    }
                },
                None => {
                    proof {
                        assert(json_obj_view(fields@, 0) =~= seq![
                            ("content"@, JsonV::Str(content@)),
                        ] + Seq::<(Seq<char>, JsonV)>::empty());
                    }
                },
            }
            Json::Obj(fields)
        },
    }
}

/// The document form of an authentication declaration.
fn encode_auth(a: &Authentication) -> (r: Json)
    ensures
        r@ == enc_auth(a@),
{
    match a {
        Authentication::Basic { username, password } => {
            let mut fields: Vec<(String, Json)> = Vec::new();
            fields.push((String::from_str("type"), Json::Str(String::from_str("basic"))));
            proof {
                lemma_json_obj_view(fields@, 0);
                assert(json_obj_view(fields@, 0) =~= seq![("type"@, JsonV::Str("basic"@))]);
            }
            let ghost pre1 = fields@;
            fields.push((String::from_str("username"), Json::Str(username.clone())));
            proof {
                lemma_obj_view_push(pre1, fields@.last());
                assert(json_obj_view(fields@, 0) =~= seq![
                    ("type"@, JsonV::Str("basic"@)),
                    ("username"@, JsonV::Str(username@)),
                ]);
            }
            match password {
                Some(p) => {
                    let ghost pre2 = fields@;
                    fields.push((String::from_str("password"), Json::Str(p.clone())));
                    proof {
                        lemma_obj_view_push(pre2, fields@.last());
                        assert(json_obj_view(fields@, 0) =~= seq![
                            ("type"@, JsonV::Str("basic"@)),
                            ("username"@, JsonV::Str(username@)),
                        ] + seq![("password"@, JsonV::Str(p@))]);
                    }
                },
                None => {
                    proof {
                        assert(json_obj_view(fields@, 0) =~= seq![
                            ("type"@, JsonV::Str("basic"@)),
                            ("username"@, JsonV::Str(username@)),
                        ] + Seq::<(Seq<char>, JsonV)>::empty());
                    }
                },
            }
            Json::Obj(fields)
        },
        Authentication::Bearer { token } => {
            let mut fields: Vec<(String, Json)> = Vec::new();
            fields.push((String::from_str("type"), Json::Str(String::from_str("bearer"))));
            proof {
                lemma_json_obj_view(fields@, 0);
                assert(json_obj_view(fields@, 0) =~= seq![("type"@, JsonV::Str("bearer"@))]);
            }
            let ghost pre1 = fields@;
            fields.push((String::from_str("token"), Json::Str(token.clone())));
            proof {
                lemma_obj_view_push(pre1, fields@.last());
                assert(json_obj_view(fields@, 0) =~= seq![
                    ("type"@, JsonV::Str("bearer"@)),
                    ("token"@, JsonV::Str(token@)),
                ]);
            }
            Json::Obj(fields)
        },
    }
}

/// Serializes a request template to its document form. Nothing is lost:
/// [`lemma_document_round_trip`] shows that reading the document back
/// recovers the template exactly.
#[verifier::rlimit(60)]
pub fn encode_request(req: &Request) -> (r: Json)
    ensures
        r@ == spec_encode(req@),
{
    let ghost base = seq![
        ("name"@, JsonV::Str(req@.name)),
        ("uri"@, JsonV::Str(req@.uri)),
        ("method"@, JsonV::Str(req@.method.spec_name())),
    ];
    let mut fields: Vec<(String, Json)> = Vec::new();
    fields.push((String::from_str("name"), Json::Str(req.name.clone())));
    proof {
        lemma_json_obj_view(fields@, 0);
        assert(json_obj_view(fields@, 0) =~= seq![("name"@, JsonV::Str(req@.name))]);
    }
    let ghost pre1 = fields@;
    fields.push((String::from_str("uri"), Json::Str(req.uri.clone())));
    proof {
        lemma_obj_view_push(pre1, fields@.last());
    }
    let ghost pre2 = fields@;
    fields.push((String::from_str("method"), Json::Str(String::from_str(req.method.name()))));
    proof {
        lemma_obj_view_push(pre2, fields@.last());
        assert(json_obj_view(fields@, 0) =~= base);
    }
    let ghost qseg = opt_field(
        "queryParams"@,
        match req@.query_params {
            Some(q) => Some(JsonV::Obj(enc_params(q))),
            None => None,
        },
    );
    match &req.query_params {
        Some(qs) => {
            let ghost pre = fields@;
            let obj = encode_params_obj(qs);
            fields.push((String::from_str("queryParams"), Json::Obj(obj)));
            proof {
                lemma_obj_view_push(pre, fields@.last());
                assert(json_obj_view(fields@, 0) =~= base + qseg);
            }
        },
        None => {
            proof {
                assert(json_obj_view(fields@, 0) =~= base + qseg);
            }
        },
    }
    let ghost hseg = opt_field(
        "headers"@,
        match req@.headers {
            Some(h) => Some(JsonV::Obj(enc_strings(h))),
            None => None,
        },
    );
    match &req.headers {
        Some(hs) => {
            let ghost pre = fields@;
            let obj = encode_strings_obj(hs);
            fields.push((String::from_str("headers"), Json::Obj(obj)));
            proof {
                lemma_obj_view_push(pre, fields@.last());
                assert(json_obj_view(fields@, 0) =~= base + qseg + hseg);
            }
        },
        None => {
            proof {
                assert(json_obj_view(fields@, 0) =~= base + qseg + hseg);
            }
        },
    }
    let ghost bseg = opt_field(
        "body"@,
        match req@.body {
            Some(b) => Some(enc_body(b)),
            None => None,
        },
    );
    match &req.body {
        Some(b) => {
            let ghost pre = fields@;
            let obj = encode_body(b);
            fields.push((String::from_str("body"), obj));
            proof {
                lemma_obj_view_push(pre, fields@.last());
                assert(json_obj_view(fields@, 0) =~= base + qseg + hseg + bseg);
            }
        },
        None => {
            proof {
                assert(json_obj_view(fields@, 0) =~= base + qseg + hseg + bseg);
            }
        },
    }
    let ghost aseg = opt_field(
        "authentication"@,
        match req@.authentication {
            Some(a) => Some(enc_auth(a)),
            None => None,
        },
    );
    match &req.authentication {
        Some(a) => {
            let ghost pre = fields@;
            let obj = encode_auth(a);
            fields.push((String::from_str("authentication"), obj));
            proof {
                lemma_obj_view_push(pre, fields@.last());
                assert(json_obj_view(fields@, 0) =~= base + qseg + hseg + bseg + aseg);
            }
        },
        None => {
            proof {
                assert(json_obj_view(fields@, 0) =~= base + qseg + hseg + bseg + aseg);
            }
        },
    }
    let ghost eseg = opt_field(
        "extractors"@,
        match req@.extractors {
            Some(e) => Some(JsonV::Obj(enc_strings(e))),
            None => None,
        },
    );
    match &req.extractors {
        Some(es) => {
            let ghost pre = fields@;
            let obj = encode_strings_obj(es);
            fields.push((String::from_str("extractors"), Json::Obj(obj)));
            proof {
                lemma_obj_view_push(pre, fields@.last());
                assert(json_obj_view(fields@, 0) =~= base + qseg + hseg + bseg + aseg + eseg);
            }
        },
        None => {
            proof {
                assert(json_obj_view(fields@, 0) =~= base + qseg + hseg + bseg + aseg + eseg);
            }
        },
    }
    proof {
        assert(spec_encode_fields(req@) == base + qseg + hseg + bseg + aseg + eseg);
    }
    Json::Obj(fields)
}

/// Reads one query-parameter value out of its document form.
fn decode_param(v: &Json) -> (r: Option<ParamValue>)
    ensures
        r is Some <==> dec_param(v@) is Some,
        r matches Some(p) ==> dec_param(v@) == Some(p@),
{
    match v {
        Json::Str(s) => Some(ParamValue::StringParam(s.clone())),
        Json::Num(s) => Some(ParamValue::NumberParam(s.clone())),
        Json::Bool(b) => Some(ParamValue::BoolParam(*b)),
        Json::Arr(items) => Some(ParamValue::ListParam(clone_json_list(items))),
        _ => None,
    }
}

/// Reads a query-parameter mapping out of its document form.
fn decode_params_obj(fields: &Vec<(String, Json)>) -> (r: Option<Vec<(String, ParamValue)>>)
    ensures
        r is Some <==> dec_params(json_obj_view(fields@, 0), 0) is Some,
        r matches Some(out) ==> dec_params(json_obj_view(fields@, 0), 0) == Some(
            params_view(out@),
        ),
{
    let ghost fv = json_obj_view(fields@, 0);
    proof {
        lemma_json_obj_view(fields@, 0);
    }
    let mut out: Vec<(String, ParamValue)> = Vec::new();
    let n = fields.len();
    let mut i: usize = 0;
    proof {
        assert(params_view(out@) =~= Seq::<(Seq<char>, ParamValueV)>::empty());
    }
    while i < n
        invariant
            n == fields@.len(),
            fv == json_obj_view(fields@, 0),
            fv.len() == n,
            i <= n,
            forall|u: int| 0 <= u < n ==> fv[u] == (fields@[u].0@, json_view(fields@[u].1)),
            dec_params(fv, i as int) is Some ==> (dec_params(fv, 0) is Some && dec_params(
                fv,
                0,
            )->0 == params_view(out@) + dec_params(fv, i as int)->0),
            dec_params(fv, i as int) is None ==> dec_params(fv, 0) is None,
        decreases n - i,
    {
        let ghost pre = out@;
        match decode_param(&fields[i].1) {
            None => {
                return None;
            },
            Some(p) => {
                let ghost entry = (fv[i as int].0, p@);
                out.push((fields[i].0.clone(), p));
                proof {
                    assert(params_view(out@) =~= params_view(pre).push(entry));
                    if dec_params(fv, i + 1) is Some {
                        assert((params_view(pre) + seq![entry]) + dec_params(fv, i + 1)->0
                            =~= params_view(pre) + (seq![entry] + dec_params(fv, i + 1)->0));
                    }
                }
            },
        }
        i += 1;
    }
    proof {
        assert(dec_params(fv, n as int) == Some(Seq::<(Seq<char>, ParamValueV)>::empty()));
        assert(params_view(out@) + Seq::<(Seq<char>, ParamValueV)>::empty() =~= params_view(out@));
    }
    Some(out)
}

/// Reads a string-to-string mapping out of its document form.
fn decode_strings_obj(fields: &Vec<(String, Json)>) -> (r: Option<Vec<(String, String)>>)
    ensures
        r is Some <==> dec_strings(json_obj_view(fields@, 0), 0) is Some,
        r matches Some(out) ==> dec_strings(json_obj_view(fields@, 0), 0) == Some(
            pairs_view(out@),
        ),
{
    let ghost fv = json_obj_view(fields@, 0);
    proof {
        lemma_json_obj_view(fields@, 0);
    }
    let mut out: Vec<(String, String)> = Vec::new();
    let n = fields.len();
    let mut i: usize = 0;
    proof {
        assert(pairs_view(out@) =~= Seq::<(Seq<char>, Seq<char>)>::empty());
    }
    while i < n
        invariant
            n == fields@.len(),
            fv == json_obj_view(fields@, 0),
            fv.len() == n,
            i <= n,
            forall|u: int| 0 <= u < n ==> fv[u] == (fields@[u].0@, json_view(fields@[u].1)),
            dec_strings(fv, i as int) is Some ==> (dec_strings(fv, 0) is Some && dec_strings(
                fv,
                0,
            )->0 == pairs_view(out@) + dec_strings(fv, i as int)->0),
            dec_strings(fv, i as int) is None ==> dec_strings(fv, 0) is None,
        decreases n - i,
    {
        let ghost pre = out@;
        match &fields[i].1 {
            Json::Str(value) => {
                let ghost entry = (fv[i as int].0, value@);
                out.push((fields[i].0.clone(), value.clone()));
                proof {
                    assert(pairs_view(out@) =~= pairs_view(pre).push(entry));
                    if dec_strings(fv, i + 1) is Some {
                        assert((pairs_view(pre) + seq![entry]) + dec_strings(fv, i + 1)->0
                            =~= pairs_view(pre) + (seq![entry] + dec_strings(fv, i + 1)->0));
                    }
                }
            },
            _ => {
                return None;
            },
        }
        i += 1;
    }
    proof {
        assert(dec_strings(fv, n as int) == Some(Seq::<(Seq<char>, Seq<char>)>::empty()));
        assert(pairs_view(out@) + Seq::<(Seq<char>, Seq<char>)>::empty() =~= pairs_view(out@));
    }
    Some(out)
}

/// Reads a body declaration out of its document form.
fn decode_body(j: &Json) -> (r: Option<Body>)
    ensures
        r is Some <==> dec_body(j@) is Some,
        r matches Some(b) ==> dec_body(j@) == Some(b@),
{
    match j {
        Json::Obj(fields) => {
            match obj_get(fields, "file") {
                Some(Json::Str(f)) => Some(Body::File { file: f.clone() }),
                Some(_) => None,
                None => {
                    match obj_get(fields, "content") {
                        Some(Json::Str(c)) => {
                            match obj_get(fields, "trim") {
                                Some(Json::Bool(b)) => Some(
                                    Body::Content { content: c.clone(), trim: Some(*b) },
                                ),
                                Some(_) => None,
                                None => Some(Body::Content { content: c.clone(), trim: None }),
                            }
                        },
                        _ => None,
                    }
                },
            }
        },
        _ => None,
    }
}

/// Reads an authentication declaration out of its document form.
fn decode_auth(j: &Json) -> (r: Option<Authentication>)
    ensures
        r is Some <==> dec_auth(j@) is Some,
        r matches Some(a) ==> dec_auth(j@) == Some(a@),
{
    match j {
        Json::Obj(fields) => {
            match obj_get(fields, "type") {
                Some(Json::Str(ty)) => {
                    if crate::text::str_eq(ty.as_str(), "basic") {
                        match obj_get(fields, "username") {
                            Some(Json::Str(u)) => {
                                match obj_get(fields, "password") {
                                    Some(Json::Str(p)) => Some(
                                        Authentication::Basic {
                                            username: u.clone(),
                                            password: Some(p.clone()),
                                        },
                                    ),
                                    Some(_) => None,
                                    None => Some(
                                        Authentication::Basic {
                                            username: u.clone(),
                                            password: None,
                                        },
                                    ),
                                }
                            },
                            _ => None,
                        }
                    } else if crate::text::str_eq(ty.as_str(), "bearer") {
                        match obj_get(fields, "token") {
                            Some(Json::Str(tok)) => Some(
                                Authentication::Bearer { token: tok.clone() },
                            ),
                            _ => None,
                        }
                    } else {
                        None
                    }
                },
                _ => None,
            }
        },
        _ => None,
    }
}

/// Reads a request template back out of its document form, rejecting a
/// document that does not describe one. Reloading an encoded template
/// recovers it exactly: see [`lemma_document_round_trip`].
pub fn decode_request(j: &Json) -> (r: Option<Request>)
    ensures
        r is Some <==> spec_decode(j@) is Some,
        r matches Some(req) ==> spec_decode(j@) == Some(req@),
{
    match j {
        Json::Obj(fields) => {
            let name = match obj_get(fields, "name") {
                Some(Json::Str(s)) => s.clone(),
                _ => {
                    return None;
                },
            };
            let uri = match obj_get(fields, "uri") {
                Some(Json::Str(s)) => s.clone(),
                _ => {
                    return None;
                },
            };
            let method = match obj_get(fields, "method") {
                Some(Json::Str(s)) => {
                    match Method::parse(s.as_str()) {
                        Some(m) => m,
                        None => {
                            return None;
                        },
                    }
                },
                _ => {
                    return None;
                },
            };
            let query_params = match obj_get(fields, "queryParams") {
                None => None,
                Some(Json::Obj(q)) => {
                    match decode_params_obj(q) {
                        Some(out) => Some(out),
                        None => {
                            return None;
                        },
                    }
                },
                Some(_) => {
                    return None;
                },
            };
            let headers = match obj_get(fields, "headers") {
                None => None,
                Some(Json::Obj(h)) => {
                    match decode_strings_obj(h) {
                        Some(out) => Some(out),
                        None => {
                            return None;
                        },
                    }
                },
                Some(_) => {
                    return None;
                },
            };
            let body = match obj_get(fields, "body") {
                None => None,
                Some(b) => {
                    match decode_body(b) {
                        Some(out) => Some(out),
                        None => {
                            return None;
                        },
                    }
                },
            };
            let authentication = match obj_get(fields, "authentication") {
                None => None,
                Some(a) => {
                    match decode_auth(a) {
                        Some(out) => Some(out),
                        None => {
                            return None;
                        },
                    }
                },
            };
            let extractors = match obj_get(fields, "extractors") {
                None => None,
                Some(Json::Obj(e)) => {
                    match decode_strings_obj(e) {
                        Some(out) => Some(out),
                        None => {
                            return None;
                        },
                    }
                },
                Some(_) => {
                    return None;
                },
            };
            Some(
                Request {
                    name,
                    uri,
                    method,
                    query_params,
                    headers,
                    body,
                    authentication,
                    extractors,
                },
            )
        },
        _ => None,
    }
}

} // verus!
