//! The declarative data model of one HTTP call: method, query-parameter
//! values, body and authentication.

use vstd::prelude::*;
use vstd::string::StrSliceExecFns;
use crate::json::{Json, JsonV, json_arr_view};
use crate::text::{eq_ignore_ascii_case, spec_eq_ignore_ascii_case, utf8_lossy, utf8_lossy_of};

verus! {

/// An HTTP method verb; a closed set. Method names in documents are matched
/// without regard to ASCII case by [`Method::parse`].
#[derive(Debug, Clone, Copy, PartialEq, Eq, Structural)]
pub enum Method {
    Get,
    Post,
    Put,
    Delete,
    Patch,
    Head,
}

impl Method {
    /// The canonical verb, as written on the wire.
    pub open spec fn spec_name(self) -> Seq<char> {
        match self {
            Method::Get => "GET"@,
            Method::Post => "POST"@,
            Method::Put => "PUT"@,
            Method::Delete => "DELETE"@,
            Method::Patch => "PATCH"@,
            Method::Head => "HEAD"@,
        }
    }

    /// The canonical verb of this method.
    pub fn name(&self) -> (r: &'static str)
        ensures
            r@ == self.spec_name(),
    {
        match self {
            Method::Get => "GET",
            Method::Post => "POST",
            Method::Put => "PUT",
            Method::Delete => "DELETE",
            Method::Patch => "PATCH",
            Method::Head => "HEAD",
        }
    }

    /// The method a document names, matched without regard to ASCII case.
    pub open spec fn spec_parse(s: Seq<char>) -> Option<Method> {
        if spec_eq_ignore_ascii_case(s, "get"@) {
            Some(Method::Get)
        } else if spec_eq_ignore_ascii_case(s, "post"@) {
            Some(Method::Post)
        } else if spec_eq_ignore_ascii_case(s, "put"@) {
            Some(Method::Put)
        } else if spec_eq_ignore_ascii_case(s, "delete"@) {
            Some(Method::Delete)
        } else if spec_eq_ignore_ascii_case(s, "patch"@) {
            Some(Method::Patch)
        } else if spec_eq_ignore_ascii_case(s, "head"@) {
            Some(Method::Head)
        } else {
            None
        }
    }

    /// The case-insensitive method parser for the document-loading boundary.
    pub fn parse(s: &str) -> (r: Option<Method>)
        ensures
            r == Method::spec_parse(s@),
    {
        if eq_ignore_ascii_case(s, "get") {
            Some(Method::Get)
        } else if eq_ignore_ascii_case(s, "post") {
            Some(Method::Post)
        } else if eq_ignore_ascii_case(s, "put") {
            Some(Method::Put)
        } else if eq_ignore_ascii_case(s, "delete") {
            Some(Method::Delete)
        } else if eq_ignore_ascii_case(s, "patch") {
            Some(Method::Patch)
        } else if eq_ignore_ascii_case(s, "head") {
            Some(Method::Head)
        } else {
            None
        }
    }
}

/// One query-parameter value of a request template.
#[derive(Debug, PartialEq, Eq)]
pub enum ParamValue {
    /// A scalar string.
    StringParam(String),
    /// A scalar number, carried as its rendered numeral text: the engine
    /// only ever threads a number's text form into the query.
    NumberParam(String),
    /// A scalar boolean.
    BoolParam(bool),
    /// A list of JSON-typed values; it expands into repeated query
    /// parameters sharing the key, in list order.
    ListParam(Vec<Json>),
}

/// The mathematical model of one query-parameter value.
pub enum ParamValueV {
    Str(Seq<char>),
    Num(Seq<char>),
    Bool(bool),
    List(Seq<JsonV>),
}

impl View for ParamValue {
    type V = ParamValueV;

    open spec fn view(&self) -> ParamValueV {
        match self {
            ParamValue::StringParam(s) => ParamValueV::Str(s@),
            ParamValue::NumberParam(s) => ParamValueV::Num(s@),
            ParamValue::BoolParam(b) => ParamValueV::Bool(*b),
            ParamValue::ListParam(items) => ParamValueV::List(json_arr_view(items@, 0)),
        }
    }
}

/// A character that trimming strips from the ends of inline body content:
/// the Unicode white-space set.
pub open spec fn is_space(c: char) -> bool {
    c == ' ' || c == '\t' || c == '\n' || c == '\r' || c == '\u{b}' || c == '\u{c}' || c
        == '\u{85}' || c == '\u{a0}' || c == '\u{1680}' || ('\u{2000}' <= c && c <= '\u{200a}')
        || c == '\u{2028}' || c == '\u{2029}' || c == '\u{202f}' || c == '\u{205f}' || c
        == '\u{3000}'
}

/// First position at or after `i` that does not hold whitespace.
pub open spec fn trim_start_idx(s: Seq<char>, i: int) -> int
    decreases s.len() - i,
{
    if 0 <= i < s.len() && is_space(s[i]) {
        trim_start_idx(s, i + 1)
    } else {
        i
    }
}

/// Last position at or before `e` such that no whitespace stands right
/// before it.
pub open spec fn trim_end_idx(s: Seq<char>, e: int) -> int
    decreases e,
{
    if 0 < e <= s.len() && is_space(s[e - 1]) {
        trim_end_idx(s, e - 1)
    } else {
        e
    }
}

/// The string with leading and trailing whitespace removed.
pub open spec fn spec_trim(s: Seq<char>) -> Seq<char> {
    let b = trim_start_idx(s, 0);
    let e = trim_end_idx(s, s.len() as int);
    if 0 <= b <= e <= s.len() {
        s.subrange(b, e)
    } else {
        Seq::empty()
    }
}

proof fn lemma_trim_start_idx(s: Seq<char>, i: int)
    requires
        0 <= i <= s.len(),
    ensures
        i <= trim_start_idx(s, i) <= s.len(),
        forall|j: int| i <= j < trim_start_idx(s, i) ==> is_space(s[j]),
        trim_start_idx(s, i) < s.len() ==> !is_space(s[trim_start_idx(s, i)]),
    decreases s.len() - i,
{
    if i < s.len() && is_space(s[i]) {
        lemma_trim_start_idx(s, i + 1);
    }
}

proof fn lemma_trim_end_idx(s: Seq<char>, e: int)
    requires
        0 <= e <= s.len(),
    ensures
        0 <= trim_end_idx(s, e) <= e,
        forall|j: int| trim_end_idx(s, e) <= j < e ==> is_space(s[j]),
        trim_end_idx(s, e) > 0 ==> !is_space(s[trim_end_idx(s, e) - 1]),
    decreases e,
{
    if 0 < e && is_space(s[e - 1]) {
        lemma_trim_end_idx(s, e - 1);
    }
}

fn is_space_exec(c: char) -> (r: bool)
    ensures
        r == is_space(c),
{
    c == ' ' || c == '\t' || c == '\n' || c == '\r' || c == '\u{b}' || c == '\u{c}' || c
        == '\u{85}' || c == '\u{a0}' || c == '\u{1680}' || ('\u{2000}' <= c && c <= '\u{200a}')
        || c == '\u{2028}' || c == '\u{2029}' || c == '\u{202f}' || c == '\u{205f}' || c
        == '\u{3000}'
}

fn trim_start_exec(s: &str) -> (b: usize)
    ensures
        b as int == trim_start_idx(s@, 0),
        b <= s@.len(),
{
    let len = s.unicode_len();
    let mut b: usize = 0;
    while b < len
        invariant
            b <= len,
            len == s@.len(),
            trim_start_idx(s@, 0) == trim_start_idx(s@, b as int),
        decreases len - b,
    {
        if !is_space_exec(s.get_char(b)) {
            return b;
        }
        b += 1;
    }
    b
}

fn trim_end_exec(s: &str) -> (e: usize)
    ensures
        e as int == trim_end_idx(s@, s@.len() as int),
        e <= s@.len(),
{
    let len = s.unicode_len();
    let mut e: usize = len;
    while e > 0
        invariant
            e <= len,
            len == s@.len(),
            trim_end_idx(s@, len as int) == trim_end_idx(s@, e as int),
        decreases e,
    {
        if !is_space_exec(s.get_char(e - 1)) {
            return e;
        }
        e -= 1;
    }
    e
}

/// Removes leading and trailing whitespace from inline body content.
pub fn trim_text(s: &str) -> (r: String)
    ensures
        r@ == spec_trim(s@),
{
    proof {
        lemma_trim_start_idx(s@, 0);
        lemma_trim_end_idx(s@, s@.len() as int);
    }
    let b = trim_start_exec(s);
    let e = trim_end_exec(s);
    if b <= e {
        let r = s.substring_char(b, e);
        r.to_owned()
    } else {
        String::new()
    }
}

/// The body of a request: a file reference, re-read as raw bytes at each
/// execution, or inline content, optionally trimmed of Unicode whitespace.
#[derive(Debug, PartialEq, Eq)]
pub enum Body {
    File { file: String },
    Content { content: String, trim: Option<bool> },
}

/// The mathematical model of a body declaration.
pub enum BodyV {
    File { file: Seq<char> },
    Content { content: Seq<char>, trim: Option<bool> },
}

impl View for Body {
    type V = BodyV;

    open spec fn view(&self) -> BodyV {
        match self {
            Body::File { file } => BodyV::File { file: file@ },
            Body::Content { content, trim } => BodyV::Content { content: content@, trim: *trim },
        }
    }
}

/// The body text before substitution: the file's bytes decoded lossily as
/// UTF-8, or the inline content honoring the trim flag. `None` where the
/// body is a file reference and no file content is at hand.
pub open spec fn spec_body_text(b: BodyV, file_content: Option<Seq<u8>>) -> Option<Seq<char>> {
    match b {
        BodyV::File { file } => match file_content {
            Some(bytes) => Some(utf8_lossy_of(bytes)),
            None => None,
        },
        BodyV::Content { content, trim } => Some(
            if trim == Some(true) {
                spec_trim(content)
            } else {
                content
            },
        ),
    }
}

impl Body {
    /// The body text before substitution. For a file body the caller hands
    /// in the bytes it read — the engine itself does no file reading — and
    /// `None` stands for an unreadable file.
    pub fn text(&self, file_content: Option<Vec<u8>>) -> (r: Option<String>)
        ensures
            r is Some <==> spec_body_text(self@, match file_content {
                Some(bytes) => Some(bytes@),
                None => None,
            }) is Some,
            r is Some ==> (r->0)@ == spec_body_text(self@, match file_content {
                Some(bytes) => Some(bytes@),
                None => None,
            })->0,
    {
        match self {
            Body::File { file: _ } => match file_content {
                Some(bytes) => Some(utf8_lossy(&bytes)),
                None => None,
            },
            Body::Content { content, trim } => {
                let do_trim = match trim {
                    Some(b) => *b,
                    None => false,
                };
                if do_trim {
                    Some(trim_text(content.as_str()))
                } else {
                    Some(content.clone())
                }
            },
        }
    }
}

/// How a request authenticates: HTTP Basic credentials or a bearer token.
/// Every field is itself a substitution target.
#[derive(Debug, PartialEq, Eq)]
pub enum Authentication {
    Basic { username: String, password: Option<String> },
    Bearer { token: String },
}

/// The mathematical model of an authentication declaration.
pub enum AuthenticationV {
    Basic { username: Seq<char>, password: Option<Seq<char>> },
    Bearer { token: Seq<char> },
}

impl View for Authentication {
    type V = AuthenticationV;

    open spec fn view(&self) -> AuthenticationV {
        match self {
            Authentication::Basic { username, password } => AuthenticationV::Basic {
                username: username@,
                password: password.deep_view(),
            },
            Authentication::Bearer { token } => AuthenticationV::Bearer { token: token@ },
        }
    }
}

} // verus!
