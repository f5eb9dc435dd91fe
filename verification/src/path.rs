//! JSON-path expressions as the extractors use them: `$` for the document
//! root followed by child selectors (`.name` or `['name']`), array indexes
//! (`[3]`), wildcards (`.*`, `[*]`) and recursive descent (`..name`). A path
//! is evaluated against a JSON value to the list of matching values in
//! document order; an extractor takes the first match.

use vstd::prelude::*;
use vstd::string::StrSliceExecFns;
use crate::json::{Json, JsonV};
use crate::text::str_eq;

verus! {

/// One selector of a JSON-path expression.
#[derive(Debug, PartialEq, Eq)]
pub enum PathSeg {
    /// `.name` or `['name']`: the member of that name of an object.
    Child(String),
    /// `[n]`: the n-th element of an array, counted from zero.
    Index(usize),
    /// `.*` or `[*]`: every element of an array, or every member value of an
    /// object, in document order.
    Wild,
    /// `..name`: the member of that name of every object in the subtree —
    /// the value itself included — in document order.
    Desc(String),
}

/// The mathematical model of one selector.
pub enum PathSegV {
    Child(Seq<char>),
    Index(int),
    Wild,
    Desc(Seq<char>),
}

impl View for PathSeg {
    type V = PathSegV;

    open spec fn view(&self) -> PathSegV {
        match self {
            PathSeg::Child(name) => PathSegV::Child(name@),
            PathSeg::Index(n) => PathSegV::Index(*n as int),
            PathSeg::Wild => PathSegV::Wild,
            PathSeg::Desc(name) => PathSegV::Desc(name@),
        }
    }
}

pub open spec fn segs_view(s: Seq<PathSeg>) -> Seq<PathSegV> {
    s.map_values(|x: PathSeg| x@)
}

/// The first member of that name in an object, scanning in document order.
pub open spec fn obj_lookup(fields: Seq<(Seq<char>, JsonV)>, name: Seq<char>) -> Option<JsonV>
    decreases fields.len(),
{
    if fields.len() == 0 {
        None
    } else if fields[0].0 == name {
        Some(fields[0].1)
    } else {
        obj_lookup(fields.drop_first(), name)
    }
}

/// The member values of an object, in document order.
pub open spec fn obj_values(fields: Seq<(Seq<char>, JsonV)>) -> Seq<JsonV> {
    fields.map_values(|f: (Seq<char>, JsonV)| f.1)
}

/// The values that the selectors from `i` on match under `v`, in document
/// order.
pub open spec fn spec_eval(v: JsonV, segs: Seq<PathSegV>, i: int) -> Seq<JsonV>
    decreases segs.len() - i, v, 3int,
{
    if i < 0 || i >= segs.len() {
        seq![v]
    } else {
        match segs[i] {
            PathSegV::Child(name) => match v {
                JsonV::Obj(fields) => match obj_lookup(fields, name) {
                    Some(c) => spec_eval(c, segs, i + 1),
                    None => Seq::empty(),
                },
                _ => Seq::empty(),
            },
            PathSegV::Index(n) => match v {
                JsonV::Arr(items) => if 0 <= n < items.len() {
                    spec_eval(items[n], segs, i + 1)
                } else {
                    Seq::empty()
                },
                _ => Seq::empty(),
            },
            PathSegV::Wild => match v {
                JsonV::Arr(items) => spec_eval_list(items, segs, i + 1),
                JsonV::Obj(fields) => spec_eval_list(obj_values(fields), segs, i + 1),
                _ => Seq::empty(),
            },
            PathSegV::Desc(name) => spec_eval_desc(v, name, segs, i),
        }
    }
}

/// The matches of the selectors from `i` on under each value of `vs` in
/// turn, concatenated in order.
pub open spec fn spec_eval_list(vs: Seq<JsonV>, segs: Seq<PathSegV>, i: int) -> Seq<JsonV>
    decreases segs.len() - i, vs, 3int,
{
    if i < 0 || vs.len() == 0 {
        Seq::empty()
    } else {
        spec_eval(vs[0], segs, i) + spec_eval_list(vs.drop_first(), segs, i)
    }
}

/// What a descent selector at `i` matches directly at `v`: the member of
/// that name, where `v` is an object that has one, followed by the remaining
/// selectors.
pub open spec fn spec_desc_own(v: JsonV, name: Seq<char>, segs: Seq<PathSegV>, i: int) -> Seq<
    JsonV,
>
    decreases segs.len() - i, v, 1int,
{
    if i < 0 || i >= segs.len() {
        Seq::empty()
    } else {
        match v {
            JsonV::Obj(fields) => match obj_lookup(fields, name) {
                Some(c) => spec_eval(c, segs, i + 1),
                None => Seq::empty(),
            },
            _ => Seq::empty(),
        }
    }
}

/// What a descent selector at `i` matches in the subtree of `v`, the value
/// itself included, in document order: the match at `v` first, then the
/// matches under each child in order.
pub open spec fn spec_eval_desc(v: JsonV, name: Seq<char>, segs: Seq<PathSegV>, i: int) -> Seq<
    JsonV,
>
    decreases segs.len() - i, v, 2int,
{
    if i < 0 || i >= segs.len() {
        Seq::empty()
    } else {
        spec_desc_own(v, name, segs, i) + (match v {
            JsonV::Arr(items) => spec_eval_desc_arr(items, name, segs, i),
            JsonV::Obj(fields) => spec_eval_desc_obj(fields, name, segs, i),
            _ => Seq::empty(),
        })
    }
}

/// The descent matches under each element of an array, concatenated in
/// order.
pub open spec fn spec_eval_desc_arr(
    items: Seq<JsonV>,
    name: Seq<char>,
    segs: Seq<PathSegV>,
    i: int,
) -> Seq<JsonV>
    decreases segs.len() - i, items, 2int,
{
    if i < 0 || i >= segs.len() || items.len() == 0 {
        Seq::empty()
    } else {
        spec_eval_desc(items[0], name, segs, i) + spec_eval_desc_arr(
            items.drop_first(),
            name,
            segs,
            i,
        )
    }
}

/// The descent matches under each member value of an object, concatenated in
/// order.
pub open spec fn spec_eval_desc_obj(
    fields: Seq<(Seq<char>, JsonV)>,
    name: Seq<char>,
    segs: Seq<PathSegV>,
    i: int,
) -> Seq<JsonV>
    decreases segs.len() - i, fields, 2int,
{
    if i < 0 || i >= segs.len() || fields.len() == 0 {
        Seq::empty()
    } else {
        spec_eval_desc(fields[0].1, name, segs, i) + spec_eval_desc_obj(
            fields.drop_first(),
            name,
            segs,
            i,
        )
    }
}

proof fn lemma_eval_list_skip(vs: Seq<JsonV>, segs: Seq<PathSegV>, i: int, k: int)
    requires
        0 <= i,
        0 <= k <= vs.len(),
        forall|t: int| 0 <= t < k ==> spec_eval(vs[t], segs, i).len() == 0,
    ensures
        spec_eval_list(vs, segs, i) == spec_eval_list(vs.skip(k), segs, i),
    decreases k,
{
    if k > 0 {
        assert(spec_eval(vs[0], segs, i).len() == 0);
        assert(spec_eval(vs[0], segs, i) =~= Seq::<JsonV>::empty());
        assert(spec_eval_list(vs, segs, i) =~= spec_eval_list(vs.drop_first(), segs, i));
        assert(vs.drop_first() =~= vs.skip(1));
        lemma_eval_list_skip(vs.drop_first(), segs, i, k - 1);
        assert(vs.drop_first().skip(k - 1) =~= vs.skip(k));
    } else {
        assert(vs.skip(0) =~= vs);
    }
}

proof fn lemma_desc_arr_skip(vs: Seq<JsonV>, name: Seq<char>, segs: Seq<PathSegV>, i: int, k: int)
    requires
        0 <= i < segs.len(),
        0 <= k <= vs.len(),
        forall|t: int| 0 <= t < k ==> spec_eval_desc(vs[t], name, segs, i).len() == 0,
    ensures
        spec_eval_desc_arr(vs, name, segs, i) == spec_eval_desc_arr(vs.skip(k), name, segs, i),
    decreases k,
{
    if k > 0 {
        assert(spec_eval_desc(vs[0], name, segs, i).len() == 0);
        assert(spec_eval_desc(vs[0], name, segs, i) =~= Seq::<JsonV>::empty());
        assert(spec_eval_desc_arr(vs, name, segs, i) =~= spec_eval_desc_arr(
            vs.drop_first(),
            name,
            segs,
            i,
        ));
        assert(vs.drop_first() =~= vs.skip(1));
        lemma_desc_arr_skip(vs.drop_first(), name, segs, i, k - 1);
        assert(vs.drop_first().skip(k - 1) =~= vs.skip(k));
    } else {
        assert(vs.skip(0) =~= vs);
    }
}

proof fn lemma_desc_obj_skip(
    fields: Seq<(Seq<char>, JsonV)>,
    name: Seq<char>,
    segs: Seq<PathSegV>,
    i: int,
    k: int,
)
    requires
        0 <= i < segs.len(),
        0 <= k <= fields.len(),
        forall|t: int| 0 <= t < k ==> spec_eval_desc(fields[t].1, name, segs, i).len() == 0,
    ensures
        spec_eval_desc_obj(fields, name, segs, i) == spec_eval_desc_obj(
            fields.skip(k),
            name,
            segs,
            i,
        ),
    decreases k,
{
    if k > 0 {
        assert(spec_eval_desc(fields[0].1, name, segs, i).len() == 0);
        assert(spec_eval_desc(fields[0].1, name, segs, i) =~= Seq::<JsonV>::empty());
        assert(spec_eval_desc_obj(fields, name, segs, i) =~= spec_eval_desc_obj(
            fields.drop_first(),
            name,
            segs,
            i,
        ));
        assert(fields.drop_first() =~= fields.skip(1));
        lemma_desc_obj_skip(fields.drop_first(), name, segs, i, k - 1);
        assert(fields.drop_first().skip(k - 1) =~= fields.skip(k));
    } else {
        assert(fields.skip(0) =~= fields);
    }
}

pub(crate) proof fn lemma_obj_lookup_at(fields: Seq<(Seq<char>, JsonV)>, name: Seq<char>, t: int)
    requires
        0 <= t < fields.len(),
        fields[t].0 == name,
        forall|u: int| 0 <= u < t ==> fields[u].0 != name,
    ensures
        obj_lookup(fields, name) == Some(fields[t].1),
    decreases t,
{
    if t > 0 {
        assert(fields.drop_first()[t - 1] == fields[t]);
        lemma_obj_lookup_at(fields.drop_first(), name, t - 1);
    }
}

pub(crate) proof fn lemma_obj_lookup_absent(fields: Seq<(Seq<char>, JsonV)>, name: Seq<char>)
    requires
        forall|u: int| 0 <= u < fields.len() ==> fields[u].0 != name,
    ensures
        obj_lookup(fields, name) is None,
    decreases fields.len(),
{
    if fields.len() > 0 {
        lemma_obj_lookup_absent(fields.drop_first(), name);
    }
}

/// Finds the first member of that name in a document object.
pub(crate) fn obj_get<'a>(fields: &'a Vec<(String, Json)>, name: &str) -> (r: Option<&'a Json>)
    ensures
        match r {
            Some(v) => obj_lookup(crate::json::json_obj_view(fields@, 0), name@) == Some(
                crate::json::json_view(*v),
            ),
            None => obj_lookup(crate::json::json_obj_view(fields@, 0), name@) is None,
        },
{
    let ghost fv = crate::json::json_obj_view(fields@, 0);
    proof {
        crate::json::lemma_json_obj_view(fields@, 0);
    }
    let n = fields.len();
    let mut t: usize = 0;
    while t < n
        invariant
            n == fields@.len(),
            fv == crate::json::json_obj_view(fields@, 0),
            fv.len() == n,
            t <= n,
            forall|u: int| 0 <= u < n ==> fv[u] == (fields@[u].0@, crate::json::json_view(fields@[u].1)),
            forall|u: int| 0 <= u < t ==> fv[u].0 != name@,
        decreases n - t,
    {
        if str_eq(fields[t].0.as_str(), name) {
            proof {
                lemma_obj_lookup_at(fv, name@, t as int);
            }
            return Some(&fields[t].1);
        }
        t += 1;
    }
    proof {
        lemma_obj_lookup_absent(fv, name@);
    }
    None
}

/// Finds the first value, in document order, that a descent selector at `i`
/// followed by the remaining selectors matches in the subtree of `j` — the
/// match at `j` itself, where `j` is an object with that member, comes
/// before any match deeper down.
fn find_desc<'a>(j: &'a Json, name: &String, segs: &Vec<PathSeg>, i: usize) -> (r: Option<
    &'a Json,
>)
    requires
        i < segs@.len(),
    ensures
        match r {
            Some(m) => spec_eval_desc(j@, name@, segs_view(segs@), i as int).len() > 0 && m@
                == spec_eval_desc(j@, name@, segs_view(segs@), i as int)[0],
            None => spec_eval_desc(j@, name@, segs_view(segs@), i as int).len() == 0,
        },
    decreases segs@.len() - i, *j, 2int,
{
    let ghost sv = segs_view(segs@);
    let seg_count = segs.len();
    match j {
        Json::Obj(fields) => {
            proof {
                crate::json::lemma_json_obj_view(fields@, 0);
            }
            let ghost fv = crate::json::json_obj_view(fields@, 0);
            // the match at this object itself, first in document order
            match obj_get(fields, name.as_str()) {
                Some(child) => {
                    let r = find_first(child, segs, i + 1);
                    if r.is_some() {
                        proof {
                            let ghost own = spec_desc_own(j@, name@, sv, i as int);
                            assert(own == spec_eval(child@, sv, i + 1));
                            assert((own + spec_eval_desc_obj(fv, name@, sv, i as int))[0]
                                == own[0]);
                        }
                        return r;
                    }
                    proof {
                        assert(spec_desc_own(j@, name@, sv, i as int).len() == 0);
                    }
                },
                None => {
                    proof {
                        assert(spec_desc_own(j@, name@, sv, i as int).len() == 0);
                    }
                },
            }
            proof {
                assert(spec_desc_own(j@, name@, sv, i as int) =~= Seq::<JsonV>::empty());
                assert(spec_eval_desc(j@, name@, sv, i as int) =~= spec_eval_desc_obj(
                    fv,
                    name@,
                    sv,
                    i as int,
                ));
            }
            // then the matches under each member value, in order
            let n = fields.len();
            let mut t: usize = 0;
            while t < n
                invariant
                    *j == Json::Obj(*fields),
                    i < segs@.len() <= usize::MAX,
                    sv == segs_view(segs@),
                    n == fields@.len(),
                    t <= n,
                    fv == crate::json::json_obj_view(fields@, 0),
                    fv.len() == n,
                    forall|u: int|
                        0 <= u < n ==> fv[u] == (
                        fields@[u].0@,
                        crate::json::json_view(fields@[u].1),
                        ),
                    spec_eval_desc(j@, name@, sv, i as int) == spec_eval_desc_obj(
                        fv,
                        name@,
                        sv,
                        i as int,
                    ),
                    forall|u: int|
                        0 <= u < t ==> spec_eval_desc(fv[u].1, name@, sv, i as int).len() == 0,
                decreases n - t,
            {
                proof {
                    assert(decreases_to!(*j => j->Obj_0));
                    assert(decreases_to!(j->Obj_0 => j->Obj_0@));
                    assert(decreases_to!(j->Obj_0@ => j->Obj_0@[t as int]));
                    assert(decreases_to!(j->Obj_0@[t as int] => j->Obj_0@[t as int].1));
                    assert(j->Obj_0@[t as int].1 == fields@[t as int].1);
                }
                let found = find_desc(&fields[t].1, name, segs, i);
                if found.is_some() {
                    proof {
                        lemma_desc_obj_skip(fv, name@, sv, i as int, t as int);
                        assert(fv.skip(t as int).drop_first() =~= fv.skip(t + 1));
                        assert(fv.skip(t as int)[0] == fv[t as int]);
                    }
                    return found;
                }
                t += 1;
            }
            proof {
                lemma_desc_obj_skip(fv, name@, sv, i as int, n as int);
                assert(fv.skip(n as int).len() == 0);
            }
            None
        },
        Json::Arr(items) => {
            proof {
                crate::json::lemma_json_arr_view(items@, 0);
            }
            let ghost iv = crate::json::json_arr_view(items@, 0);
            proof {
                assert(spec_desc_own(j@, name@, sv, i as int) =~= Seq::<JsonV>::empty());
                assert(spec_eval_desc(j@, name@, sv, i as int) =~= spec_eval_desc_arr(
                    iv,
                    name@,
                    sv,
                    i as int,
                ));
            }
            let n = items.len();
            let mut t: usize = 0;
            while t < n
                invariant
                    *j == Json::Arr(*items),
                    i < segs@.len() <= usize::MAX,
                    sv == segs_view(segs@),
                    n == items@.len(),
                    t <= n,
                    iv == crate::json::json_arr_view(items@, 0),
                    iv.len() == n,
                    forall|u: int| 0 <= u < n ==> iv[u] == crate::json::json_view(items@[u]),
                    spec_eval_desc(j@, name@, sv, i as int) == spec_eval_desc_arr(
                        iv,
                        name@,
                        sv,
                        i as int,
                    ),
                    forall|u: int|
                        0 <= u < t ==> spec_eval_desc(iv[u], name@, sv, i as int).len() == 0,
                decreases n - t,
            {
                proof {
                    assert(decreases_to!(*j => j->Arr_0));
                    assert(decreases_to!(j->Arr_0 => j->Arr_0@));
                    assert(decreases_to!(j->Arr_0@ => j->Arr_0@[t as int]));
                    assert(j->Arr_0@[t as int] == items@[t as int]);
                }
                let found = find_desc(&items[t], name, segs, i);
                if found.is_some() {
                    proof {
                        lemma_desc_arr_skip(iv, name@, sv, i as int, t as int);
                        assert(iv.skip(t as int).drop_first() =~= iv.skip(t + 1));
                        assert(iv.skip(t as int)[0] == iv[t as int]);
                    }
                    return found;
                }
                t += 1;
            }
            proof {
                lemma_desc_arr_skip(iv, name@, sv, i as int, n as int);
                assert(iv.skip(n as int).len() == 0);
            }
            None
        },
        _ => {
            proof {
                assert(spec_desc_own(j@, name@, sv, i as int) =~= Seq::<JsonV>::empty());
                assert(spec_eval_desc(j@, name@, sv, i as int) =~= Seq::<JsonV>::empty());
            }
            None
        },
    }
}

/// Finds the first value, in document order, that the selectors from `i` on
/// match under `j`.
pub fn find_first<'a>(j: &'a Json, segs: &Vec<PathSeg>, i: usize) -> (r: Option<&'a Json>)
    requires
        i <= segs@.len(),
    ensures
        match r {
            Some(m) => spec_eval(j@, segs_view(segs@), i as int).len() > 0 && m@ == spec_eval(
                j@,
                segs_view(segs@),
                i as int,
            )[0],
            None => spec_eval(j@, segs_view(segs@), i as int).len() == 0,
        },
    decreases segs@.len() - i, *j, 3int,
{
    let ghost sv = segs_view(segs@);
    if i == segs.len() {
        return Some(j);
    }
    match &segs[i] {
        PathSeg::Child(name) => {
            match j {
                Json::Obj(fields) => {
                    proof {
                        crate::json::lemma_json_obj_view(fields@, 0);
                    }
                    let ghost fv = crate::json::json_obj_view(fields@, 0);
                    let n = fields.len();
                    let mut t: usize = 0;
                    while t < n
                        invariant
                            *j == Json::Obj(*fields),
                            i < segs@.len() <= usize::MAX,
                            sv == segs_view(segs@),
                            sv[i as int] == PathSegV::Child(name@),
                            n == fields@.len(),
                            t <= n,
                            fv == crate::json::json_obj_view(fields@, 0),
                            fv.len() == n,
                            forall|u: int|
                                0 <= u < n ==> fv[u] == (
                                fields@[u].0@,
                                crate::json::json_view(fields@[u].1),
                                ),
                            forall|u: int| 0 <= u < t ==> fv[u].0 != name@,
                        decreases n - t,
                    {
                        if str_eq(fields[t].0.as_str(), name.as_str()) {
                            proof {
                                lemma_obj_lookup_at(fv, name@, t as int);
                            }
                            return find_first(&fields[t].1, segs, i + 1);
                        }
                        t += 1;
                    }
                    proof {
                        lemma_obj_lookup_absent(fv, name@);
                    }
                    None
                },
                _ => None,
            }
        },
        PathSeg::Index(n) => {
            match j {
                Json::Arr(items) => {
                    proof {
                        crate::json::lemma_json_arr_view(items@, 0);
                    }
                    if *n < items.len() {
                        find_first(&items[*n], segs, i + 1)
                    } else {
                        None
                    }
                },
                _ => None,
            }
        },
        PathSeg::Wild => {
            match j {
                Json::Arr(items) => {
                    proof {
                        crate::json::lemma_json_arr_view(items@, 0);
                    }
                    let ghost iv = crate::json::json_arr_view(items@, 0);
                    let n = items.len();
                    let mut t: usize = 0;
                    while t < n
                        invariant
                            *j == Json::Arr(*items),
                            i < segs@.len() <= usize::MAX,
                            sv == segs_view(segs@),
                            sv[i as int] == PathSegV::Wild,
                            n == items@.len(),
                            t <= n,
                            iv == crate::json::json_arr_view(items@, 0),
                            iv.len() == n,
                            forall|u: int|
                                0 <= u < n ==> iv[u] == crate::json::json_view(items@[u]),
                            forall|u: int|
                                0 <= u < t ==> spec_eval(iv[u], sv, i + 1).len() == 0,
                        decreases n - t,
                    {
                        let found = find_first(&items[t], segs, i + 1);
                        if found.is_some() {
                            proof {
                                lemma_eval_list_skip(iv, sv, i + 1, t as int);
                                assert(iv.skip(t as int).drop_first() =~= iv.skip(t + 1));
                                assert(iv.skip(t as int)[0] == iv[t as int]);
                            }
                            return found;
                        }
                        t += 1;
                    }
                    proof {
                        lemma_eval_list_skip(iv, sv, i + 1, n as int);
                        assert(iv.skip(n as int).len() == 0);
                    }
                    None
                },
                Json::Obj(fields) => {
                    proof {
                        crate::json::lemma_json_obj_view(fields@, 0);
                    }
                    let ghost fv = crate::json::json_obj_view(fields@, 0);
                    let ghost ov = obj_values(fv);
                    let n = fields.len();
                    let mut t: usize = 0;
                    while t < n
                        invariant
                            *j == Json::Obj(*fields),
                            i < segs@.len() <= usize::MAX,
                            sv == segs_view(segs@),
                            sv[i as int] == PathSegV::Wild,
                            n == fields@.len(),
                            t <= n,
                            fv == crate::json::json_obj_view(fields@, 0),
                            ov == obj_values(fv),
                            fv.len() == n,
                            ov.len() == n,
                            forall|u: int|
                                0 <= u < n ==> fv[u] == (
                                fields@[u].0@,
                                crate::json::json_view(fields@[u].1),
                                ),
                            forall|u: int| 0 <= u < n ==> ov[u] == fv[u].1,
                            forall|u: int|
                                0 <= u < t ==> spec_eval(ov[u], sv, i + 1).len() == 0,
                        decreases n - t,
                    {
                        let found = find_first(&fields[t].1, segs, i + 1);
                        if found.is_some() {
                            proof {
                                lemma_eval_list_skip(ov, sv, i + 1, t as int);
                                assert(ov.skip(t as int).drop_first() =~= ov.skip(t + 1));
                                assert(ov.skip(t as int)[0] == ov[t as int]);
                            }
                            return found;
                        }
                        t += 1;
                    }
                    proof {
                        lemma_eval_list_skip(ov, sv, i + 1, n as int);
                        assert(ov.skip(n as int).len() == 0);
                    }
                    None
                },
                _ => None,
            }
        },
        PathSeg::Desc(name) => find_desc(j, name, segs, i),
    }
}

/// What an extractor records for a path under a JSON value: the first match
/// in document order, a JSON string unwrapped to its bare text, every other
/// kind of value rendered as its canonical JSON text; `None` where the path
/// matches nothing.
pub open spec fn spec_extract(v: JsonV, segs: Seq<PathSegV>) -> Option<Seq<char>> {
    let ms = spec_eval(v, segs, 0);
    if ms.len() == 0 {
        None
    } else {
        match ms[0] {
            JsonV::Str(s) => Some(s),
            m => Some(crate::json::spec_json_text(m)),
        }
    }
}

/// A path match that is a JSON string is unwrapped to the bare string — no
/// surrounding quotes, no escapes; a match of any other kind — number,
/// boolean, null, array or object — is rendered as its canonical JSON text.
pub proof fn lemma_extract_forms(v: JsonV, segs: Seq<PathSegV>)
    requires
        spec_eval(v, segs, 0).len() > 0,
    ensures
        (spec_eval(v, segs, 0)[0] matches JsonV::Str(s) ==> spec_extract(v, segs) == Some(s)),
        !(spec_eval(v, segs, 0)[0] is Str) ==> spec_extract(v, segs) == Some(
            crate::json::spec_json_text(spec_eval(v, segs, 0)[0]),
        ),
{
}

/// Evaluates the selectors against `j` and renders the first match: the
/// unwrapped text of a string match, the canonical JSON text of any other
/// match, `None` where nothing matches.
pub fn extract_first(j: &Json, segs: &Vec<PathSeg>) -> (r: Option<String>)
    ensures
        r is Some <==> spec_extract(j@, segs_view(segs@)) is Some,
        r is Some ==> (r->0)@ == spec_extract(j@, segs_view(segs@))->0,
{
    match find_first(j, segs, 0) {
        None => None,
        Some(m) => match m {
            Json::Str(s) => Some(s.clone()),
            other => Some(crate::json::json_text(other)),
        },
    }
}

/// Characters a dot-selector name is made of: anything but the structural
/// characters of a path.
pub open spec fn is_name_char(c: char) -> bool {
    c != '.' && c != '[' && c != ']' && c != '*' && c != '$' && c != '\''
}

pub open spec fn is_digit(c: char) -> bool {
    '0' <= c && c <= '9'
}

/// First position at or after `i` that does not hold a name character.
pub open spec fn name_end(s: Seq<char>, i: int) -> int
    decreases s.len() - i,
{
    if 0 <= i < s.len() && is_name_char(s[i]) {
        name_end(s, i + 1)
    } else {
        i
    }
}

/// First position at or after `i` that does not hold a digit.
pub open spec fn digits_end(s: Seq<char>, i: int) -> int
    decreases s.len() - i,
{
    if 0 <= i < s.len() && is_digit(s[i]) {
        digits_end(s, i + 1)
    } else {
        i
    }
}

/// First position at or after `i` that holds a quote, or the length.
pub open spec fn quote_end(s: Seq<char>, i: int) -> int
    decreases s.len() - i,
{
    if 0 <= i < s.len() && s[i] != '\'' {
        quote_end(s, i + 1)
    } else {
        i
    }
}

proof fn lemma_name_end(s: Seq<char>, i: int)
    requires
        0 <= i <= s.len(),
    ensures
        i <= name_end(s, i) <= s.len(),
        forall|j: int| i <= j < name_end(s, i) ==> is_name_char(s[j]),
        name_end(s, i) < s.len() ==> !is_name_char(s[name_end(s, i)]),
    decreases s.len() - i,
{
    if i < s.len() && is_name_char(s[i]) {
        lemma_name_end(s, i + 1);
    }
}

proof fn lemma_digits_end(s: Seq<char>, i: int)
    requires
        0 <= i <= s.len(),
    ensures
        i <= digits_end(s, i) <= s.len(),
        forall|j: int| i <= j < digits_end(s, i) ==> is_digit(s[j]),
        digits_end(s, i) < s.len() ==> !is_digit(s[digits_end(s, i)]),
    decreases s.len() - i,
{
    if i < s.len() && is_digit(s[i]) {
        lemma_digits_end(s, i + 1);
    }
}

proof fn lemma_quote_end(s: Seq<char>, i: int)
    requires
        0 <= i <= s.len(),
    ensures
        i <= quote_end(s, i) <= s.len(),
        forall|j: int| i <= j < quote_end(s, i) ==> s[j] != '\'',
        quote_end(s, i) < s.len() ==> s[quote_end(s, i)] == '\'',
    decreases s.len() - i,
{
    if i < s.len() && s[i] != '\'' {
        lemma_quote_end(s, i + 1);
    }
}

/// The number written by the digits of `s` from `start` up to `e`.
pub open spec fn digits_val(s: Seq<char>, start: int, e: int) -> int
    decreases e - start,
{
    if e <= start {
        0
    } else {
        digits_val(s, start, e - 1) * 10 + (s[e - 1] as u32) - 48
    }
}

/// Ten to the `n`-th.
pub open spec fn pow10(n: int) -> int
    decreases n,
{
    if n <= 0 {
        1
    } else {
        10 * pow10(n - 1)
    }
}


/// The selectors written from position `i` on, or `None` where the text is
/// not a well-formed selector list. An array index is at most nine digits.
pub open spec fn spec_parse_segs(s: Seq<char>, i: int) -> Option<Seq<PathSegV>>
    decreases s.len() - i,
{
    if i < 0 || i > s.len() {
        None
    } else if i == s.len() {
        Some(Seq::empty())
    } else if s[i] == '.' {
        if i + 1 < s.len() && s[i + 1] == '*' {
            match spec_parse_segs(s, i + 2) {
                Some(rest) => Some(seq![PathSegV::Wild] + rest),
                None => None,
            }
        } else if i + 1 < s.len() && s[i + 1] == '.' {
            let e0 = name_end(s, i + 2);
            let e = if i + 2 <= e0 <= s.len() {
                e0
            } else {
                i + 2
            };
            if e > i + 2 {
                match spec_parse_segs(s, e) {
                    Some(rest) => Some(seq![PathSegV::Desc(s.subrange(i + 2, e))] + rest),
                    None => None,
                }
            } else {
                None
            }
        } else {
            let e0 = name_end(s, i + 1);
            let e = if i + 1 <= e0 <= s.len() {
                e0
            } else {
                i + 1
            };
            if e > i + 1 {
                match spec_parse_segs(s, e) {
                    Some(rest) => Some(seq![PathSegV::Child(s.subrange(i + 1, e))] + rest),
                    None => None,
                }
            } else {
                None
            }
        }
    } else if s[i] == '[' {
        if i + 1 < s.len() && s[i + 1] == '\'' {
            let e0 = quote_end(s, i + 2);
            let e = if i + 2 <= e0 <= s.len() {
                e0
            } else {
                i + 2
            };
            if e + 1 < s.len() && s[e] == '\'' && s[e + 1] == ']' {
                match spec_parse_segs(s, e + 2) {
                    Some(rest) => Some(seq![PathSegV::Child(s.subrange(i + 2, e))] + rest),
                    None => None,
                }
            } else {
                None
            }
        } else if i + 1 < s.len() && s[i + 1] == '*' {
            if i + 2 < s.len() && s[i + 2] == ']' {
                match spec_parse_segs(s, i + 3) {
                    Some(rest) => Some(seq![PathSegV::Wild] + rest),
                    None => None,
                }
            } else {
                None
            }
        } else {
            let e0 = digits_end(s, i + 1);
            let e = if i + 1 <= e0 <= s.len() {
                e0
            } else {
                i + 1
            };
            if e > i + 1 && e - (i + 1) <= 9 && e < s.len() && s[e] == ']' {
                match spec_parse_segs(s, e + 1) {
                    Some(rest) => Some(
                        seq![PathSegV::Index(digits_val(s, i + 1, e))] + rest,
                    ),
                    None => None,
                }
            } else {
                None
            }
        }
    } else {
        None
    }
}

/// A whole path: `$` followed by selectors.
pub open spec fn spec_parse_path(s: Seq<char>) -> Option<Seq<PathSegV>> {
    if s.len() >= 1 && s[0] == '$' {
        spec_parse_segs(s, 1)
    } else {
        None
    }
}

fn is_name_char_exec(c: char) -> (r: bool)
    ensures
        r == is_name_char(c),
{
    c != '.' && c != '[' && c != ']' && c != '*' && c != '$' && c != '\''
}

fn name_end_exec(t: &str, start: usize) -> (e: usize)
    requires
        start <= t@.len(),
    ensures
        e as int == name_end(t@, start as int),
        start <= e <= t@.len(),
{
    let len = t.unicode_len();
    let mut e = start;
    while e < len
        invariant
            start <= e <= len,
            len == t@.len(),
            name_end(t@, start as int) == name_end(t@, e as int),
        decreases len - e,
    {
        if !is_name_char_exec(t.get_char(e)) {
            return e;
        }
        e += 1;
    }
    e
}

fn digits_end_exec(t: &str, start: usize) -> (e: usize)
    requires
        start <= t@.len(),
    ensures
        e as int == digits_end(t@, start as int),
        start <= e <= t@.len(),
{
    let len = t.unicode_len();
    let mut e = start;
    while e < len
        invariant
            start <= e <= len,
            len == t@.len(),
            digits_end(t@, start as int) == digits_end(t@, e as int),
        decreases len - e,
    {
        let c = t.get_char(e);
        if !('0' <= c && c <= '9') {
            return e;
        }
        e += 1;
    }
    e
}

fn quote_end_exec(t: &str, start: usize) -> (e: usize)
    requires
        start <= t@.len(),
    ensures
        e as int == quote_end(t@, start as int),
        start <= e <= t@.len(),
{
    let len = t.unicode_len();
    let mut e = start;
    while e < len
        invariant
            start <= e <= len,
            len == t@.len(),
            quote_end(t@, start as int) == quote_end(t@, e as int),
        decreases len - e,
    {
        if t.get_char(e) == '\'' {
            return e;
        }
        e += 1;
    }
    e
}

proof fn lemma_pow10_mono(a: int, b: int)
    requires
        0 <= a <= b,
    ensures
        1 <= pow10(a) <= pow10(b),
    decreases b,
{
    if b > 0 {
        if a == b {
            lemma_pow10_mono(a - 1, b - 1);
        } else {
            lemma_pow10_mono(a, b - 1);
        }
    }
}

/// Parses a JSON-path expression, rejecting malformed text: a path is `$`
/// followed by child, index, wildcard and descent selectors, and an invalid
/// path is a configuration error for the step that declares it.
pub fn parse_path(s: &str) -> (r: Option<Vec<PathSeg>>)
    ensures
        r is Some <==> spec_parse_path(s@) is Some,
        r is Some ==> segs_view((r->0)@) == spec_parse_path(s@)->0,
{
    let len = s.unicode_len();
    if len == 0 {
        return None;
    }
    if s.get_char(0) != '$' {
        return None;
    }
    let mut segs: Vec<PathSeg> = Vec::new();
    let mut i: usize = 1;
    proof {
        assert(segs_view(segs@) =~= Seq::<PathSegV>::empty());
    }
    while i < len
        invariant
            1 <= i <= len,
            len == s@.len(),
            s@[0] == '$',
            spec_parse_segs(s@, i as int) is Some ==> (spec_parse_path(s@) is Some
                && spec_parse_path(s@)->0 == segs_view(segs@) + spec_parse_segs(s@, i as int)->0),
            spec_parse_segs(s@, i as int) is None ==> spec_parse_path(s@) is None,
        decreases len - i,
    {
        let c = s.get_char(i);
        let ghost pre = segs@;
        if c == '.' {
            if i + 1 < len && s.get_char(i + 1) == '*' {
                segs.push(PathSeg::Wild);
                proof {
                    assert(segs_view(segs@) =~= segs_view(pre) + seq![PathSegV::Wild]);
                    if spec_parse_segs(s@, i + 2) is Some {
                        assert((segs_view(pre) + seq![PathSegV::Wild]) + spec_parse_segs(
                            s@,
                            i + 2,
                        )->0 =~= segs_view(pre) + (seq![PathSegV::Wild] + spec_parse_segs(
                            s@,
                            i + 2,
                        )->0));
                    }
                }
                i = i + 2;
            } else if i + 1 < len && s.get_char(i + 1) == '.' {
                proof {
                    lemma_name_end(s@, i + 2);
                }
                let e = name_end_exec(s, i + 2);
                if e == i + 2 {
                    return None;
                }
                let name = s.substring_char(i + 2, e).to_owned();
                segs.push(PathSeg::Desc(name));
                proof {
                    let ghost segv = PathSegV::Desc(s@.subrange(i + 2, e as int));
                    assert(segs_view(segs@) =~= segs_view(pre) + seq![segv]);
                    if spec_parse_segs(s@, e as int) is Some {
                        assert((segs_view(pre) + seq![segv]) + spec_parse_segs(s@, e as int)->0
                            =~= segs_view(pre) + (seq![segv] + spec_parse_segs(s@, e as int)->0));
                    }
                }
                i = e;
            } else {
                proof {
                    lemma_name_end(s@, i + 1);
                }
                let e = name_end_exec(s, i + 1);
                if e == i + 1 {
                    return None;
                }
                let name = s.substring_char(i + 1, e).to_owned();
                segs.push(PathSeg::Child(name));
                proof {
                    let ghost segv = PathSegV::Child(s@.subrange(i + 1, e as int));
                    assert(segs_view(segs@) =~= segs_view(pre) + seq![segv]);
                    if spec_parse_segs(s@, e as int) is Some {
                        assert((segs_view(pre) + seq![segv]) + spec_parse_segs(s@, e as int)->0
                            =~= segs_view(pre) + (seq![segv] + spec_parse_segs(s@, e as int)->0));
                    }
                }
                i = e;
            }
        } else if c == '[' {
            if i + 1 < len && s.get_char(i + 1) == '\'' {
                proof {
                    lemma_quote_end(s@, i + 2);
                }
                let e = quote_end_exec(s, i + 2);
                if e < len && e + 1 < len && s.get_char(e + 1) == ']' {
                    let name = s.substring_char(i + 2, e).to_owned();
                    segs.push(PathSeg::Child(name));
                    proof {
                        let ghost segv = PathSegV::Child(s@.subrange(i + 2, e as int));
                        assert(segs_view(segs@) =~= segs_view(pre) + seq![segv]);
                        if spec_parse_segs(s@, e + 2) is Some {
                            assert((segs_view(pre) + seq![segv]) + spec_parse_segs(s@, e + 2)->0
                                =~= segs_view(pre) + (seq![segv] + spec_parse_segs(
                                s@,
                                e + 2,
                            )->0));
                        }
                    }
                    i = e + 2;
                } else {
                    return None;
                }
            } else if i + 1 < len && s.get_char(i + 1) == '*' {
                if i + 2 < len && s.get_char(i + 2) == ']' {
                    segs.push(PathSeg::Wild);
                    proof {
                        assert(segs_view(segs@) =~= segs_view(pre) + seq![PathSegV::Wild]);
                        if spec_parse_segs(s@, i + 3) is Some {
                            assert((segs_view(pre) + seq![PathSegV::Wild]) + spec_parse_segs(
                                s@,
                                i + 3,
                            )->0 =~= segs_view(pre) + (seq![PathSegV::Wild] + spec_parse_segs(
                                s@,
                                i + 3,
                            )->0));
                        }
                    }
                    i = i + 3;
                } else {
                    return None;
                }
            } else {
                proof {
                    lemma_digits_end(s@, i + 1);
                }
                let e = digits_end_exec(s, i + 1);
                if e > i + 1 && e - (i + 1) <= 9 && e < len && s.get_char(e) == ']' {
                    let mut val: usize = 0;
                    let mut t = i + 1;
                    while t < e
                        invariant
                            i + 1 <= t <= e <= len,
                            len == s@.len(),
                            e - (i + 1) <= 9,
                            forall|j: int| i + 1 <= j < e ==> is_digit(s@[j]),
                            val == digits_val(s@, i + 1, t as int),
                            0 <= val < pow10(t - (i + 1)),
                        decreases e - t,
                    {
                        let c2 = s.get_char(t);
                        proof {
                            assert(is_digit(s@[t as int]));
                            lemma_pow10_mono(t - (i + 1), 8);
                            assert(pow10(8) == 100000000) by {
                                reveal_with_fuel(pow10, 10);
                            }
                        }
                        let d = (c2 as u32 - 48) as usize;
                        val = val * 10 + d;
                        t += 1;
                    }
                    segs.push(PathSeg::Index(val));
                    proof {
                        let ghost segv = PathSegV::Index(digits_val(s@, i + 1, e as int));
                        assert(segs_view(segs@) =~= segs_view(pre) + seq![segv]);
                        if spec_parse_segs(s@, e + 1) is Some {
                            assert((segs_view(pre) + seq![segv]) + spec_parse_segs(s@, e + 1)->0
                                =~= segs_view(pre) + (seq![segv] + spec_parse_segs(
                                s@,
                                e + 1,
                            )->0));
                        }
                    }
                    i = e + 1;
                } else {
                    return None;
                }
            }
        } else {
            return None;
        }
    }
    proof {
        assert(spec_parse_segs(s@, len as int) == Some(Seq::<PathSegV>::empty()));
        assert(segs_view(segs@) + Seq::<PathSegV>::empty() =~= segs_view(segs@));
    }
    Some(segs)
}

} // verus!
