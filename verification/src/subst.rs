//! Template substitution: a variable reference `$name` inside a template is
//! replaced by the referenced value's current string form. A reference to a
//! name that is absent from the store, or present but unset, is left as
//! literal text — substitution never fails and never erases a reference.
//! Substitution is total: every input string is a valid template.

use vstd::prelude::*;
use vstd::string::StrSliceExecFns;
use crate::vars::WorkflowContext;

verus! {

/// Characters a variable name is made of.
pub open spec fn is_ref_char(c: char) -> bool {
    ('a' <= c && c <= 'z') || ('A' <= c && c <= 'Z') || ('0' <= c && c <= '9') || c == '_'
}

/// First position at or after `i` that does not hold a name character.
pub open spec fn ident_end(t: Seq<char>, i: int) -> int
    decreases t.len() - i,
{
    if 0 <= i < t.len() && is_ref_char(t[i]) {
        ident_end(t, i + 1)
    } else {
        i
    }
}

pub proof fn lemma_ident_end(t: Seq<char>, i: int)
    requires
        0 <= i <= t.len(),
    ensures
        i <= ident_end(t, i) <= t.len(),
        forall|j: int| i <= j < ident_end(t, i) ==> is_ref_char(t[j]),
        ident_end(t, i) < t.len() ==> !is_ref_char(t[ident_end(t, i)]),
    decreases t.len() - i,
{
    if i < t.len() && is_ref_char(t[i]) {
        lemma_ident_end(t, i + 1);
    }
}

/// The rendering of the template's suffix that starts at `i`.
pub open spec fn spec_subst_from(
    t: Seq<char>,
    i: int,
    m: Map<Seq<char>, Option<Seq<char>>>,
) -> Seq<char>
    decreases t.len() - i,
{
    if i < 0 || i >= t.len() {
        Seq::empty()
    } else if t[i] == '$' {
        let e0 = ident_end(t, i + 1);
        let e = if i + 1 <= e0 <= t.len() {
            e0
        } else {
            i + 1
        };
        if e > i + 1 {
            let name = t.subrange(i + 1, e);
            let rest = spec_subst_from(t, e, m);
            if m.contains_key(name) && m[name] is Some {
                m[name]->0 + rest
            } else {
                t.subrange(i, e) + rest
            }
        } else {
            seq![t[i]] + spec_subst_from(t, i + 1, m)
        }
    } else {
        seq![t[i]] + spec_subst_from(t, i + 1, m)
    }
}

/// The rendering of a whole template under the store `m`: every `$name`
/// reference to a name bound to a value is replaced by that value; every
/// other character, and every reference to an absent or unset name, is kept
/// as it stands.
pub open spec fn spec_subst(t: Seq<char>, m: Map<Seq<char>, Option<Seq<char>>>) -> Seq<char> {
    spec_subst_from(t, 0, m)
}

/// There is a variable reference starting at position `i` of `t`.
pub open spec fn is_ref_at(t: Seq<char>, i: int) -> bool {
    0 <= i < t.len() && t[i] == '$' && ident_end(t, i + 1) > i + 1
}

/// The name of the variable reference starting at position `i` of `t`.
pub open spec fn ref_name_at(t: Seq<char>, i: int) -> Seq<char> {
    t.subrange(i + 1, ident_end(t, i + 1))
}

/// Every variable reference in `t` names a variable that is absent from the
/// store or present but unset.
pub open spec fn all_refs_unresolved(t: Seq<char>, m: Map<Seq<char>, Option<Seq<char>>>) -> bool {
    forall|i: int|
        #[trigger] is_ref_at(t, i) ==> !(m.contains_key(ref_name_at(t, i)) && m[ref_name_at(t, i)] is Some)
}

proof fn lemma_subst_identity_from(t: Seq<char>, i: int, m: Map<Seq<char>, Option<Seq<char>>>)
    requires
        0 <= i <= t.len(),
        all_refs_unresolved(t, m),
    ensures
        spec_subst_from(t, i, m) == t.skip(i),
    decreases t.len() - i,
{
    if i == t.len() {
        assert(spec_subst_from(t, i, m) =~= t.skip(i));
    } else if t[i] == '$' {
        lemma_ident_end(t, i + 1);
        let e = ident_end(t, i + 1);
        if e > i + 1 {
            assert(is_ref_at(t, i));
            lemma_subst_identity_from(t, e, m);
            assert(t.subrange(i, e) + t.skip(e) =~= t.skip(i));
        } else {
            lemma_subst_identity_from(t, i + 1, m);
            assert(seq![t[i]] + t.skip(i + 1) =~= t.skip(i));
        }
    } else {
        lemma_subst_identity_from(t, i + 1, m);
        assert(seq![t[i]] + t.skip(i + 1) =~= t.skip(i));
    }
}

/// A template whose variable references all name unset or absent variables
/// renders to itself: substitution is the identity on such templates.
pub proof fn lemma_subst_identity(t: Seq<char>, m: Map<Seq<char>, Option<Seq<char>>>)
    requires
        all_refs_unresolved(t, m),
    ensures
        spec_subst(t, m) == t,
{
    lemma_subst_identity_from(t, 0, m);
    assert(t.skip(0) =~= t);
}

/// Decides whether `c` can be part of a variable name.
fn is_ref_char_exec(c: char) -> (r: bool)
    ensures
        r == is_ref_char(c),
{
    ('a' <= c && c <= 'z') || ('A' <= c && c <= 'Z') || ('0' <= c && c <= '9') || c == '_'
}

/// Scans the name run that starts at `start`.
fn ident_end_exec(t: &str, start: usize) -> (e: usize)
    requires
        start <= t@.len(),
    ensures
        e as int == ident_end(t@, start as int),
        start <= e <= t@.len(),
{
    let len = t.unicode_len();
    let mut e = start;
    while e < len
        invariant
            start <= e <= len,
            len == t@.len(),
            ident_end(t@, start as int) == ident_end(t@, e as int),
        decreases len - e,
    {
        if !is_ref_char_exec(t.get_char(e)) {
            return e;
        }
        e += 1;
    }
    e
}

/// Renders `template` under the store `context`: replaces each `$name`
/// reference whose name is bound to a value, and keeps everything else —
/// including references to absent or unset names — as literal text.
pub fn substitute(template: &str, context: &WorkflowContext) -> (r: String)
    ensures
        r@ == spec_subst(template@, context@),
{
    let len = template.unicode_len();
    let mut out = String::new();
    let mut i: usize = 0;
    proof {
        assert(out@ + spec_subst_from(template@, 0, context@) =~= spec_subst(
            template@,
            context@,
        ));
    }
    while i < len
        invariant
            i <= len,
            len == template@.len(),
            out@ + spec_subst_from(template@, i as int, context@) == spec_subst(
                template@,
                context@,
            ),
        decreases len - i,
    {
        let c = template.get_char(i);
        if c == '$' {
            proof {
                lemma_ident_end(template@, i + 1);
            }
            let e = ident_end_exec(template, i + 1);
            if e > i + 1 {
                let name = template.substring_char(i + 1, e);
                let looked_up = context.get(name);
                let ghost pre = out@;
                match looked_up {
                    Option::Some(Option::Some(value)) => {
                        out.append(value.as_str());
                        proof {
                            assert(context@[name@] == Some(value@));
                            assert(pre + (value@ + spec_subst_from(template@, e as int, context@))
                                =~= (pre + value@) + spec_subst_from(template@, e as int, context@));
                        }
                    },
                    _ => {
                        let literal = template.substring_char(i, e);
                        out.append(literal);
                        proof {
                            assert(pre + (literal@ + spec_subst_from(template@, e as int, context@))
                                =~= (pre + literal@) + spec_subst_from(
                                template@,
                                e as int,
                                context@,
                            ));
                        }
                    },
                }
                i = e;
            } else {
                let literal = template.substring_char(i, i + 1);
                let ghost pre = out@;
                out.append(literal);
                proof {
                    assert(literal@ =~= seq![template@[i as int]]);
                    assert(pre + (literal@ + spec_subst_from(template@, i + 1, context@)) =~= (pre
                        + literal@) + spec_subst_from(template@, i + 1, context@));
                }
                i += 1;
            }
        } else {
            let literal = template.substring_char(i, i + 1);
            let ghost pre = out@;
            out.append(literal);
            proof {
                assert(literal@ =~= seq![template@[i as int]]);
                assert(pre + (literal@ + spec_subst_from(template@, i + 1, context@)) =~= (pre
                    + literal@) + spec_subst_from(template@, i + 1, context@));
            }
            i += 1;
        }
    }
    proof {
        assert(spec_subst_from(template@, len as int, context@) =~= Seq::<char>::empty());
        assert(out@ + Seq::<char>::empty() =~= out@);
    }
    out
}

} // verus!
