//! The variable store threaded through a workflow: a mapping from variable
//! name to an optional string value. `None` records a name that is known but
//! currently unset; substitution leaves references to such names untouched.

use vstd::prelude::*;
use vstd::pervasive::VecAdditionalExecFns;
use vstd::string::StrSliceExecFns;
use crate::text::str_eq;

verus! {

/// The mapping described by a sequence of bindings, a later entry
/// overwriting an earlier one of the same name.
pub open spec fn bindings_map(s: Seq<(String, Option<String>)>) -> Map<
    Seq<char>,
    Option<Seq<char>>,
>
    decreases s.len(),
{
    if s.len() == 0 {
        Map::empty()
    } else {
        bindings_map(s.drop_last()).insert(s.last().0@, s.last().1.deep_view())
    }
}

pub proof fn lemma_bindings_map_contains(s: Seq<(String, Option<String>)>, k: Seq<char>)
    ensures
        bindings_map(s).contains_key(k) <==> exists|i: int| 0 <= i < s.len() && s[i].0@ == k,
    decreases s.len(),
{
    if s.len() > 0 {
        lemma_bindings_map_contains(s.drop_last(), k);
        if s.last().0@ == k {
            assert(s[s.len() - 1].0@ == k);
        } else {
            if exists|i: int| 0 <= i < s.len() && s[i].0@ == k {
                let i = choose|i: int| 0 <= i < s.len() && s[i].0@ == k;
                assert(s.drop_last()[i].0@ == k);
            }
        }
    }
}

pub proof fn lemma_bindings_map_at(s: Seq<(String, Option<String>)>, i: int)
    requires
        0 <= i < s.len(),
        forall|j: int| i < j < s.len() ==> s[j].0@ != s[i].0@,
    ensures
        bindings_map(s).contains_key(s[i].0@),
        bindings_map(s)[s[i].0@] == s[i].1.deep_view(),
    decreases s.len(),
{
    if i < s.len() - 1 {
        assert(s.drop_last()[i] == s[i]);
        lemma_bindings_map_at(s.drop_last(), i);
    }
}

pub proof fn lemma_bindings_map_push(s: Seq<(String, Option<String>)>, e: (String, Option<String>))
    ensures
        bindings_map(s.push(e)) == bindings_map(s).insert(e.0@, e.1.deep_view()),
{
    assert(s.push(e).drop_last() =~= s);
    assert(s.push(e).last() == e);
}

proof fn lemma_bindings_map_update(
    s: Seq<(String, Option<String>)>,
    i: int,
    e: (String, Option<String>),
)
    requires
        0 <= i < s.len(),
        e.0@ == s[i].0@,
        forall|j: int| 0 <= j < s.len() && j != i ==> s[j].0@ != s[i].0@,
    ensures
        bindings_map(s.update(i, e)) == bindings_map(s).insert(e.0@, e.1.deep_view()),
    decreases s.len(),
{
    let t = s.update(i, e);
    if i == s.len() - 1 {
        assert(t.drop_last() =~= s.drop_last());
        assert(t.last() == e);
        assert(bindings_map(s.drop_last()).insert(s.last().0@, s.last().1.deep_view()).insert(
            e.0@,
            e.1.deep_view(),
        ) =~= bindings_map(s.drop_last()).insert(e.0@, e.1.deep_view()));
    } else {
        assert(t.drop_last() =~= s.drop_last().update(i, e));
        assert(s.drop_last()[i] == s[i]);
        lemma_bindings_map_update(s.drop_last(), i, e);
        assert(t.last() == s.last());
        // the two inserted keys differ, so the inserts commute
        assert(bindings_map(s.drop_last()).insert(e.0@, e.1.deep_view()).insert(
            s.last().0@,
            s.last().1.deep_view(),
        ) =~= bindings_map(s.drop_last()).insert(s.last().0@, s.last().1.deep_view()).insert(
            e.0@,
            e.1.deep_view(),
        ));
    }
}

/// The variable store: names bound to optional string values, merged by
/// overwrite. Abstractly it is a map from name to optional value.
#[derive(Debug)]
pub struct WorkflowContext {
    variables: Vec<(String, Option<String>)>,
}

impl View for WorkflowContext {
    type V = Map<Seq<char>, Option<Seq<char>>>;

    closed spec fn view(&self) -> Map<Seq<char>, Option<Seq<char>>> {
        bindings_map(self.variables@)
    }
}

impl WorkflowContext {
    /// Names are pairwise distinct in the backing list, so each name has
    /// exactly one binding at any instant.
    #[verifier::type_invariant]
    spec fn wf(self) -> bool {
        forall|i: int, j: int|
            0 <= i < j < self.variables@.len() ==> self.variables@[i].0@ != self.variables@[j].0@
    }

    /// Builds a store from a list of bindings; a later binding overwrites an
    /// earlier one of the same name.
    pub fn new(variables: Vec<(String, Option<String>)>) -> (r: WorkflowContext)
        ensures
            r@ == bindings_map(variables@),
    {
        let mut r = WorkflowContext { variables: Vec::new() };
        proof {
            assert(r@ =~= Map::<Seq<char>, Option<Seq<char>>>::empty());
        }
        r.update(variables);
        proof {
            assert(Map::<Seq<char>, Option<Seq<char>>>::empty().union_prefer_right(
                bindings_map(variables@),
            ) =~= bindings_map(variables@));
        }
        r
    }

    /// Looks a name up. `None`: the name is not in the store; `Some(v)`: the
    /// name is bound to `v`, itself optional.
    pub fn get(&self, name: &str) -> (r: Option<Option<String>>)
        ensures
            match r {
                Some(v) => self@.contains_key(name@) && v.deep_view() == self@[name@],
                None => !self@.contains_key(name@),
            },
    {
        proof {
            use_type_invariant(self);
        }
        let n = self.variables.len();
        let mut i: usize = 0;
        while i < n
            invariant
                n == self.variables@.len(),
                i <= n,
                forall|j: int| 0 <= j < i ==> self.variables@[j].0@ != name@,
            decreases n - i,
        {
            if str_eq(self.variables[i].0.as_str(), name) {
                proof {
                    use_type_invariant(self);
                    lemma_bindings_map_at(self.variables@, i as int);
                }
                return Some(clone_opt_string(&self.variables[i].1));
            }
            i += 1;
        }
        proof {
            lemma_bindings_map_contains(self.variables@, name@);
        }
        None
    }

    /// Binds one name, overwriting any earlier binding of the same name.
    pub fn set(&mut self, name: String, value: Option<String>)
        ensures
            final(self)@ == old(self)@.insert(name@, value.deep_view()),
    {
        proof {
            use_type_invariant(&*self);
        }
        let mut vars: Vec<(String, Option<String>)> = Vec::new();
        std::mem::swap(&mut vars, &mut self.variables);
        let ghost orig = vars@;
        let n = vars.len();
        let mut i: usize = 0;
        while i < n
            invariant
                vars@ == orig,
                n == orig.len(),
                i <= n,
                old(self)@ == bindings_map(orig),
                forall|p: int, q: int| 0 <= p < q < orig.len() ==> orig[p].0@ != orig[q].0@,
                forall|j: int| 0 <= j < i ==> orig[j].0@ != name@,
            decreases n - i,
        {
            if str_eq(vars[i].0.as_str(), name.as_str()) {
                proof {
                    lemma_bindings_map_update(orig, i as int, (name, value));
                }
                vars.set(i, (name, value));
                proof {
                    assert forall|p: int, q: int|
                        0 <= p < q < vars@.len() implies vars@[p].0@ != vars@[q].0@ by {
                        assert(orig[p].0@ != orig[q].0@);
                        assert(vars@[p].0@ == orig[p].0@ && vars@[q].0@ == orig[q].0@);
                    }
                }
                std::mem::swap(&mut vars, &mut self.variables);
                return ;
            }
            i += 1;
        }
        proof {
            lemma_bindings_map_push(orig, (name, value));
        }
        vars.push((name, value));
        proof {
            assert forall|p: int, q: int|
                0 <= p < q < vars@.len() implies vars@[p].0@ != vars@[q].0@ by {
                if q < vars@.len() - 1 {
                    assert(orig[p].0@ != orig[q].0@);
                }
            }
        }
        std::mem::swap(&mut vars, &mut self.variables);
    }

    /// Merges a list of bindings into the store in list order; later entries
    /// overwrite earlier ones and entries of the same name already present.
    pub fn update(&mut self, variables: Vec<(String, Option<String>)>)
        ensures
            final(self)@ == old(self)@.union_prefer_right(bindings_map(variables@)),
    {
        let n = variables.len();
        let mut i: usize = 0;
        let mut vars = variables;
        proof {
            assert(old(self)@.union_prefer_right(bindings_map(vars@.take(0))) =~= old(self)@);
        }
        while i < n
            invariant
                vars@ == variables@,
                vars@.len() == n,
                i <= n,
                self@ == old(self)@.union_prefer_right(bindings_map(vars@.take(i as int))),
            decreases n - i,
        {
            let ghost pre = self@;
            let (name, value) = vars_take_at(&mut vars, i);
            self.set(name, value);
            proof {
                assert(vars@.take(i + 1).drop_last() =~= vars@.take(i as int));
                assert(bindings_map(vars@.take(i + 1)) == bindings_map(vars@.take(i as int)).insert(
                    vars@[i as int].0@,
                    vars@[i as int].1.deep_view(),
                ));
                assert(old(self)@.union_prefer_right(bindings_map(vars@.take(i + 1))) =~= pre.insert(
                    vars@[i as int].0@,
                    vars@[i as int].1.deep_view(),
                ));
            }
            i += 1;
        }
        proof {
            assert(vars@.take(n as int) =~= vars@);
        }
    }

    /// The bindings as a list, one entry per name.
    pub fn bindings(&self) -> (r: &Vec<(String, Option<String>)>)
        ensures
            bindings_map(r@) == self@,
    {
        &self.variables
    }
}

/// Clones an optional string; the clone denotes the same value.
fn clone_opt_string(o: &Option<String>) -> (r: Option<String>)
    ensures
        r == *o,
{
    match o {
        Option::None => Option::None,
        Option::Some(s) => Option::Some(s.clone()),
    }
}

/// Clones the entry at `i` out of the list (the list itself is untouched).
fn vars_take_at(vars: &mut Vec<(String, Option<String>)>, i: usize) -> (r: (String, Option<String>))
    requires
        i < old(vars)@.len(),
    ensures
        final(vars)@ == old(vars)@,
        r == old(vars)@[i as int],
{
    let pair = &vars[i];
    (pair.0.clone(), clone_opt_string(&pair.1))
}

/// The mapping described by a sequence of view-level bindings, a later entry
/// overwriting an earlier one of the same name.
pub open spec fn entries_map(s: Seq<(Seq<char>, Option<Seq<char>>)>) -> Map<
    Seq<char>,
    Option<Seq<char>>,
>
    decreases s.len(),
{
    if s.len() == 0 {
        Map::empty()
    } else {
        entries_map(s.drop_last()).insert(s.last().0, s.last().1)
    }
}

/// `bindings_map` only looks at the views of the bindings.
pub proof fn lemma_bindings_map_is_entries_map(s: Seq<(String, Option<String>)>)
    ensures
        bindings_map(s) == entries_map(crate::response::bindings_view(s)),
    decreases s.len(),
{
    let bv = crate::response::bindings_view(s);
    if s.len() > 0 {
        lemma_bindings_map_is_entries_map(s.drop_last());
        assert(crate::response::bindings_view(s.drop_last()) =~= bv.drop_last());
        assert(bv.last() == (s.last().0@, s.last().1.deep_view()));
    } else {
        assert(bv =~= Seq::<(Seq<char>, Option<Seq<char>>)>::empty());
    }
}

/// Clones one binding out of the list.
fn binding_at(vars: &Vec<(String, Option<String>)>, i: usize) -> (r: (String, Option<String>))
    requires
        i < vars@.len(),
    ensures
        r == vars@[i as int],
{
    let pair = &vars[i];
    (pair.0.clone(), clone_opt_string(&pair.1))
}

impl WorkflowContext {
    /// Merges a list of bindings into the store in list order, without
    /// consuming it; later entries overwrite earlier ones and entries of the
    /// same name already present.
    pub fn merge(&mut self, variables: &Vec<(String, Option<String>)>)
        ensures
            final(self)@ == old(self)@.union_prefer_right(bindings_map(variables@)),
    {
        let n = variables.len();
        let mut i: usize = 0;
        proof {
            assert(old(self)@.union_prefer_right(bindings_map(variables@.take(0))) =~= old(
                self,
            )@);
        }
        while i < n
            invariant
                variables@.len() == n,
                i <= n,
                self@ == old(self)@.union_prefer_right(bindings_map(variables@.take(i as int))),
            decreases n - i,
        {
            let ghost pre = self@;
            let (name, value) = binding_at(variables, i);
            self.set(name, value);
            proof {
                assert(variables@.take(i + 1).drop_last() =~= variables@.take(i as int));
                assert(bindings_map(variables@.take(i + 1)) == bindings_map(
                    variables@.take(i as int),
                ).insert(variables@[i as int].0@, variables@[i as int].1.deep_view()));
                assert(old(self)@.union_prefer_right(bindings_map(variables@.take(i + 1)))
                    =~= pre.insert(variables@[i as int].0@, variables@[i as int].1.deep_view()));
            }
            i += 1;
        }
        proof {
            assert(variables@.take(n as int) =~= variables@);
        }
    }
}

/// First position at or after `i` that holds `=`, or the length.
pub open spec fn eq_sign_end(s: Seq<char>, i: int) -> int
    decreases s.len() - i,
{
    if 0 <= i < s.len() && s[i] != '=' {
        eq_sign_end(s, i + 1)
    } else {
        i
    }
}

proof fn lemma_eq_sign_end(s: Seq<char>, i: int)
    requires
        0 <= i <= s.len(),
    ensures
        i <= eq_sign_end(s, i) <= s.len(),
        forall|j: int| i <= j < eq_sign_end(s, i) ==> s[j] != '=',
        eq_sign_end(s, i) < s.len() ==> s[eq_sign_end(s, i)] == '=',
    decreases s.len() - i,
{
    if i < s.len() && s[i] != '=' {
        lemma_eq_sign_end(s, i + 1);
    }
}

fn eq_sign_end_exec(t: &str, start: usize) -> (e: usize)
    requires
        start <= t@.len(),
    ensures
        e as int == eq_sign_end(t@, start as int),
        start <= e <= t@.len(),
{
    let len = t.unicode_len();
    let mut e = start;
    while e < len
        invariant
            start <= e <= len,
            len == t@.len(),
            eq_sign_end(t@, start as int) == eq_sign_end(t@, e as int),
        decreases len - e,
    {
        if t.get_char(e) == '=' {
            return e;
        }
        e += 1;
    }
    e
}

/// What one `name=value` declaration binds: the text before the first `=`
/// names the variable, the text between the first and the second `=` — or
/// the end — is its value. A declaration without `=` binds nothing.
pub open spec fn spec_parse_var(s: Seq<char>) -> Option<(Seq<char>, Seq<char>)> {
    let a = eq_sign_end(s, 0);
    if a >= s.len() {
        None
    } else {
        let b = eq_sign_end(s, a + 1);
        if 0 <= a < s.len() && a + 1 <= b <= s.len() {
            Some((s.take(a), s.subrange(a + 1, b)))
        } else {
            None
        }
    }
}

/// The store that a list of `name=value` declarations seeds, in list order;
/// declarations without `=` are skipped.
pub open spec fn spec_parse_variables(ss: Seq<String>) -> Map<Seq<char>, Option<Seq<char>>>
    decreases ss.len(),
{
    if ss.len() == 0 {
        Map::empty()
    } else {
        match spec_parse_var(ss.last()@) {
            Some(nv) => spec_parse_variables(ss.drop_last()).insert(nv.0, Some(nv.1)),
            None => spec_parse_variables(ss.drop_last()),
        }
    }
}

/// Seeds a store from `name=value` declarations, in list order; a
/// declaration without `=` binds nothing.
pub fn parse_variables(variables: Vec<String>) -> (r: WorkflowContext)
    ensures
        r@ == spec_parse_variables(variables@),
{
    let mut r = WorkflowContext::new(Vec::new());
    proof {
        assert(r@ =~= spec_parse_variables(variables@.take(0)));
    }
    let n = variables.len();
    let mut i: usize = 0;
    while i < n
        invariant
            n == variables@.len(),
            i <= n,
            r@ == spec_parse_variables(variables@.take(i as int)),
        decreases n - i,
    {
        let ghost pre = r@;
        let s = &variables[i];
        let len = s.unicode_len();
        proof {
            lemma_eq_sign_end(s@, 0);
        }
        let a = eq_sign_end_exec(s.as_str(), 0);
        if a < len {
            proof {
                lemma_eq_sign_end(s@, a + 1);
            }
            let b = eq_sign_end_exec(s.as_str(), a + 1);
            let name = s.as_str().substring_char(0, a).to_owned();
            let value = s.as_str().substring_char(a + 1, b).to_owned();
            proof {
                assert(name@ =~= s@.take(a as int));
            }
            r.set(name, Some(value));
        }
        proof {
            assert(variables@.take(i + 1).drop_last() =~= variables@.take(i as int));
            assert(variables@.take(i + 1).last() == variables@[i as int]);
        }
        i += 1;
    }
    proof {
        assert(variables@.take(n as int) =~= variables@);
    }
    r
}

} // verus!
