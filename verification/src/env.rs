//! The collaborator's answers, supplied up front: which stable module path a
//! processed component resolves to, which route name a metadata file is
//! served under, and which content type an image file sniffs as. Each table
//! is an association list looked up by first match.

use vstd::prelude::*;

verus! {

pub open spec fn table_view(t: Seq<(String, String)>) -> Seq<(Seq<char>, Seq<char>)> {
    t.map_values(|p: (String, String)| (p.0@, p.1@))
}

/// First-match lookup in an association table.
pub open spec fn lookup_spec(t: Seq<(Seq<char>, Seq<char>)>, key: Seq<char>) -> Option<Seq<char>>
    decreases t.len(),
{
    if t.len() == 0 {
        Option::None
    } else if t[0].0 == key {
        Option::Some(t[0].1)
    } else {
        lookup_spec(t.drop_first(), key)
    }
}

proof fn lemma_lookup_skip(t: Seq<(Seq<char>, Seq<char>)>, key: Seq<char>, i: int)
    requires
        0 <= i <= t.len(),
        forall|k: int| 0 <= k < i ==> (#[trigger] t[k]).0 != key,
    ensures
        lookup_spec(t, key) == lookup_spec(t.skip(i), key),
    decreases i,
{
    if i > 0 {
        assert(t[0].0 != key);
        assert(t.len() > 0);
        lemma_lookup_skip(t.drop_first(), key, i - 1);
        assert(t.drop_first().skip(i - 1) =~= t.skip(i));
    } else {
        assert(t.skip(0) =~= t);
    }
}

/// The answers of the outside module system for one compilation: resolved
/// module paths for component files, metadata route names, and sniffed
/// content types.
#[derive(Debug, Clone)]
pub struct ResolutionEnv {
    pub module_paths: Vec<(String, String)>,
    pub route_names: Vec<(String, String)>,
    pub content_types: Vec<(String, String)>,
}

#[verifier::ext_equal]
pub struct EnvModel {
    pub module_paths: Seq<(Seq<char>, Seq<char>)>,
    pub route_names: Seq<(Seq<char>, Seq<char>)>,
    pub content_types: Seq<(Seq<char>, Seq<char>)>,
}

pub open spec fn env_view(e: ResolutionEnv) -> EnvModel {
    EnvModel {
        module_paths: table_view(e.module_paths@),
        route_names: table_view(e.route_names@),
        content_types: table_view(e.content_types@),
    }
}

impl View for ResolutionEnv {
    type V = EnvModel;

    open spec fn view(&self) -> EnvModel {
        env_view(*self)
    }
}

/// First-match lookup in one of the tables.
pub fn lookup(table: &Vec<(String, String)>, key: &String) -> (r: Option<String>)
    ensures
        match r {
            Option::Some(v) => lookup_spec(table_view(table@), key@) == Option::Some(v@),
            Option::None => lookup_spec(table_view(table@), key@) is None,
        },
{
    let ghost tv = table_view(table@);
    let n = table.len();
    let mut k: usize = 0;
    while k < n
        invariant
            n == table@.len(),
            k <= n,
            tv == table_view(table@),
            tv.len() == n,
            forall|j: int| 0 <= j < k ==> (#[trigger] tv[j]).0 != key@,
        decreases n - k,
    {
        if table[k].0.eq(key) {
            proof {
                lemma_lookup_skip(tv, key@, k as int);
                assert(tv.skip(k as int)[0] == tv[k as int]);
                assert(tv.skip(k as int).len() > 0);
            }
            return Option::Some(table[k].1.clone());
        }
        proof {
            assert(tv[k as int].0 == table@[k as int].0@);
        }
        k = k + 1;
    }
    proof {
        lemma_lookup_skip(tv, key@, n as int);
        assert(tv.skip(n as int) =~= Seq::<(Seq<char>, Seq<char>)>::empty());
    }
    Option::None
}

} // verus!
