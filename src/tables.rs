//! The compiler's tables: the environment of identifiers, the signatures of
//! functions, and sets of names.
use vstd::prelude::*;

verus! {

/// The persistent hash map of the `im` crate, which the tables are built on:
/// an update returns a new map and shares the old one's structure.
#[verifier::external_type_specification]
#[verifier::external_body]
#[verifier::reject_recursive_types(K)]
#[verifier::reject_recursive_types(V)]
#[verifier::reject_recursive_types(S)]
pub struct ExImHashMap<K, V, S>(im::HashMap<K, V, S>);

/// The persistent hash set of the `im` crate.
#[verifier::external_type_specification]
#[verifier::external_body]
#[verifier::reject_recursive_types(A)]
#[verifier::reject_recursive_types(S)]
pub struct ExImHashSet<A, S>(im::HashSet<A, S>);

/// Identifiers in scope and the offsets of their slots from the base pointer.
pub type Env = im::HashMap<String, i64>;

/// Defined functions and their parameter lists.
pub type FunTable = im::HashMap<String, Vec<String>>;

/// A set of names.
pub type NameSet = im::HashSet<String>;

/// What an environment maps each identifier to.
pub uninterp spec fn env_entries(m: Env) -> Map<Seq<char>, i64>;

/// The number of parameters of each defined function.
pub uninterp spec fn fun_arities(m: FunTable) -> Map<Seq<char>, nat>;

/// The names in a set.
pub uninterp spec fn name_set(m: NameSet) -> Set<Seq<char>>;

/// Relies on `im::HashMap::new`: an empty map.
#[verifier::external_body]
pub fn env_new() -> (r: Env)
    ensures
        env_entries(r).dom() == Set::<Seq<char>>::empty(),
{
    im::HashMap::new()
}

/// Relies on `im::HashMap::get`: the value stored under the key, if any.
#[verifier::external_body]
pub fn env_get(m: &Env, k: &String) -> (r: Option<i64>)
    ensures
        r == (if env_entries(*m).contains_key(k@) {
            Some(env_entries(*m)[k@])
        } else {
            None
        }),
{
    m.get(k).copied()
}

/// Relies on `im::HashMap::clone`: the same entries.
#[verifier::external_body]
pub fn env_clone(m: &Env) -> (r: Env)
    ensures
        env_entries(r) == env_entries(*m),
{
    m.clone()
}

/// Relies on `im::HashMap::update`: a copy of the map with the key bound to
/// the value, in place of any earlier binding.
#[verifier::external_body]
pub fn env_update(m: &Env, k: &String, v: i64) -> (r: Env)
    ensures
        env_entries(r) == env_entries(*m).insert(k@, v),
{
    m.update(k.clone(), v)
}

/// Relies on `im::HashMap::new`: an empty map.
#[verifier::external_body]
pub fn funs_new() -> (r: FunTable)
    ensures
        fun_arities(r).dom() == Set::<Seq<char>>::empty(),
{
    im::HashMap::new()
}

/// Relies on `im::HashMap::get`: the parameter list stored under the name,
/// if any, of which only the length is handed out.
#[verifier::external_body]
pub fn funs_arity(m: &FunTable, k: &String) -> (r: Option<usize>)
    ensures
        r is Some == fun_arities(*m).contains_key(k@),
        r matches Some(n) ==> n == fun_arities(*m)[k@],
{
    m.get(k).map(|p| p.len())
}

/// Relies on `im::HashMap::update`: a copy of the map with the name bound to
/// the parameter list.
#[verifier::external_body]
pub fn funs_update(m: &FunTable, k: &String, params: &Vec<String>) -> (r: FunTable)
    ensures
        fun_arities(r) == fun_arities(*m).insert(k@, params@.len()),
{
    m.update(k.clone(), params.clone())
}

/// Relies on `im::HashSet::new`: an empty set.
#[verifier::external_body]
pub fn names_new() -> (r: NameSet)
    ensures
        name_set(r) == Set::<Seq<char>>::empty(),
{
    im::HashSet::new()
}

/// Relies on `im::HashSet::contains`: membership.
#[verifier::external_body]
pub fn names_contains(m: &NameSet, k: &String) -> (r: bool)
    ensures
        r == name_set(*m).contains(k@),
{
    m.contains(k)
}

/// Relies on `im::HashSet::update`: a copy of the set with the name added.
#[verifier::external_body]
pub fn names_update(m: &NameSet, k: &String) -> (r: NameSet)
    ensures
        name_set(r) == name_set(*m).insert(k@),
{
    m.update(k.clone())
}

} // verus!
