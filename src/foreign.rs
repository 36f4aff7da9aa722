//! What the bundler takes from other crates: the Lua parser's tree and its
//! entry point, and the fast hash collections that hold per-run state.
use full_moon::ast::Ast;
use rustc_hash::{FxBuildHasher, FxHashMap, FxHashSet};
use vstd::prelude::*;

verus! {

#[verifier::external_type_specification]
#[verifier::external_body]
pub struct ExFxBuildHasher(FxBuildHasher);

#[verifier::external_type_specification]
#[verifier::external_body]
pub struct ExAst(Ast);

#[verifier::external_type_specification]
#[verifier::external_body]
pub struct ExLuaError(full_moon::Error);

/// The tree that parsing a text gives, or `None` where the text does not parse.
pub uninterp spec fn lua_parse(text: Seq<char>) -> Option<Ast>;

/// Relies on `full_moon::parse`: it returns `Ok` with the tree of the text, or
/// `Err` with the errors met, and which of the two depends on the text alone.
#[verifier::external_body]
pub(crate) fn parse_lua(text: &str) -> (r: Result<Ast, Vec<full_moon::Error>>)
    ensures
        match r {
            Ok(ast) => lua_parse(text@) == Some(ast),
            Err(_) => lua_parse(text@) is None,
        },
{
    full_moon::parse(text)
}

/// The positions that a set of offsets holds.
pub uninterp spec fn offsets_of(s: FxHashSet<usize>) -> Set<usize>;

/// Relies on `FxHashSet::default` (std's `HashSet::default`): an empty set.
#[verifier::external_body]
pub(crate) fn offsets_new() -> (r: FxHashSet<usize>)
    ensures
        offsets_of(r) == Set::<usize>::empty(),
{
    FxHashSet::default()
}

/// Relies on `HashSet::insert`: afterwards the set holds the value too.
#[verifier::external_body]
pub(crate) fn offsets_insert(s: &mut FxHashSet<usize>, x: usize)
    ensures
        offsets_of(*final(s)) == offsets_of(*old(s)).insert(x),
{
    s.insert(x);
}

/// Relies on `HashSet::contains`: whether the set holds the value.
#[verifier::external_body]
pub(crate) fn offsets_contains(s: &FxHashSet<usize>, x: usize) -> (r: bool)
    ensures
        r == offsets_of(*s).contains(x),
{
    s.contains(&x)
}

/// The modules that a cache holds, keyed by path.
pub uninterp spec fn modules_of(m: FxHashMap<String, Ast>) -> Map<Seq<char>, Ast>;

/// Relies on `FxHashMap::default` (std's `HashMap::default`): an empty map.
#[verifier::external_body]
pub(crate) fn modules_new() -> (r: FxHashMap<String, Ast>)
    ensures
        modules_of(r).dom() == Set::<Seq<char>>::empty(),
{
    FxHashMap::default()
}

/// Relies on `HashMap::contains_key`: whether the map has an entry for the key.
#[verifier::external_body]
pub(crate) fn modules_contains(m: &FxHashMap<String, Ast>, k: &String) -> (r: bool)
    ensures
        r == modules_of(*m).contains_key(k@),
{
    m.contains_key(k)
}

/// Relies on `HashMap::insert`: afterwards the key maps to the value, and the
/// other entries stay as they were.
#[verifier::external_body]
pub(crate) fn modules_insert(m: &mut FxHashMap<String, Ast>, k: String, v: Ast)
    ensures
        modules_of(*final(m)) == modules_of(*old(m)).insert(k@, v),
{
    m.insert(k, v);
}

} // verus!
