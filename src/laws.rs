//! Properties of a bundling run that relate several steps or hold of every
//! input, proved from the engine's specifications.
use crate::foreign::modules_of;
use crate::parser::{AcquireParser, BundleError, Visit};
use crate::syntax::{boundary_of, chain_literal, has_acquire, Invocation};
use vstd::prelude::*;

verus! {

/// Where a semicolon already stands at the boundary of the last token of an
/// invocation's chain, its rewrite adds no second one.
pub proof fn lemma_no_double_semicolon(p: AcquireParser, inv: Invocation, b: usize)
    requires
        inv.suffixes@.len() > 0,
        inv.suffixes@.last().tokens@.len() > 0,
        boundary_of(inv.suffixes@.last().tokens@.last()) == Some(b),
        p.semicolons().contains(b),
    ensures
        p.terminator(inv) is None,
{
}

/// A terminator, where a rewrite adds one, goes on the last suffix of the
/// chain and nowhere else; a rewrite that continues the expression visited
/// just before it, or that does not end its statement, gets none.
pub proof fn lemma_terminator_on_last_suffix(p: AcquireParser, inv: Invocation)
    ensures
        p.terminator(inv) is Some ==> p.terminator(inv) == Some((inv.suffixes@.len() - 1) as usize),
        p.chained(inv) ==> p.terminator(inv) is None,
        !inv.ends_statement ==> p.terminator(inv) is None,
{
}

/// An invocation that names the run's own input or output (as given, relative
/// to the root) is never inlined: it is no candidate for resolution, and
/// visiting it leaves the run as it was.
pub proof fn lemma_input_output_not_inlined(
    p: AcquireParser,
    inv: Invocation,
    after: AcquireParser,
    r: Result<Visit, BundleError>,
)
    requires
        has_acquire(inv.prefix@),
        chain_literal(inv.suffixes@) == Some(p.input@) || chain_literal(inv.suffixes@) == Some(
            p.output@,
        ),
        p.visited(after, inv, r),
    ensures
        p.candidate(inv) is None,
        after == p,
        r == Ok::<Visit, BundleError>(Visit::Unchanged),
{
}

/// A module is parsed at most once per run. Along any run whose every step
/// retains the cache (as every step of `AcquireParser` does), once a path is
/// cached each later state still holds the very tree that the first parse
/// produced, so every inlining embeds the same module, and resolving the path
/// never asks for its text again.
pub proof fn lemma_parsed_once(run: Seq<AcquireParser>, path: Seq<char>)
    requires
        run.len() > 0,
        run[0].cached(path),
        forall|i: int| 0 <= i < run.len() - 1 ==> (#[trigger] run[i]).retains(run[i + 1]),
    ensures
        forall|j: int|
            0 <= j < run.len() ==> {
                &&& (#[trigger] run[j]).cached(path)
                &&& modules_of(run[j].processed_cache)[path] == modules_of(run[0].processed_cache)[path]
                &&& !run[j].needs_source(path, true)
            },
{
    assert forall|j: int| 0 <= j < run.len() implies {
        &&& (#[trigger] run[j]).cached(path)
        &&& modules_of(run[j].processed_cache)[path] == modules_of(run[0].processed_cache)[path]
    } by {
        lemma_cached_along(run, path, j);
    }
}

proof fn lemma_cached_along(run: Seq<AcquireParser>, path: Seq<char>, j: int)
    requires
        0 <= j < run.len(),
        run[0].cached(path),
        forall|i: int| 0 <= i < run.len() - 1 ==> (#[trigger] run[i]).retains(run[i + 1]),
    ensures
        run[j].cached(path),
        modules_of(run[j].processed_cache)[path] == modules_of(run[0].processed_cache)[path],
    decreases j,
{
    if j > 0 {
        lemma_cached_along(run, path, j - 1);
        assert(run[j - 1].retains(run[j]));
    }
}

} // verus!
