//! The per-run bundling engine: it detects `acquire` invocations, resolves and
//! memoises the modules they name, and plans the rewrite of each one.
use crate::foreign::{
    lua_parse, modules_contains, modules_insert, modules_new, modules_of, offsets_contains,
    offsets_insert, offsets_new, offsets_of, parse_lua,
};
use crate::syntax::{
    acquire_name, boundary, chain_literal, first_literal, closes_with_bracket, has_acquire,
    is_acquire_token, needs_terminator_at, semicolon_starts, Invocation, SuffixKind,
    TokenInfo, TokenKind,
};
use full_moon::ast::Ast;
use rustc_hash::{FxHashMap, FxHashSet};
use vstd::prelude::*;

verus! {

/// A failure that aborts the whole run.
#[derive(Clone, Debug, PartialEq, Eq)]
pub enum BundleError {
    /// An `acquire` invocation without a string-literal path argument.
    MalformedAcquire,
    /// The module at this path does not parse.
    Parse(String),
}

/// What a visit found.
#[derive(Clone, Debug, PartialEq, Eq)]
pub enum Visit {
    /// The node stays as written.
    Unchanged,
    /// An `acquire` invocation of a module at this path, which may be inlined
    /// if a file is there.
    Probe(String),
}

/// How an invocation resolved.
#[derive(Clone, Debug, PartialEq, Eq)]
pub enum Resolved {
    /// No file at the path: the invocation stays as written.
    Missing,
    /// The file exists and has not been parsed yet: its text is needed.
    NeedsSource,
    /// The module is at hand: rewrite the invocation by this plan.
    Inlined(Replacement),
}

/// How to rewrite an invocation into an immediately-invoked function,
/// `(function(...) <module body> end)(<remaining suffixes>)`.
///
/// The new prefix is the parenthesised function, whose opening parenthesis
/// carries `comment` as a leading single-line comment (`-- path` on a line of
/// its own) after the leading trivia of the original prefix, and whose body is
/// the cached module at `path`. The first suffix of the original chain (the call
/// that held the path) becomes an empty call `()`; the other suffixes stay as
/// they were, at the same indices.
#[derive(Clone, Debug, PartialEq, Eq)]
pub struct Replacement {
    pub path: String,
    pub comment: String,
    /// The suffix whose closing token gets a semicolon and a newline as its
    /// trailing trivia, ahead of the trivia that already trailed it, if any
    /// does. Every closing token keeps its own trivia; the empty call `()`
    /// takes the trailing trivia of the call it replaces.
    pub terminator: Option<usize>,
}

/// The state of one bundling run.
pub struct AcquireParser {
    pub root: String,
    /// The run's input file, relative to the root.
    pub input: String,
    /// The run's output file, relative to the root.
    pub output: String,
    /// Every module parsed so far, keyed by its resolved path.
    pub processed_cache: FxHashMap<String, Ast>,
    /// Span of the most recently visited expression that was not rewritten.
    pub latest_start: usize,
    pub latest_end: usize,
    /// Positions of the semicolons already present in the visited blocks.
    pub semi_colons: FxHashSet<usize>,
    /// How many invocations have been inlined.
    pub count: usize,
}

/// The text of the comment that names an inlined module's path.
pub open spec fn path_comment(path: Seq<char>) -> Seq<char> {
    seq![' '] + path + seq!['\n']
}

/// `root/literal`: where a literal path argument resolves to.
pub open spec fn resolved_path(root: Seq<char>, literal: Seq<char>) -> Seq<char> {
    root + seq!['/'] + literal
}

impl AcquireParser {
    /// The path that the invocation's literal argument resolves to, if it has one.
    pub open spec fn path_of(self, inv: Invocation) -> Option<Seq<char>> {
        match chain_literal(inv.suffixes@) {
            Some(lit) => Some(resolved_path(self.root@, lit)),
            None => None,
        }
    }

    /// The run's input or output file, resolved against the root.
    pub open spec fn is_own_file(self, path: Seq<char>) -> bool {
        path == resolved_path(self.root@, self.input@) || path == resolved_path(self.root@, self.output@)
    }

    /// The path of an invocation that may be inlined: it is an `acquire`
    /// invocation whose path is neither the run's input nor its output.
    pub open spec fn candidate(self, inv: Invocation) -> Option<Seq<char>> {
        match self.path_of(inv) {
            Some(p) => if has_acquire(inv.prefix@) && !self.is_own_file(p) {
                Some(p)
            } else {
                None
            },
            None => None,
        }
    }

    pub open spec fn cached(self, path: Seq<char>) -> bool {
        modules_of(self.processed_cache).contains_key(path)
    }

    pub open spec fn semicolons(self) -> Set<usize> {
        offsets_of(self.semi_colons)
    }

    pub open spec fn pending_range(self) -> (usize, usize) {
        (self.latest_start, self.latest_end)
    }

    /// The invocation starts inside the span of the expression visited just
    /// before it: it continues that expression, which owns the terminator.
    pub open spec fn chained(self, inv: Invocation) -> bool {
        self.latest_start <= inv.start < self.latest_end
    }

    /// Which suffix of the rewritten chain gets a terminator. Only the
    /// outermost rewrite of a chain that ends its statement gets one, on the
    /// last suffix, and only where no semicolon stands at its boundary already.
    /// An expression that does not end its statement (an assignment target, an
    /// argument) gets none, so that the rewrite stays a drop-in replacement.
    pub open spec fn terminator(self, inv: Invocation) -> Option<usize> {
        let n = inv.suffixes@.len();
        if self.chained(inv) || !inv.ends_statement || n == 0 {
            None
        } else {
            let last = inv.suffixes@[n - 1];
            if (n == 1 || closes_with_bracket(last.kind)) && last.tokens@.len() > 0
                && needs_terminator_at(self.semicolons(), last.tokens@.last()) {
                Some((n - 1) as usize)
            } else {
                None
            }
        }
    }

    /// `rep` is the rewrite of `inv` that inlines the module at `path`.
    pub open spec fn planned(self, inv: Invocation, path: Seq<char>, rep: Replacement) -> bool {
        &&& rep.path@ == path
        &&& rep.comment@ == path_comment(path)
        &&& rep.terminator == self.terminator(inv)
    }

    /// Every module that `self` has cached is still cached in `after`, as the
    /// same tree.
    pub open spec fn retains(self, after: Self) -> bool {
        forall|k: Seq<char>| #[trigger] self.cached(k) ==> after.cached(k) && modules_of(
            after.processed_cache,
        )[k] == modules_of(self.processed_cache)[k]
    }

    /// Whether resolving `path` with the file present (`exists`) needs the
    /// module's text: only where it is not cached yet.
    pub open spec fn needs_source(self, path: Seq<char>, exists: bool) -> bool {
        exists && !self.cached(path)
    }

    /// Everything but the cache and the count is as in `self`.
    pub open spec fn keeps_context(self, after: Self) -> bool {
        &&& after.root == self.root
        &&& after.input == self.input
        &&& after.output == self.output
        &&& after.latest_start == self.latest_start
        &&& after.latest_end == self.latest_end
        &&& after.semi_colons == self.semi_colons
    }

    /// What visiting `inv` does: an expression that is not an `acquire`
    /// invocation becomes the pending span; an `acquire` invocation without a
    /// literal path fails; one whose path is the run's input or output stays
    /// as written; any other is to be probed. Only the first changes the state.
    pub open spec fn visited(self, after: Self, inv: Invocation, r: Result<Visit, BundleError>) -> bool {
        if !has_acquire(inv.prefix@) {
            &&& r == Ok::<Visit, BundleError>(Visit::Unchanged)
            &&& after == (AcquireParser { latest_start: inv.start, latest_end: inv.end, ..self })
        } else {
            &&& after == self
            &&& match self.path_of(inv) {
                None => r == Err::<Visit, BundleError>(BundleError::MalformedAcquire),
                Some(p) => if self.is_own_file(p) {
                    r == Ok::<Visit, BundleError>(Visit::Unchanged)
                } else {
                    r matches Ok(Visit::Probe(q)) && q@ == p
                },
            }
        }
    }

    pub fn new(root: String, input: String, output: String) -> (r: Self)
        ensures
            r.root == root,
            r.input == input,
            r.output == output,
            modules_of(r.processed_cache).dom() == Set::<Seq<char>>::empty(),
            r.semicolons() == Set::<usize>::empty(),
            r.pending_range() == (0usize, 0usize),
            r.count == 0,
    {
        AcquireParser {
            root,
            input,
            output,
            processed_cache: modules_new(),
            latest_start: 0,
            latest_end: 0,
            semi_colons: offsets_new(),
            count: 0,
        }
    }

    /// Whether the prefix holds the identifier `acquire`, anywhere in it. The
    /// match is by text alone: a local variable of that name matches too.
    pub fn contains_acquire(&self, prefix: &Vec<TokenInfo>) -> (r: bool)
        ensures
            r == has_acquire(prefix@),
    {
        let name = String::from_str("acquire");
        proof {
            reveal_strlit("acquire");
            assert(name@ =~= acquire_name());
        }
        let mut i: usize = 0;
        while i < prefix.len()
            invariant
                0 <= i <= prefix.len(),
                name@ == acquire_name(),
                forall|j: int| 0 <= j < i ==> !is_acquire_token(#[trigger] prefix@[j]),
            decreases prefix.len() - i,
        {
            let t = &prefix[i];
            if t.kind == TokenKind::Identifier && t.text == name {
                assert(is_acquire_token(prefix@[i as int]));
                return true;
            }
            i = i + 1;
        }
        false
    }

    /// The path named by the first string-literal argument of the first call
    /// suffix of the chain that has one, resolved against the root; `None`
    /// where no call suffix has one (a literal inside a larger argument does
    /// not count).
    /// Serves call expressions and variable-expression chains alike.
    pub fn call_acquire_path(&self, call: &Invocation) -> (r: Option<String>)
        ensures
            match r {
                Some(p) => self.path_of(*call) == Some(p@),
                None => self.path_of(*call) is None,
            },
    {
        let suffixes = &call.suffixes;
        let mut i: usize = 0;
        assert(suffixes@.subrange(0, suffixes@.len() as int) =~= suffixes@);
        while i < suffixes.len()
            invariant
                0 <= i <= suffixes.len(),
                suffixes@ == call.suffixes@,
                chain_literal(suffixes@) == chain_literal(suffixes@.subrange(i as int, suffixes@.len() as int)),
            decreases suffixes.len() - i,
        {
            let s = &suffixes[i];
            let ghost rest = suffixes@.subrange(i as int, suffixes@.len() as int);
            assert(rest.drop_first() =~= suffixes@.subrange(i + 1, suffixes@.len() as int));
            assert(rest[0] == suffixes@[i as int]);
            if s.kind == SuffixKind::ParenCall || s.kind == SuffixKind::OtherCall {
                match literal_argument(&s.arguments) {
                    Some(lit) => {
                        let p = join_root(&self.root, lit);
                        proof {
                            assert(chain_literal(rest) == Some(lit@));
                        }
                        return Some(p);
                    },
                    None => {},
                }
            }
            i = i + 1;
        }
        assert(suffixes@.subrange(i as int, suffixes@.len() as int).len() == 0);
        None
    }

    /// Visits a call expression: see `visited`.
    pub fn visit_function_call(&mut self, call: &Invocation) -> (r: Result<Visit, BundleError>)
        ensures
            old(self).visited(*final(self), *call, r),
            old(self).retains(*final(self)),
    {
        self.visit_invocation(call)
    }

    /// Visits a variable-expression chain: see `visited`.
    pub fn visit_var_expression(&mut self, var_expr: &Invocation) -> (r: Result<Visit, BundleError>)
        ensures
            old(self).visited(*final(self), *var_expr, r),
            old(self).retains(*final(self)),
    {
        self.visit_invocation(var_expr)
    }

    fn visit_invocation(&mut self, inv: &Invocation) -> (r: Result<Visit, BundleError>)
        ensures
            old(self).visited(*final(self), *inv, r),
    {
        if !self.contains_acquire(&inv.prefix) {
            self.latest_start = inv.start;
            self.latest_end = inv.end;
            return Ok(Visit::Unchanged);
        }
        match self.call_acquire_path(inv) {
            None => Err(BundleError::MalformedAcquire),
            Some(p) => {
                let own_input = join_root(&self.root, &self.input);
                let own_output = join_root(&self.root, &self.output);
                if p == own_input || p == own_output {
                    Ok(Visit::Unchanged)
                } else {
                    Ok(Visit::Probe(p))
                }
            },
        }
    }

    /// Decides where the rewrite of `inv` puts its terminator.
    fn terminator_for(&self, inv: &Invocation) -> (r: Option<usize>)
        ensures
            r == self.terminator(*inv),
    {
        let n = inv.suffixes.len();
        if (self.latest_start <= inv.start && inv.start < self.latest_end) || !inv.ends_statement
            || n == 0 {
            return None;
        }
        let last = &inv.suffixes[n - 1];
        if !(n == 1 || last.kind == SuffixKind::ParenCall || last.kind == SuffixKind::Brackets) {
            return None;
        }
        let k = last.tokens.len();
        if k == 0 {
            return None;
        }
        match boundary(&last.tokens[k - 1]) {
            None => None,
            Some(b) => if offsets_contains(&self.semi_colons, b) {
                None
            } else {
                Some(n - 1)
            },
        }
    }

    /// The rewrite plan of `inv` for the module at `path`.
    fn plan(&self, inv: &Invocation, path: String) -> (r: Replacement)
        ensures
            self.planned(*inv, path@, r),
    {
        let mut comment = String::from_str(" ");
        comment.append(path.as_str());
        comment.append("\n");
        proof {
            reveal_strlit(" ");
            reveal_strlit("\n");
            assert(comment@ =~= path_comment(path@));
        }
        Replacement { path, comment, terminator: self.terminator_for(inv) }
    }

    /// Resolves an invocation to inline, once a probe has told whether a file
    /// is at its path. An absent file leaves everything as it was; a cached
    /// module is inlined at once and counted; an uncached one needs its text.
    pub fn resolve(&mut self, call: &Invocation, path: String, exists: bool) -> (r: Resolved)
        requires
            old(self).candidate(*call) == Some(path@),
            old(self).count < usize::MAX,
        ensures
            !exists ==> r == Resolved::Missing && *final(self) == *old(self),
            r == Resolved::NeedsSource <==> old(self).needs_source(path@, exists),
            exists && !old(self).cached(path@) ==> *final(self) == *old(self),
            exists && old(self).cached(path@) ==> (r matches Resolved::Inlined(rep)
                && old(self).planned(*call, path@, rep)) && *final(self) == (AcquireParser {
                count: (old(self).count + 1) as usize,
                ..*old(self)
            }),
            old(self).retains(*final(self)),
    {
        if !exists {
            return Resolved::Missing;
        }
        if !modules_contains(&self.processed_cache, &path) {
            return Resolved::NeedsSource;
        }
        let rep = self.plan(call, path);
        self.count = self.count + 1;
        Resolved::Inlined(rep)
    }

    /// Parses the text of the module at `path`, caches it, and inlines the
    /// invocation. A text that does not parse fails the run and names the path.
    pub fn load(&mut self, call: &Invocation, path: String, text: &str) -> (r: Result<
        Replacement,
        BundleError,
    >)
        requires
            old(self).candidate(*call) == Some(path@),
            !old(self).cached(path@),
            old(self).count < usize::MAX,
        ensures
            lua_parse(text@) is None ==> (r matches Err(BundleError::Parse(q)) && q@ == path@)
                && *final(self) == *old(self),
            lua_parse(text@) is Some ==> (r matches Ok(rep) && old(self).planned(
                *call,
                path@,
                rep,
            )) && modules_of(final(self).processed_cache) == modules_of(
                old(self).processed_cache,
            ).insert(path@, lua_parse(text@)->Some_0) && final(self).count == old(self).count + 1
                && old(self).keeps_context(*final(self)),
            old(self).retains(*final(self)),
    {
        match parse_lua(text) {
            Err(_) => Err(BundleError::Parse(path)),
            Ok(ast) => {
                let rep = self.plan(call, path.clone());
                modules_insert(&mut self.processed_cache, path, ast);
                self.count = self.count + 1;
                Ok(rep)
            },
        }
    }

    /// Records the position of every semicolon among the tokens of a block's
    /// statements. The positions are kept for the rest of the run.
    pub fn visit_block(&mut self, tokens: &Vec<TokenInfo>)
        ensures
            final(self).semicolons() == old(self).semicolons() + semicolon_starts(tokens@),
            final(self).root == old(self).root,
            final(self).input == old(self).input,
            final(self).output == old(self).output,
            final(self).processed_cache == old(self).processed_cache,
            final(self).pending_range() == old(self).pending_range(),
            final(self).count == old(self).count,
            old(self).retains(*final(self)),
    {
        let ghost before = self.semicolons();
        let mut i: usize = 0;
        while i < tokens.len()
            invariant
                0 <= i <= tokens.len(),
                self.semicolons() == before + semicolon_starts(tokens@.subrange(0, i as int)),
                self.root == old(self).root,
                self.input == old(self).input,
                self.output == old(self).output,
                self.processed_cache == old(self).processed_cache,
                self.pending_range() == old(self).pending_range(),
                self.count == old(self).count,
            decreases tokens.len() - i,
        {
            let t = &tokens[i];
            let ghost pre = tokens@.subrange(0, i as int);
            let ghost post = tokens@.subrange(0, i + 1);
            assert(post =~= pre.push(tokens@[i as int]));
            proof {
                lemma_starts_push(pre, tokens@[i as int]);
            }
            if t.kind == TokenKind::Semicolon {
                match t.start {
                    Some(p) => offsets_insert(&mut self.semi_colons, p),
                    None => {},
                }
            }
            i = i + 1;
        }
        assert(tokens@.subrange(0, tokens@.len() as int) =~= tokens@);
    }
}

impl Default for AcquireParser {
    /// A run rooted at `.` that reads `main.lua` and writes `bundled.lua`.
    fn default() -> (r: Self)
        ensures
            r.root@ == seq!['.'],
            r.input@ == seq!['m', 'a', 'i', 'n', '.', 'l', 'u', 'a'],
            r.output@ == seq!['b', 'u', 'n', 'd', 'l', 'e', 'd', '.', 'l', 'u', 'a'],
            modules_of(r.processed_cache).dom() == Set::<Seq<char>>::empty(),
            r.semicolons() == Set::<usize>::empty(),
            r.pending_range() == (0usize, 0usize),
            r.count == 0,
    {
        proof {
            reveal_strlit(".");
            reveal_strlit("main.lua");
            reveal_strlit("bundled.lua");
        }
        AcquireParser::new(
            String::from_str("."),
            String::from_str("main.lua"),
            String::from_str("bundled.lua"),
        )
    }
}

/// The first argument that is itself a string literal.
fn literal_argument(arguments: &Vec<Option<String>>) -> (r: Option<&String>)
    ensures
        match r {
            Some(s) => first_literal(arguments@) == Some(s@),
            None => first_literal(arguments@) is None,
        },
{
    let mut i: usize = 0;
    assert(arguments@.subrange(0, arguments@.len() as int) =~= arguments@);
    while i < arguments.len()
        invariant
            0 <= i <= arguments.len(),
            first_literal(arguments@) == first_literal(arguments@.subrange(i as int, arguments@.len() as int)),
        decreases arguments.len() - i,
    {
        let ghost rest = arguments@.subrange(i as int, arguments@.len() as int);
        assert(rest.drop_first() =~= arguments@.subrange(i + 1, arguments@.len() as int));
        assert(rest[0] == arguments@[i as int]);
        match &arguments[i] {
            Some(lit) => return Some(lit),
            None => {},
        }
        i = i + 1;
    }
    assert(arguments@.subrange(i as int, arguments@.len() as int).len() == 0);
    None
}

/// `root/rel`.
pub fn join_root(root: &String, rel: &String) -> (r: String)
    ensures
        r@ == resolved_path(root@, rel@),
{
    let mut p = root.clone();
    p.append("/");
    p.append(rel.as_str());
    proof {
        reveal_strlit("/");
        assert(p@ =~= resolved_path(root@, rel@));
    }
    p
}

/// What one more token adds to the semicolon positions: its start, where it
/// is a positioned semicolon, and nothing otherwise.
proof fn lemma_starts_push(pre: Seq<TokenInfo>, t: TokenInfo)
    ensures
        semicolon_starts(pre.push(t)) == if t.kind == TokenKind::Semicolon && t.start is Some {
            semicolon_starts(pre).insert(t.start->Some_0)
        } else {
            semicolon_starts(pre)
        },
{
    let post = pre.push(t);
    assert forall|q: usize| semicolon_starts(pre).contains(q) implies
        semicolon_starts(post).contains(q) by {
        let j = choose|j: int| 0 <= j < pre.len() && (#[trigger] pre[j]).kind
            == TokenKind::Semicolon && pre[j].start == Some(q);
        assert(post[j] == pre[j]);
    }
    assert forall|q: usize| semicolon_starts(post).contains(q) implies
        t.start == Some(q) && t.kind == TokenKind::Semicolon || semicolon_starts(pre).contains(q) by {
        let j = choose|j: int| 0 <= j < post.len() && (#[trigger] post[j]).kind
            == TokenKind::Semicolon && post[j].start == Some(q);
        if j < pre.len() {
            assert(pre[j] == post[j]);
        }
    }
    if t.kind == TokenKind::Semicolon && t.start is Some {
        assert(post[pre.len() as int] == t);
        assert(semicolon_starts(post) =~= semicolon_starts(pre).insert(t.start->Some_0));
    } else {
        assert(semicolon_starts(post) =~= semicolon_starts(pre));
    }
}

} // verus!
