//! Plain-value view of the syntax that the bundler reads: tokens with their
//! positions, the suffix chain of an invocation, and its span.
use vstd::prelude::*;

verus! {

/// What a token is, as far as the bundler cares.
#[derive(Clone, Copy, Debug, PartialEq, Eq, Structural)]
pub enum TokenKind {
    /// A name; its text is the identifier.
    Identifier,
    /// A string literal; its text is the literal's contents, without quotes.
    StringLiteral,
    Semicolon,
    RightParen,
    RightBracket,
    /// Any other symbol, keyword or literal.
    Other,
}

/// A trivia token (whitespace or comment) that trails a token.
#[derive(Clone, Copy, Debug, PartialEq, Eq, Structural)]
pub struct Trivia {
    pub is_whitespace: bool,
    /// Offset in the source just past the trivia.
    pub end: usize,
}

/// A token together with its position and its trailing trivia. Positions are
/// offsets in the whole source, counted from 1 at its first character.
#[derive(Clone, Debug)]
pub struct TokenInfo {
    pub kind: TokenKind,
    pub text: String,
    /// Offset in the source of its first character, where the token has one.
    pub start: Option<usize>,
    /// Offset in the source just past its last character, where the token has one.
    pub end: Option<usize>,
    pub trailing: Vec<Trivia>,
}

/// The shape of one suffix of a suffix chain.
#[derive(Clone, Copy, Debug, PartialEq, Eq, Structural)]
pub enum SuffixKind {
    /// An anonymous call with parenthesised arguments: `(...)`.
    ParenCall,
    /// Any other call: a method call, or a call with a string or table argument.
    OtherCall,
    /// Field access: `.name`.
    Dot,
    /// Indexing: `[expr]`.
    Brackets,
    /// Any other suffix.
    Other,
}

/// One suffix, with every token it holds, in source order.
#[derive(Clone, Debug)]
pub struct SuffixInfo {
    pub kind: SuffixKind,
    pub tokens: Vec<TokenInfo>,
    /// For a call, one entry per argument, in order: the literal's contents
    /// where the argument is itself a string literal, `None` for any other
    /// argument (`dir .. 'm.lua'` and `f('m.lua')` are not literals). Empty for
    /// a suffix that is not a call.
    pub arguments: Vec<Option<String>>,
}

/// A suffixed expression: a call expression or a variable-expression chain.
#[derive(Clone, Debug)]
pub struct Invocation {
    /// The tokens of the prefix (the part before the first suffix).
    pub prefix: Vec<TokenInfo>,
    pub suffixes: Vec<SuffixInfo>,
    /// Offset in the source where the prefix starts.
    pub start: usize,
    /// Offset in the source where the last suffix ends.
    pub end: usize,
    /// The expression ends its statement: nothing of the statement follows
    /// it. An assignment target, or an argument, does not.
    pub ends_statement: bool,
}

/// The identifier that marks a module inclusion.
pub open spec fn acquire_name() -> Seq<char> {
    seq!['a', 'c', 'q', 'u', 'i', 'r', 'e']
}

/// The token is the identifier `acquire`.
pub open spec fn is_acquire_token(t: TokenInfo) -> bool {
    t.kind == TokenKind::Identifier && t.text@ == acquire_name()
}

/// Some token of the sequence is the identifier `acquire`.
pub open spec fn has_acquire(tokens: Seq<TokenInfo>) -> bool {
    exists|i: int| 0 <= i < tokens.len() && is_acquire_token(#[trigger] tokens[i])
}

pub open spec fn is_call(kind: SuffixKind) -> bool {
    kind == SuffixKind::ParenCall || kind == SuffixKind::OtherCall
}

/// The first argument that is itself a string literal.
pub open spec fn first_literal(arguments: Seq<Option<String>>) -> Option<Seq<char>>
    decreases arguments.len(),
{
    if arguments.len() == 0 {
        None
    } else if arguments[0] is Some {
        Some(arguments[0]->Some_0@)
    } else {
        first_literal(arguments.drop_first())
    }
}

/// The path argument of a chain: the first string-literal argument of the
/// first call suffix that has one.
pub open spec fn chain_literal(suffixes: Seq<SuffixInfo>) -> Option<Seq<char>>
    decreases suffixes.len(),
{
    if suffixes.len() == 0 {
        None
    } else if is_call(suffixes[0].kind) && first_literal(suffixes[0].arguments@) is Some {
        first_literal(suffixes[0].arguments@)
    } else {
        chain_literal(suffixes.drop_first())
    }
}

/// Where a token's statement boundary lies: the end of its last trailing
/// whitespace, or the end of the token itself when none trails it.
pub open spec fn trivia_boundary(end: Option<usize>, trailing: Seq<Trivia>) -> Option<usize>
    decreases trailing.len(),
{
    if trailing.len() == 0 {
        end
    } else if trailing.last().is_whitespace {
        Some(trailing.last().end)
    } else {
        trivia_boundary(end, trailing.drop_last())
    }
}

pub open spec fn boundary_of(t: TokenInfo) -> Option<usize> {
    match t.end {
        None => None,
        Some(_) => trivia_boundary(t.end, t.trailing@),
    }
}

/// Positions of the semicolon tokens among `tokens`.
pub open spec fn semicolon_starts(tokens: Seq<TokenInfo>) -> Set<usize> {
    Set::new(
        |p: usize|
            exists|i: int|
                0 <= i < tokens.len() && (#[trigger] tokens[i]).kind == TokenKind::Semicolon
                    && tokens[i].start == Some(p),
    )
}

/// A terminator is owed after this token: its boundary is known and no
/// semicolon stands there already.
pub open spec fn needs_terminator_at(semicolons: Set<usize>, t: TokenInfo) -> bool {
    match boundary_of(t) {
        Some(b) => !semicolons.contains(b),
        None => false,
    }
}

/// A suffix whose closing token can carry a terminator: `(...)` or `[...]`.
pub open spec fn closes_with_bracket(kind: SuffixKind) -> bool {
    kind == SuffixKind::ParenCall || kind == SuffixKind::Brackets
}

/// The boundary of a token: the end of its last trailing whitespace, or else
/// the end of the token itself.
pub fn boundary(t: &TokenInfo) -> (r: Option<usize>)
    ensures
        r == boundary_of(*t),
{
    match t.end {
        None => None,
        Some(e) => {
            let mut cur: Option<usize> = Some(e);
            let mut i: usize = 0;
            while i < t.trailing.len()
                invariant
                    0 <= i <= t.trailing.len(),
                    cur == trivia_boundary(t.end, t.trailing@.subrange(0, i as int)),
                decreases t.trailing.len() - i,
            {
                let ghost pre = t.trailing@.subrange(0, i as int);
                let ghost post = t.trailing@.subrange(0, i + 1);
                assert(post.drop_last() =~= pre);
                assert(post.last() == t.trailing@[i as int]);
                if t.trailing[i].is_whitespace {
                    cur = Some(t.trailing[i].end);
                }
                i = i + 1;
            }
            assert(t.trailing@.subrange(0, t.trailing@.len() as int) =~= t.trailing@);
            cur
        },
    }
}

} // verus!
