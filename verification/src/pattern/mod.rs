//! The unified pattern type of let bindings and grammar rules.

use vstd::prelude::*;
use crate::value::Value;

verus! {

/// A pattern, for both let bindings and grammar rules. How it is compiled
/// depends on the context (fast or full path).
#[derive(Debug, PartialEq)]
pub enum Pattern {
    /// Wildcard: matches anything, binds nothing.
    Any,
    /// Variable binding: matches anything, binds it to the name.
    Var(String),
    /// Literal value: matches exactly that value.
    Literal(LiteralValue),
    /// Map pattern: `%{key1: pattern1, key2: pattern2}`.
    Dict(Vec<(String, Pattern)>),
    /// List pattern: `[p1, p2, p3]`, `[head | tail]` or `[p*]`.
    List(ListPattern),
    /// Tagged (constructor) pattern: `:Tag(p1, p2, ...)`.
    Tagged { tag: String, patterns: Vec<Pattern> },
    /// Character pattern (for strings): `'a'` or `[a-z]`.
    Char(CharPattern),
    /// Sequence: `p1 p2 p3`, all in order.
    Sequence(Vec<Pattern>),
    /// Ordered choice: `p1 | p2 | p3`, the first that matches.
    Choice(Vec<Pattern>),
    /// Repetition: `p*` or `p+`.
    Repeat { pattern: Box<Pattern>, kind: RepeatKind },
    /// Optional: `p?`.
    Optional(Box<Pattern>),
    /// Lookahead: `&p` (positive) or `!p` (negative).
    Lookahead { pattern: Box<Pattern>, positive: bool },
    /// Binding: `name: pattern`.
    Bind { name: String, pattern: Box<Pattern> },
    /// Guard: `pattern when predicate`.
    Guard { pattern: Box<Pattern>, predicate: GuardPredicate },
    /// Action: `pattern => expr`, the expression kept as source text.
    Action { pattern: Box<Pattern>, action: String },
    /// Application of a named grammar rule.
    ApplyRule(String),
    /// A literal string (text parsing).
    StringLiteral(String),
    /// A fixed-width binary field (binary parsing).
    Binary(BinaryPattern),
    /// A value equal to the given one (value parsing).
    MatchValue(Value),
    /// A value of the named type (value parsing): `bool`, `int`, `float`,
    /// `string`, `symbol`, `list`, `map`.
    MatchType(String),
    /// Negative lookahead: succeeds, consuming nothing, where the pattern
    /// fails.
    Not(Box<Pattern>),
    /// The end of the input.
    End,
    /// Matches without consuming anything.
    Empty,
}

/// A fixed-width integer read from binary input.
#[derive(Debug, Clone, Copy, PartialEq, Eq, Structural)]
pub enum BinaryPattern {
    UInt8,
    UInt16BE,
    UInt16LE,
    UInt32BE,
    UInt32LE,
    Int8,
    Int16BE,
    Int16LE,
    Int32BE,
    Int32LE,
}

/// One member of a character class: a character or an inclusive range.
#[derive(Debug, Clone, Copy, PartialEq, Eq, Structural)]
pub enum CharRange {
    /// A single character.
    Char(char),
    /// The characters from the first to the second, inclusive.
    Range(char, char),
}

impl CharRange {
    /// Whether `c` is in this class member.
    pub fn matches(&self, c: char) -> (r: bool)
        ensures
            r == match *self {
                CharRange::Char(x) => c == x,
                CharRange::Range(lo, hi) => lo as u32 <= c as u32 <= hi as u32,
            },
    {
        match self {
            CharRange::Char(x) => c == *x,
            CharRange::Range(lo, hi) => (*lo as u32) <= (c as u32) && (c as u32) <= (*hi as u32),
        }
    }
}

/// A literal in a pattern.
#[derive(Debug, Clone, PartialEq)]
pub enum LiteralValue {
    String(String),
    Int(i64),
    /// A float literal, by its IEEE-754 bit pattern.
    Float(u64),
    Bool(bool),
    Null,
}

/// A list pattern.
#[derive(Debug, PartialEq)]
pub enum ListPattern {
    /// Exact list pattern: matches `[p1, p2, p3]`.
    Exact(Vec<Pattern>),
    /// Head-tail pattern: matches `[h | t]`.
    HeadTail { head: Box<Pattern>, tail: Option<String> },
    /// Repeat pattern: matches `[p*]`.
    Repeat { element: Box<Pattern> },
}

/// A character pattern.
#[derive(Debug, Clone, PartialEq, Eq)]
pub enum CharPattern {
    /// Exact character: `'a'`.
    Exact(char),
    /// Character class: `[a-z]`.
    Class(Vec<CharRange>),
    /// Negated character class: `[^a-z]`.
    NegatedClass(Vec<CharRange>),
}

/// How often a repeated pattern must match.
#[derive(Debug, Clone, PartialEq, Eq)]
pub enum RepeatKind {
    /// Zero or more repetitions: `p*`.
    ZeroOrMore,
    /// One or more repetitions: `p+`.
    OneOrMore,
}

/// A guard's predicate.
#[derive(Debug, Clone, PartialEq, Eq)]
pub enum GuardPredicate {
    /// Expression to evaluate as a boolean guard.
    Expr(String),
    /// Type check guard: `is_list`, `is_map`, `is_int`, ...
    TypeCheck(String),
}

/// Compilation mode for patterns.
#[derive(Debug, Clone, Copy, PartialEq, Eq, Structural)]
pub enum PatternMode {
    /// Fast path: direct extraction, no backtracking (let bindings).
    Fast,
    /// Full path: grammar matching with backtracking (the `@` operator).
    Full,
}

/// Whether matching `p` needs the full path: sequences, choices,
/// repetitions, lookaheads, guards, actions, character patterns and
/// repeated list patterns do.
pub open spec fn needs_full_mode(p: Pattern) -> bool {
    ||| p is Sequence
    ||| p is Choice
    ||| p is Repeat
    ||| p is Lookahead
    ||| p is Guard
    ||| p is Action
    ||| p is Char
    ||| p matches Pattern::List(ListPattern::Repeat { .. })
}

impl Pattern {
    /// Whether this pattern needs full matching (backtracking or guards).
    pub fn requires_full_mode(&self) -> (r: bool)
        ensures
            r == needs_full_mode(*self),
    {
        match self {
            Pattern::Sequence(_) | Pattern::Choice(_) | Pattern::Repeat { .. } => true,
            Pattern::Lookahead { .. } | Pattern::Guard { .. } => true,
            Pattern::Action { .. } => true,
            Pattern::Char(_) => true,
            Pattern::List(ListPattern::Repeat { .. }) => true,
            _ => false,
        }
    }

    /// The compilation mode recommended for this pattern.
    pub fn recommended_mode(&self) -> (r: PatternMode)
        ensures
            r == (if needs_full_mode(*self) {
                PatternMode::Full
            } else {
                PatternMode::Fast
            }),
    {
        if self.requires_full_mode() {
            PatternMode::Full
        } else {
            PatternMode::Fast
        }
    }
}

} // verus!
