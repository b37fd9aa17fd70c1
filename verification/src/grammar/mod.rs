//! PEG grammar inputs and parse results.

pub mod incremental;
pub mod input;

use vstd::prelude::*;
use crate::pattern::{BinaryPattern, CharPattern, CharRange, Pattern, RepeatKind};
use crate::value::{Datum, Value};

verus! {

broadcast use vstd::string::group_string_axioms;

/// Input stream for parsing: text, binary, or a stream of values.
#[derive(Debug)]
pub enum Input {
    /// Character stream (for text parsing).
    Text(String),
    /// Byte stream (for binary parsing).
    Binary(Vec<u8>),
    /// Value stream (for tree/object parsing).
    Values(Vec<Value>),
}

/// Mathematical model of an [`Input`].
pub enum InputModel {
    Text(Seq<char>),
    Binary(Seq<u8>),
    Values(Seq<Datum>),
}

/// The models of a sequence of values.
pub open spec fn datums(values: Seq<Value>) -> Seq<Datum> {
    values.map_values(|v: Value| v.datum())
}

impl Input {
    /// The model of this input.
    pub open spec fn model(self) -> InputModel {
        match self {
            Input::Text(s) => InputModel::Text(s@),
            Input::Binary(b) => InputModel::Binary(b@),
            Input::Values(v) => InputModel::Values(datums(v@)),
        }
    }

    /// The number of positions of this input: UTF-8 bytes of text, bytes,
    /// or values.
    pub open spec fn len_spec(self) -> nat {
        match self {
            Input::Text(s) => vstd::utf8::encode_utf8(s@).len(),
            Input::Binary(b) => b@.len(),
            Input::Values(v) => v@.len(),
        }
    }

    /// A text input holding a copy of `s`.
    pub fn text(s: &str) -> (r: Input)
        ensures
            r.model() == InputModel::Text(s@),
    {
        Input::Text(s.to_owned())
    }

    /// A binary input holding `bytes`.
    pub fn binary(bytes: Vec<u8>) -> (r: Input)
        ensures
            r.model() == InputModel::Binary(bytes@),
    {
        Input::Binary(bytes)
    }

    /// A value stream input holding `values`.
    pub fn values(values: Vec<Value>) -> (r: Input)
        ensures
            r == Input::Values(values),
    {
        Input::Values(values)
    }

    /// A value stream from a single value: the items of a list, or the value
    /// alone.
    pub fn from_value(value: Value) -> (r: Input)
        ensures
            r.model() == InputModel::Values(
                match value.datum() {
                    Datum::List(items) => items,
                    d => seq![d],
                },
            ),
    {
        match value {
            Value::List(items) => {
                proof {
                    assert(datums(items@) =~= Value::List(items).datum()->List_0);
                }
                Input::Values(items)
            },
            other => {
                let v = vec![other];
                proof {
                    assert(datums(v@) =~= seq![other.datum()]);
                }
                Input::Values(v)
            },
        }
    }

    /// The length of the input.
    pub fn len(&self) -> (r: usize)
        ensures
            r == self.len_spec(),
    {
        match self {
            Input::Text(s) => s.as_str().as_bytes().len(),
            Input::Binary(b) => b.len(),
            Input::Values(v) => v.len(),
        }
    }

    /// Whether the input is empty.
    pub fn is_empty(&self) -> (r: bool)
        ensures
            r == (self.len_spec() == 0),
    {
        self.len() == 0
    }
}

/// Result of a parse operation.
#[derive(Debug)]
pub enum ParseResult {
    /// Successful match with value and new position.
    Success(Value, usize),
    /// Failed to match.
    Failure,
}

impl ParseResult {
    /// Whether the parse matched.
    pub fn is_success(&self) -> (r: bool)
        ensures
            r == (self is Success),
    {
        match self {
            ParseResult::Success(_, _) => true,
            ParseResult::Failure => false,
        }
    }

    /// Whether the parse failed.
    pub fn is_failure(&self) -> (r: bool)
        ensures
            r == (self is Failure),
    {
        match self {
            ParseResult::Success(_, _) => false,
            ParseResult::Failure => true,
        }
    }
}


/// A grammar rule: a pattern with an optional semantic action (kept as
/// source text), a backtracking marker, and parameters for function-style
/// rules.
#[derive(Debug, PartialEq)]
pub struct Rule {
    /// The pattern to match.
    pub pattern: Pattern,
    /// Semantic action producing a value, as source text.
    pub action: Option<String>,
    /// Whether this rule backtracks (the `?` marker).
    pub backtracking: bool,
    /// Parameters of a function-style rule `name(p1, p2) = expr`.
    pub params: Vec<String>,
}

impl Rule {
    /// A plain rule: the pattern, no action, no backtracking, no parameters.
    pub fn new(pattern: Pattern) -> (r: Rule)
        ensures
            r.pattern == pattern,
            r.action is None,
            !r.backtracking,
            r.params@.len() == 0,
    {
        Rule { pattern, action: None, backtracking: false, params: Vec::new() }
    }

    /// A rule with a semantic action.
    pub fn with_action(pattern: Pattern, action: String) -> (r: Rule)
        ensures
            r.pattern == pattern,
            r.action == Some(action),
            !r.backtracking,
            r.params@.len() == 0,
    {
        Rule { pattern, action: Some(action), backtracking: false, params: Vec::new() }
    }

    /// This rule with the backtracking marker set as given.
    pub fn with_backtracking(self, backtracking: bool) -> (r: Rule)
        ensures
            r == (Rule { backtracking, ..self }),
    {
        Rule { backtracking, ..self }
    }

    /// A function-style rule `name(params) = body`: empty pattern, the body
    /// as action.
    pub fn function(params: Vec<String>, body: String) -> (r: Rule)
        ensures
            r.pattern == Pattern::Empty,
            r.action == Some(body),
            !r.backtracking,
            r.params == params,
    {
        Rule { pattern: Pattern::Empty, action: Some(body), backtracking: false, params }
    }

    /// Whether this is a function-style rule (it has parameters).
    pub fn is_function(&self) -> (r: bool)
        ensures
            r == (self.params@.len() > 0),
    {
        self.params.len() > 0
    }
}

/// The rule map of a list of named rules, later entries overriding earlier
/// ones.
pub open spec fn rules_map(rules: Seq<(String, Rule)>) -> Map<Seq<char>, Rule>
    decreases rules.len(),
{
    if rules.len() == 0 {
        Map::empty()
    } else {
        rules_map(rules.drop_last()).insert(rules.last().0@, rules.last().1)
    }
}

/// A grammar: a name, an optional parent (by name for registry lookup, or
/// directly), and named rules.
#[derive(Debug)]
pub struct Grammar {
    /// Fully qualified grammar name (e.g. `mud::commands`).
    pub name: String,
    /// Parent grammar name, for registry lookup.
    pub parent: Option<String>,
    /// Direct parent grammar.
    pub parent_grammar: Option<std::sync::Arc<Grammar>>,
    /// Named rules; a later rule of a name replaces an earlier one.
    pub rules: Vec<(String, Rule)>,
}

/// Mathematical model of a [`Grammar`]: its name, the name of its parent,
/// its direct parent, and its rules by name.
pub struct GrammarModel {
    pub name: Seq<char>,
    pub parent: Option<Seq<char>>,
    pub parent_grammar: Option<std::sync::Arc<Grammar>>,
    pub rules: Map<Seq<char>, Rule>,
}

impl View for Grammar {
    type V = GrammarModel;

    open spec fn view(&self) -> GrammarModel {
        GrammarModel {
            name: self.name@,
            parent: match self.parent {
                Some(p) => Some(p@),
                None => None,
            },
            parent_grammar: self.parent_grammar,
            rules: rules_map(self.rules@),
        }
    }
}

impl Grammar {
    /// An empty grammar with no parent.
    pub fn new(name: String) -> (r: Grammar)
        ensures
            r@.name == name@,
            r@.parent is None,
            r@.parent_grammar is None,
            r@.rules == Map::<Seq<char>, Rule>::empty(),
    {
        let r = Grammar { name, parent: None, parent_grammar: None, rules: Vec::new() };
        assert(r@.rules =~= Map::<Seq<char>, Rule>::empty());
        r
    }

    /// An empty grammar whose parent is named (for registry lookup).
    pub fn with_parent(name: String, parent: String) -> (r: Grammar)
        ensures
            r@.name == name@,
            r@.parent == Some(parent@),
            r@.parent_grammar is None,
            r@.rules == Map::<Seq<char>, Rule>::empty(),
    {
        let r = Grammar { name, parent: Some(parent), parent_grammar: None, rules: Vec::new() };
        assert(r@.rules =~= Map::<Seq<char>, Rule>::empty());
        r
    }

    /// An empty grammar with a direct parent.
    pub fn with_parent_grammar(name: String, parent: std::sync::Arc<Grammar>) -> (r: Grammar)
        ensures
            r@.name == name@,
            r@.parent is None,
            r@.parent_grammar == Some(parent),
            r@.rules == Map::<Seq<char>, Rule>::empty(),
    {
        let r = Grammar { name, parent: None, parent_grammar: Some(parent), rules: Vec::new() };
        assert(r@.rules =~= Map::<Seq<char>, Rule>::empty());
        r
    }

    /// Add (or replace) the rule of a name.
    pub fn add_rule(&mut self, name: String, rule: Rule)
        ensures
            final(self)@.name == old(self)@.name,
            final(self)@.parent == old(self)@.parent,
            final(self)@.parent_grammar == old(self)@.parent_grammar,
            final(self)@.rules == old(self)@.rules.insert(name@, rule),
    {
        let ghost before = self.rules@;
        let ghost key = name@;
        let ghost r0 = rule;
        self.rules.push((name, rule));
        assert(self.rules@.drop_last() =~= before);
        assert(rules_map(self.rules@) == rules_map(before).insert(key, r0));
    }

    /// The rule of a name, if any.
    pub fn rule(&self, name: &str) -> (r: Option<&Rule>)
        ensures
            match r {
                Some(rule) => self@.rules.contains_key(name@) && self@.rules[name@] == *rule,
                None => !self@.rules.contains_key(name@),
            },
    {
        let key = name.to_owned();
        let mut i = self.rules.len();
        assert(self.rules@.take(i as int) =~= self.rules@);
        while i > 0
            invariant
                i <= self.rules@.len(),
                key@ == name@,
                rules_map(self.rules@).contains_key(name@) == rules_map(self.rules@.take(i as int)).contains_key(name@),
                rules_map(self.rules@).contains_key(name@) ==> rules_map(self.rules@)[name@] == rules_map(
                    self.rules@.take(i as int),
                )[name@],
            decreases i,
        {
            let ghost t = self.rules@.take(i as int);
            assert(t.drop_last() =~= self.rules@.take(i - 1));
            if self.rules[i - 1].0 == key {
                return Some(&self.rules[i - 1].1);
            }
            i -= 1;
        }
        None
    }
}

/// The registry map of a list of grammars, a later grammar of a name
/// replacing an earlier one.
pub open spec fn grammars_map(gs: Seq<Grammar>) -> Map<Seq<char>, GrammarModel>
    decreases gs.len(),
{
    if gs.len() == 0 {
        Map::empty()
    } else {
        grammars_map(gs.drop_last()).insert(gs.last()@.name, gs.last()@)
    }
}

/// A registry of grammars by name.
#[derive(Debug)]
pub struct GrammarRegistry {
    grammars: Vec<Grammar>,
}

impl View for GrammarRegistry {
    type V = Map<Seq<char>, GrammarModel>;

    /// The grammars by name.
    closed spec fn view(&self) -> Map<Seq<char>, GrammarModel> {
        grammars_map(self.grammars@)
    }
}

/// Whether a rule is plain: no action, no backtracking, no parameters.
pub open spec fn plain_rule(r: Rule) -> bool {
    r.action is None && !r.backtracking && r.params@.len() == 0
}

/// Whether every rule of a grammar is plain.
pub open spec fn plain_rules(g: GrammarModel) -> bool {
    forall|n: Seq<char>| #[trigger] g.rules.contains_key(n) ==> plain_rule(g.rules[n])
}

/// Whether `p` is the character class of `ranges`.
pub open spec fn char_class(p: Pattern, ranges: Seq<CharRange>) -> bool {
    p matches Pattern::Char(CharPattern::Class(v)) && v@ == ranges
}

/// Whether `p` repeats the rule named `rule` as `kind` says.
pub open spec fn repeat_of(p: Pattern, rule: Seq<char>, kind: RepeatKind) -> bool {
    &&& p matches Pattern::Repeat { pattern: inner, kind: k }
    &&& k == kind
    &&& (*inner matches Pattern::ApplyRule(n) && n@ == rule)
}

/// Whether `p` matches values of the named type.
pub open spec fn match_type(p: Pattern, t: Seq<char>) -> bool {
    p matches Pattern::MatchType(n) && n@ == t
}

/// `base::parser`: text primitives.
pub open spec fn is_base_parser(g: GrammarModel) -> bool {
    &&& g.name == "base::parser"@
    &&& g.parent is None
    &&& g.parent_grammar is None
    &&& g.rules["any"@].pattern == Pattern::Any
    &&& char_class(g.rules["digit"@].pattern, seq![CharRange::Range('0', '9')])
    &&& char_class(g.rules["letter"@].pattern, seq![CharRange::Range('a', 'z'), CharRange::Range('A', 'Z')])
    &&& char_class(
        g.rules["space"@].pattern,
        seq![CharRange::Char(' '), CharRange::Char('\t'), CharRange::Char('\n'), CharRange::Char('\r')],
    )
    &&& repeat_of(g.rules["spaces"@].pattern, "space"@, RepeatKind::ZeroOrMore)
    &&& repeat_of(g.rules["word"@].pattern, "letter"@, RepeatKind::OneOrMore)
    &&& repeat_of(g.rules["integer"@].pattern, "digit"@, RepeatKind::OneOrMore)
    &&& g.rules["eof"@].pattern matches Pattern::Not(inner) && *inner == Pattern::Any
    &&& g.rules["end"@].pattern == Pattern::End
    &&& plain_rules(g)
    &&& g.rules.dom() == set![
        "any"@,
        "digit"@,
        "letter"@,
        "space"@,
        "spaces"@,
        "word"@,
        "integer"@,
        "eof"@,
        "end"@,
    ]
}

/// `base::binary`: byte primitives.
pub open spec fn is_base_binary(g: GrammarModel) -> bool {
    &&& g.name == "base::binary"@
    &&& g.parent is None
    &&& g.parent_grammar is None
    &&& g.rules["any"@].pattern == Pattern::Any
    &&& g.rules["byte"@].pattern == Pattern::Binary(BinaryPattern::UInt8)
    &&& g.rules["uint8"@].pattern == Pattern::Binary(BinaryPattern::UInt8)
    &&& g.rules["uint16be"@].pattern == Pattern::Binary(BinaryPattern::UInt16BE)
    &&& g.rules["uint16le"@].pattern == Pattern::Binary(BinaryPattern::UInt16LE)
    &&& g.rules["uint32be"@].pattern == Pattern::Binary(BinaryPattern::UInt32BE)
    &&& g.rules["uint32le"@].pattern == Pattern::Binary(BinaryPattern::UInt32LE)
    &&& g.rules["int8"@].pattern == Pattern::Binary(BinaryPattern::Int8)
    &&& g.rules["int16be"@].pattern == Pattern::Binary(BinaryPattern::Int16BE)
    &&& g.rules["int16le"@].pattern == Pattern::Binary(BinaryPattern::Int16LE)
    &&& g.rules["int32be"@].pattern == Pattern::Binary(BinaryPattern::Int32BE)
    &&& g.rules["int32le"@].pattern == Pattern::Binary(BinaryPattern::Int32LE)
    &&& g.rules["end"@].pattern == Pattern::End
    &&& plain_rules(g)
    &&& g.rules.dom() == set![
        "any"@,
        "byte"@,
        "uint8"@,
        "uint16be"@,
        "uint16le"@,
        "uint32be"@,
        "uint32le"@,
        "int8"@,
        "int16be"@,
        "int16le"@,
        "int32be"@,
        "int32le"@,
        "end"@,
    ]
}

/// `base::tree`: value primitives.
pub open spec fn is_base_tree(g: GrammarModel) -> bool {
    &&& g.name == "base::tree"@
    &&& g.parent is None
    &&& g.parent_grammar is None
    &&& g.rules["any"@].pattern == Pattern::Any
    &&& g.rules["null"@].pattern == Pattern::MatchValue(Value::Null)
    &&& match_type(g.rules["bool"@].pattern, "bool"@)
    &&& match_type(g.rules["int"@].pattern, "int"@)
    &&& match_type(g.rules["float"@].pattern, "float"@)
    &&& match_type(g.rules["string"@].pattern, "string"@)
    &&& match_type(g.rules["symbol"@].pattern, "symbol"@)
    &&& match_type(g.rules["list"@].pattern, "list"@)
    &&& match_type(g.rules["map"@].pattern, "map"@)
    &&& g.rules["end"@].pattern == Pattern::End
    &&& plain_rules(g)
    &&& g.rules.dom() == set![
        "any"@,
        "null"@,
        "bool"@,
        "int"@,
        "float"@,
        "string"@,
        "symbol"@,
        "list"@,
        "map"@,
        "end"@,
    ]
}

/// The built-in grammars: `base::parser`, `base::binary` and `base::tree`,
/// with their rule names; every built-in rule is plain.
pub open spec fn builtin_registry(r: Map<Seq<char>, GrammarModel>) -> bool {
    &&& r.dom() == set!["base::parser"@, "base::binary"@, "base::tree"@]
    &&& is_base_parser(r["base::parser"@])
    &&& is_base_binary(r["base::binary"@])
    &&& is_base_tree(r["base::tree"@])
}

/// Add a plain rule with the given pattern.
fn add_plain(g: &mut Grammar, name: &str, pattern: Pattern)
    ensures
        final(g)@.name == old(g)@.name,
        final(g)@.parent == old(g)@.parent,
        final(g)@.parent_grammar == old(g)@.parent_grammar,
        final(g)@.rules == old(g)@.rules.insert(name@, final(g)@.rules[name@]),
        final(g)@.rules[name@].pattern == pattern,
        plain_rule(final(g)@.rules[name@]),
        plain_rules(old(g)@) ==> plain_rules(final(g)@),
{
    g.add_rule(name.to_owned(), Rule::new(pattern));
}

/// Repetition of a named rule.
fn repeat_rule(rule: &str, kind: RepeatKind) -> (r: Pattern)
    ensures
        repeat_of(r, rule@, kind),
{
    Pattern::Repeat { pattern: Box::new(Pattern::ApplyRule(rule.to_owned())), kind }
}

/// The `base::parser` grammar.
fn base_parser() -> (g: Grammar)
    ensures
        is_base_parser(g@),
{
    let mut g = Grammar::new("base::parser".to_owned());
    proof {
        reveal_strlit("any");
        reveal_strlit("digit");
        reveal_strlit("letter");
        reveal_strlit("space");
        reveal_strlit("spaces");
        reveal_strlit("word");
        reveal_strlit("integer");
        reveal_strlit("eof");
        reveal_strlit("end");
        assert("any"@.len() != "digit"@.len());
        assert("any"@.len() != "letter"@.len());
        assert("any"@.len() != "space"@.len());
        assert("any"@.len() != "spaces"@.len());
        assert("any"@.len() != "word"@.len());
        assert("any"@.len() != "integer"@.len());
        assert("any"@[0] != "eof"@[0]);
        assert("any"@[0] != "end"@[0]);
        assert("digit"@.len() != "letter"@.len());
        assert("digit"@[0] != "space"@[0]);
        assert("digit"@.len() != "spaces"@.len());
        assert("digit"@.len() != "word"@.len());
        assert("digit"@.len() != "integer"@.len());
        assert("digit"@.len() != "eof"@.len());
        assert("digit"@.len() != "end"@.len());
        assert("letter"@.len() != "space"@.len());
        assert("letter"@[0] != "spaces"@[0]);
        assert("letter"@.len() != "word"@.len());
        assert("letter"@.len() != "integer"@.len());
        assert("letter"@.len() != "eof"@.len());
        assert("letter"@.len() != "end"@.len());
        assert("space"@.len() != "spaces"@.len());
        assert("space"@.len() != "word"@.len());
        assert("space"@.len() != "integer"@.len());
        assert("space"@.len() != "eof"@.len());
        assert("space"@.len() != "end"@.len());
        assert("spaces"@.len() != "word"@.len());
        assert("spaces"@.len() != "integer"@.len());
        assert("spaces"@.len() != "eof"@.len());
        assert("spaces"@.len() != "end"@.len());
        assert("word"@.len() != "integer"@.len());
        assert("word"@.len() != "eof"@.len());
        assert("word"@.len() != "end"@.len());
        assert("integer"@.len() != "eof"@.len());
        assert("integer"@.len() != "end"@.len());
        assert("eof"@[1] != "end"@[1]);
    }
    add_plain(&mut g, "any", Pattern::Any);
    let digits = vec![CharRange::Range('0', '9')];
    assert(digits@ =~= seq![CharRange::Range('0', '9')]);
    add_plain(&mut g, "digit", Pattern::Char(CharPattern::Class(digits)));
    let letters = vec![CharRange::Range('a', 'z'), CharRange::Range('A', 'Z')];
    assert(letters@ =~= seq![CharRange::Range('a', 'z'), CharRange::Range('A', 'Z')]);
    add_plain(&mut g, "letter", Pattern::Char(CharPattern::Class(letters)));
    let spaces = vec![CharRange::Char(' '), CharRange::Char('\t'), CharRange::Char('\n'), CharRange::Char('\r')];
    assert(spaces@ =~= seq![CharRange::Char(' '), CharRange::Char('\t'), CharRange::Char('\n'), CharRange::Char('\r')]);
    add_plain(&mut g, "space", Pattern::Char(CharPattern::Class(spaces)));
    add_plain(&mut g, "spaces", repeat_rule("space", RepeatKind::ZeroOrMore));
    add_plain(&mut g, "word", repeat_rule("letter", RepeatKind::OneOrMore));
    add_plain(&mut g, "integer", repeat_rule("digit", RepeatKind::OneOrMore));
    add_plain(&mut g, "eof", Pattern::Not(Box::new(Pattern::Any)));
    add_plain(&mut g, "end", Pattern::End);
    assert(g@.rules.dom() =~= set![
        "any"@,
        "digit"@,
        "letter"@,
        "space"@,
        "spaces"@,
        "word"@,
        "integer"@,
        "eof"@,
        "end"@,
    ]);
    g
}

/// The `base::binary` grammar.
fn base_binary() -> (g: Grammar)
    ensures
        is_base_binary(g@),
{
    let mut g = Grammar::new("base::binary".to_owned());
    proof {
        reveal_strlit("any");
        reveal_strlit("byte");
        reveal_strlit("uint8");
        reveal_strlit("uint16be");
        reveal_strlit("uint16le");
        reveal_strlit("uint32be");
        reveal_strlit("uint32le");
        reveal_strlit("int8");
        reveal_strlit("int16be");
        reveal_strlit("int16le");
        reveal_strlit("int32be");
        reveal_strlit("int32le");
        reveal_strlit("end");
        assert("any"@.len() != "byte"@.len());
        assert("any"@.len() != "uint8"@.len());
        assert("any"@.len() != "uint16be"@.len());
        assert("any"@.len() != "uint16le"@.len());
        assert("any"@.len() != "uint32be"@.len());
        assert("any"@.len() != "uint32le"@.len());
        assert("any"@.len() != "int8"@.len());
        assert("any"@.len() != "int16be"@.len());
        assert("any"@.len() != "int16le"@.len());
        assert("any"@.len() != "int32be"@.len());
        assert("any"@.len() != "int32le"@.len());
        assert("any"@[0] != "end"@[0]);
        assert("byte"@.len() != "uint8"@.len());
        assert("byte"@.len() != "uint16be"@.len());
        assert("byte"@.len() != "uint16le"@.len());
        assert("byte"@.len() != "uint32be"@.len());
        assert("byte"@.len() != "uint32le"@.len());
        assert("byte"@[0] != "int8"@[0]);
        assert("byte"@.len() != "int16be"@.len());
        assert("byte"@.len() != "int16le"@.len());
        assert("byte"@.len() != "int32be"@.len());
        assert("byte"@.len() != "int32le"@.len());
        assert("byte"@.len() != "end"@.len());
        assert("uint8"@.len() != "uint16be"@.len());
        assert("uint8"@.len() != "uint16le"@.len());
        assert("uint8"@.len() != "uint32be"@.len());
        assert("uint8"@.len() != "uint32le"@.len());
        assert("uint8"@.len() != "int8"@.len());
        assert("uint8"@.len() != "int16be"@.len());
        assert("uint8"@.len() != "int16le"@.len());
        assert("uint8"@.len() != "int32be"@.len());
        assert("uint8"@.len() != "int32le"@.len());
        assert("uint8"@.len() != "end"@.len());
        assert("uint16be"@[6] != "uint16le"@[6]);
        assert("uint16be"@[4] != "uint32be"@[4]);
        assert("uint16be"@[4] != "uint32le"@[4]);
        assert("uint16be"@.len() != "int8"@.len());
        assert("uint16be"@.len() != "int16be"@.len());
        assert("uint16be"@.len() != "int16le"@.len());
        assert("uint16be"@.len() != "int32be"@.len());
        assert("uint16be"@.len() != "int32le"@.len());
        assert("uint16be"@.len() != "end"@.len());
        assert("uint16le"@[4] != "uint32be"@[4]);
        assert("uint16le"@[4] != "uint32le"@[4]);
        assert("uint16le"@.len() != "int8"@.len());
        assert("uint16le"@.len() != "int16be"@.len());
        assert("uint16le"@.len() != "int16le"@.len());
        assert("uint16le"@.len() != "int32be"@.len());
        assert("uint16le"@.len() != "int32le"@.len());
        assert("uint16le"@.len() != "end"@.len());
        assert("uint32be"@[6] != "uint32le"@[6]);
        assert("uint32be"@.len() != "int8"@.len());
        assert("uint32be"@.len() != "int16be"@.len());
        assert("uint32be"@.len() != "int16le"@.len());
        assert("uint32be"@.len() != "int32be"@.len());
        assert("uint32be"@.len() != "int32le"@.len());
        assert("uint32be"@.len() != "end"@.len());
        assert("uint32le"@.len() != "int8"@.len());
        assert("uint32le"@.len() != "int16be"@.len());
        assert("uint32le"@.len() != "int16le"@.len());
        assert("uint32le"@.len() != "int32be"@.len());
        assert("uint32le"@.len() != "int32le"@.len());
        assert("uint32le"@.len() != "end"@.len());
        assert("int8"@.len() != "int16be"@.len());
        assert("int8"@.len() != "int16le"@.len());
        assert("int8"@.len() != "int32be"@.len());
        assert("int8"@.len() != "int32le"@.len());
        assert("int8"@.len() != "end"@.len());
        assert("int16be"@[5] != "int16le"@[5]);
        assert("int16be"@[3] != "int32be"@[3]);
        assert("int16be"@[3] != "int32le"@[3]);
        assert("int16be"@.len() != "end"@.len());
        assert("int16le"@[3] != "int32be"@[3]);
        assert("int16le"@[3] != "int32le"@[3]);
        assert("int16le"@.len() != "end"@.len());
        assert("int32be"@[5] != "int32le"@[5]);
        assert("int32be"@.len() != "end"@.len());
        assert("int32le"@.len() != "end"@.len());
    }
    add_plain(&mut g, "any", Pattern::Any);
    add_plain(&mut g, "byte", Pattern::Binary(BinaryPattern::UInt8));
    add_plain(&mut g, "uint8", Pattern::Binary(BinaryPattern::UInt8));
    add_plain(&mut g, "uint16be", Pattern::Binary(BinaryPattern::UInt16BE));
    add_plain(&mut g, "uint16le", Pattern::Binary(BinaryPattern::UInt16LE));
    add_plain(&mut g, "uint32be", Pattern::Binary(BinaryPattern::UInt32BE));
    add_plain(&mut g, "uint32le", Pattern::Binary(BinaryPattern::UInt32LE));
    add_plain(&mut g, "int8", Pattern::Binary(BinaryPattern::Int8));
    add_plain(&mut g, "int16be", Pattern::Binary(BinaryPattern::Int16BE));
    add_plain(&mut g, "int16le", Pattern::Binary(BinaryPattern::Int16LE));
    add_plain(&mut g, "int32be", Pattern::Binary(BinaryPattern::Int32BE));
    add_plain(&mut g, "int32le", Pattern::Binary(BinaryPattern::Int32LE));
    add_plain(&mut g, "end", Pattern::End);
    assert(g@.rules.dom() =~= set![
        "any"@,
        "byte"@,
        "uint8"@,
        "uint16be"@,
        "uint16le"@,
        "uint32be"@,
        "uint32le"@,
        "int8"@,
        "int16be"@,
        "int16le"@,
        "int32be"@,
        "int32le"@,
        "end"@,
    ]);
    g
}

/// The `base::tree` grammar.
fn base_tree() -> (g: Grammar)
    ensures
        is_base_tree(g@),
{
    let mut g = Grammar::new("base::tree".to_owned());
    proof {
        reveal_strlit("any");
        reveal_strlit("null");
        reveal_strlit("bool");
        reveal_strlit("int");
        reveal_strlit("float");
        reveal_strlit("string");
        reveal_strlit("symbol");
        reveal_strlit("list");
        reveal_strlit("map");
        reveal_strlit("end");
        assert("any"@.len() != "null"@.len());
        assert("any"@.len() != "bool"@.len());
        assert("any"@[0] != "int"@[0]);
        assert("any"@.len() != "float"@.len());
        assert("any"@.len() != "string"@.len());
        assert("any"@.len() != "symbol"@.len());
        assert("any"@.len() != "list"@.len());
        assert("any"@[0] != "map"@[0]);
        assert("any"@[0] != "end"@[0]);
        assert("null"@[0] != "bool"@[0]);
        assert("null"@.len() != "int"@.len());
        assert("null"@.len() != "float"@.len());
        assert("null"@.len() != "string"@.len());
        assert("null"@.len() != "symbol"@.len());
        assert("null"@[0] != "list"@[0]);
        assert("null"@.len() != "map"@.len());
        assert("null"@.len() != "end"@.len());
        assert("bool"@.len() != "int"@.len());
        assert("bool"@.len() != "float"@.len());
        assert("bool"@.len() != "string"@.len());
        assert("bool"@.len() != "symbol"@.len());
        assert("bool"@[0] != "list"@[0]);
        assert("bool"@.len() != "map"@.len());
        assert("bool"@.len() != "end"@.len());
        assert("int"@.len() != "float"@.len());
        assert("int"@.len() != "string"@.len());
        assert("int"@.len() != "symbol"@.len());
        assert("int"@.len() != "list"@.len());
        assert("int"@[0] != "map"@[0]);
        assert("int"@[0] != "end"@[0]);
        assert("float"@.len() != "string"@.len());
        assert("float"@.len() != "symbol"@.len());
        assert("float"@.len() != "list"@.len());
        assert("float"@.len() != "map"@.len());
        assert("float"@.len() != "end"@.len());
        assert("string"@[1] != "symbol"@[1]);
        assert("string"@.len() != "list"@.len());
        assert("string"@.len() != "map"@.len());
        assert("string"@.len() != "end"@.len());
        assert("symbol"@.len() != "list"@.len());
        assert("symbol"@.len() != "map"@.len());
        assert("symbol"@.len() != "end"@.len());
        assert("list"@.len() != "map"@.len());
        assert("list"@.len() != "end"@.len());
        assert("map"@[0] != "end"@[0]);
    }
    add_plain(&mut g, "any", Pattern::Any);
    add_plain(&mut g, "null", Pattern::MatchValue(Value::Null));
    add_plain(&mut g, "bool", Pattern::MatchType("bool".to_owned()));
    add_plain(&mut g, "int", Pattern::MatchType("int".to_owned()));
    add_plain(&mut g, "float", Pattern::MatchType("float".to_owned()));
    add_plain(&mut g, "string", Pattern::MatchType("string".to_owned()));
    add_plain(&mut g, "symbol", Pattern::MatchType("symbol".to_owned()));
    add_plain(&mut g, "list", Pattern::MatchType("list".to_owned()));
    add_plain(&mut g, "map", Pattern::MatchType("map".to_owned()));
    add_plain(&mut g, "end", Pattern::End);
    assert(g@.rules.dom() =~= set![
        "any"@,
        "null"@,
        "bool"@,
        "int"@,
        "float"@,
        "string"@,
        "symbol"@,
        "list"@,
        "map"@,
        "end"@,
    ]);
    g
}

impl GrammarRegistry {
    /// A registry holding the built-in grammars (see [`builtin_registry`]).
    pub fn new() -> (r: GrammarRegistry)
        ensures
            builtin_registry(r@),
    {
        let mut registry = GrammarRegistry { grammars: Vec::new() };
        assert(registry@ =~= Map::<Seq<char>, GrammarModel>::empty());
        registry.register_builtins();
        assert(registry@.dom() =~= set!["base::parser"@, "base::binary"@, "base::tree"@]);
        registry
    }

    /// Add a grammar under its name, replacing any earlier one of that name.
    pub fn register(&mut self, grammar: Grammar)
        ensures
            final(self)@ == old(self)@.insert(grammar@.name, grammar@),
    {
        let ghost before = self.grammars@;
        let ghost m = grammar@;
        self.grammars.push(grammar);
        assert(self.grammars@.drop_last() =~= before);
        assert(grammars_map(self.grammars@) == grammars_map(before).insert(m.name, m));
    }

    /// The grammar of a name, if registered.
    pub fn get(&self, name: &str) -> (r: Option<&Grammar>)
        ensures
            match r {
                Some(g) => self@.contains_key(name@) && self@[name@] == g@,
                None => !self@.contains_key(name@),
            },
    {
        let key = name.to_owned();
        let mut i = self.grammars.len();
        assert(self.grammars@.take(i as int) =~= self.grammars@);
        while i > 0
            invariant
                i <= self.grammars@.len(),
                key@ == name@,
                grammars_map(self.grammars@).contains_key(name@) == grammars_map(self.grammars@.take(i as int)).contains_key(name@),
                grammars_map(self.grammars@).contains_key(name@) ==> grammars_map(self.grammars@)[name@] == grammars_map(
                    self.grammars@.take(i as int),
                )[name@],
            decreases i,
        {
            let ghost t = self.grammars@.take(i as int);
            assert(t.drop_last() =~= self.grammars@.take(i - 1));
            if self.grammars[i - 1].name == key {
                return Some(&self.grammars[i - 1]);
            }
            i -= 1;
        }
        None
    }

    /// Register the built-in grammars.
    fn register_builtins(&mut self)
        ensures
            final(self)@.dom() == old(self)@.dom().insert("base::parser"@).insert("base::binary"@).insert(
                "base::tree"@,
            ),
            is_base_parser(final(self)@["base::parser"@]),
            is_base_binary(final(self)@["base::binary"@]),
            is_base_tree(final(self)@["base::tree"@]),
    {
        proof {
            reveal_strlit("base::parser");
            reveal_strlit("base::binary");
            reveal_strlit("base::tree");
            assert("base::parser"@[6] != "base::binary"@[6]);
            assert("base::parser"@.len() != "base::tree"@.len());
            assert("base::binary"@ != "base::tree"@);
        }
        self.register(base_parser());
        self.register(base_binary());
        self.register(base_tree());
        assert(self@.dom() =~= old(self)@.dom().insert("base::parser"@).insert("base::binary"@).insert(
            "base::tree"@,
        ));
    }
}

} // verus!
