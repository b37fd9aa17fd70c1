use fmpl_core::grammar::incremental::{ParseNext, ParseState};
use fmpl_core::grammar::input::{
    BinaryInput, InputItem, MemoEntry, PegInput, StreamingInput, TextInput, ValueInput,
};
use fmpl_core::grammar::{Grammar, GrammarRegistry, Input, ParseResult, Rule};
use fmpl_core::pattern::{CharRange, Pattern};
use std::sync::Arc;
use fmpl_core::value::Value;

#[test]
fn test_text_input_basic() {
    let input = TextInput::new("hello");
    let pos = input.start();

    assert_eq!(input.index(&pos), 0);
    assert!(!input.is_at_end(&pos));

    let item = input.head(&pos).unwrap();
    assert_eq!(item.as_char(), Some('h'));

    let pos2 = input.tail(&pos);
    assert_eq!(input.index(&pos2), 1);

    let item2 = input.head(&pos2).unwrap();
    assert_eq!(item2.as_char(), Some('e'));
}

#[test]
fn test_text_input_unicode() {
    let input = TextInput::new("héllo");
    let pos = input.start();

    let item = input.head(&pos).unwrap();
    assert_eq!(item.as_char(), Some('h'));

    let pos2 = input.tail(&pos);
    let item2 = input.head(&pos2).unwrap();
    assert_eq!(item2.as_char(), Some('é'));

    assert_eq!(input.index(&pos2), 1);
    let pos3 = input.tail(&pos2);
    assert_eq!(input.index(&pos3), 3);
}

#[test]
fn test_text_input_text_from() {
    let input = TextInput::new("hello world");
    let pos = input.position_at(6);

    assert_eq!(input.text_from(&pos), Some("world"));
    assert!(input.starts_with(&pos, "wor"));
    assert!(!input.starts_with(&pos, "hel"));
}

#[test]
fn test_text_input_memoization() {
    let mut input = TextInput::new("test");
    let pos = input.start();
    let rule = "my_rule".to_string();

    assert!(input.get_memo(&pos, &rule).is_none());

    input.set_memo(&pos, rule.clone(), MemoEntry::InProgress);
    assert!(matches!(input.get_memo(&pos, &rule), Some(MemoEntry::InProgress)));

    input.set_memo(&pos, rule.clone(), MemoEntry::Done(Some(Value::Int(42)), 4));
    if let Some(MemoEntry::Done(Some(Value::Int(42)), 4)) = input.get_memo(&pos, &rule) {
        // OK
    } else {
        panic!("expected Done memo entry");
    }
}

#[test]
fn test_binary_input_basic() {
    let input = BinaryInput::new(vec![0x89, 0x50, 0x4E, 0x47]);
    let pos = input.start();

    assert_eq!(input.index(&pos), 0);
    let item = input.head(&pos).unwrap();
    assert_eq!(item.as_byte(), Some(0x89));

    let pos2 = input.tail(&pos);
    assert_eq!(input.index(&pos2), 1);
    let item2 = input.head(&pos2).unwrap();
    assert_eq!(item2.as_byte(), Some(0x50));
}

#[test]
fn test_binary_input_bytes_at() {
    let input = BinaryInput::new(vec![0x01, 0x02, 0x03, 0x04]);
    let pos = input.start();

    let bytes = input.bytes_at(&pos, 2).unwrap();
    assert_eq!(bytes, &[0x01, 0x02]);

    let pos2 = input.position_at(2);
    let bytes2 = input.bytes_at(&pos2, 2).unwrap();
    assert_eq!(bytes2, &[0x03, 0x04]);
}

#[test]
fn test_value_input_basic() {
    let input = ValueInput::new(vec![Value::Int(1), Value::Int(2), Value::Int(3)]);
    let pos = input.start();

    assert_eq!(input.index(&pos), 0);
    let item = input.head(&pos).unwrap();
    if let InputItem::Value(Value::Int(1)) = item {
        // OK
    } else {
        panic!("expected Value::Int(1)");
    }

    let pos2 = input.tail(&pos);
    assert_eq!(input.index(&pos2), 1);
}

#[test]
fn test_value_input_value_at() {
    let input = ValueInput::new(vec![Value::Int(42), Value::String("hello".to_string())]);
    let pos = input.start();

    assert_eq!(input.value_at(&pos), Some(&Value::Int(42)));

    let pos2 = input.tail(&pos);
    assert_eq!(input.value_at(&pos2), Some(&Value::String("hello".to_string())));
}

#[test]
fn test_streaming_input_from_values() {
    let input = StreamingInput::from_values(vec![Value::Int(1), Value::Int(2)]);
    let pos = input.start();

    assert_eq!(input.index(&pos), 0);
    let item = input.head(&pos).unwrap();
    if let InputItem::Value(Value::Int(1)) = item {
        // OK
    } else {
        panic!("expected Value::Int(1)");
    }

    let pos2 = input.tail(&pos);
    assert_eq!(input.index(&pos2), 1);

    let pos3 = input.tail(&pos2);
    assert!(input.is_at_end(&pos3));
}

#[test]
fn test_supports_patterns() {
    let text = TextInput::new("test");
    assert!(text.supports_text_patterns());
    assert!(text.supports_binary_patterns());
    assert!(!text.supports_value_patterns());

    let binary = BinaryInput::new(vec![0x00]);
    assert!(!binary.supports_text_patterns());
    assert!(binary.supports_binary_patterns());
    assert!(!binary.supports_value_patterns());

    let values = ValueInput::new(vec![Value::Int(1)]);
    assert!(!values.supports_text_patterns());
    assert!(!values.supports_binary_patterns());
    assert!(values.supports_value_patterns());

    let stream = StreamingInput::from_values(vec![Value::Int(1)]);
    assert!(!stream.supports_text_patterns());
    assert!(!stream.supports_binary_patterns());
    assert!(stream.supports_value_patterns());
}

#[test]
fn text_input_edges() {
    let input = TextInput::new("aé€😀");
    // byte offsets: a=0, é=1..3, €=3..6, 😀=6..10
    assert_eq!(input.tail(&0), 1);
    assert_eq!(input.tail(&1), 3);
    assert_eq!(input.tail(&3), 6);
    assert_eq!(input.tail(&6), 10);
    assert_eq!(input.tail(&10), 10);
    assert!(input.head(&10).is_none());
    assert!(input.is_at_end(&10));
    assert!(!input.is_at_end(&6));
    assert_eq!(input.text_from(&2), None);
    assert_eq!(input.text_from(&11), None);
    assert_eq!(input.text_from(&10), Some(""));
    assert_eq!(input.bytes_at(&1, 2).unwrap(), &[0xC3, 0xA9]);
    assert!(input.bytes_at(&9, 2).is_none());
    assert!(input.starts_with(&3, "€"));
    assert!(!input.starts_with(&3, "€😀x"));
    assert_eq!(input.value_at(&0), None);
    assert_eq!(input.text(), "aé€😀");
}

#[test]
fn memo_entries_are_per_position_and_rule() {
    let mut input = BinaryInput::new(vec![1, 2, 3]);
    input.set_memo(&0, "a".to_string(), MemoEntry::Done(None, 1));
    input.set_memo(&1, "a".to_string(), MemoEntry::InProgress);
    input.set_memo(&0, "b".to_string(), MemoEntry::Done(Some(Value::Int(7)), 2));
    assert!(matches!(input.get_memo(&0, &"a".to_string()), Some(MemoEntry::Done(None, 1))));
    assert!(matches!(input.get_memo(&1, &"a".to_string()), Some(MemoEntry::InProgress)));
    assert!(matches!(input.get_memo(&0, &"b".to_string()), Some(MemoEntry::Done(Some(Value::Int(7)), 2))));
    assert!(input.get_memo(&2, &"a".to_string()).is_none());
    assert_eq!(input.bytes(), &[1, 2, 3]);
    assert!(input.head(&3).is_none());
    assert!(input.bytes_at(&2, 2).is_none());
}

#[test]
fn input_item_conversions() {
    assert_eq!(InputItem::Char('x').to_value(), Value::String("x".to_string()));
    assert_eq!(InputItem::Byte(200).to_value(), Value::Int(200));
    assert_eq!(InputItem::Value(Value::Bool(true)).to_value(), Value::Bool(true));
    assert_eq!(InputItem::Char('A').as_byte(), Some(65));
    assert_eq!(InputItem::Char('é').as_byte(), None);
    assert_eq!(InputItem::Byte(3).as_char(), None);
    assert_eq!(InputItem::Value(Value::Null).as_value(), Some(&Value::Null));
    assert_eq!(InputItem::Byte(3).as_value(), None);
    assert_eq!(InputItem::Char('a').byte_len(), 1);
    assert_eq!(InputItem::Char('é').byte_len(), 2);
    assert_eq!(InputItem::Char('€').byte_len(), 3);
    assert_eq!(InputItem::Char('😀').byte_len(), 4);
    assert_eq!(InputItem::Byte(0).byte_len(), 1);
    assert_eq!(InputItem::Value(Value::Null).byte_len(), 1);
}

#[test]
fn input_constructors_and_lengths() {
    let t = Input::text("héllo");
    assert_eq!(t.len(), 6);
    assert!(!t.is_empty());
    assert!(Input::text("").is_empty());
    assert_eq!(Input::binary(vec![1, 2, 3]).len(), 3);
    assert_eq!(Input::values(vec![Value::Null]).len(), 1);
    let from_list = Input::from_value(Value::List(vec![Value::Int(1), Value::Int(2)]));
    assert_eq!(from_list.len(), 2);
    match from_list {
        Input::Values(v) => assert_eq!(v, vec![Value::Int(1), Value::Int(2)]),
        _ => panic!("expected values"),
    }
    let single = Input::from_value(Value::Int(9));
    match single {
        Input::Values(v) => assert_eq!(v, vec![Value::Int(9)]),
        _ => panic!("expected values"),
    }
}

#[test]
fn parse_result_predicates() {
    let ok = ParseResult::Success(Value::Null, 3);
    assert!(ok.is_success());
    assert!(!ok.is_failure());
    let bad = ParseResult::Failure;
    assert!(bad.is_failure());
    assert!(!bad.is_success());
}

#[test]
fn test_parse_next_variants() {
    let match_result: ParseNext = ParseNext::Match(Value::Int(42));
    assert!(matches!(match_result, ParseNext::Match(Value::Int(42))));

    let need_input: ParseNext = ParseNext::NeedInput(ParseState::default());
    assert!(matches!(need_input, ParseNext::NeedInput(_)));

    let end: ParseNext = ParseNext::End;
    assert!(matches!(end, ParseNext::End));

    let st = ParseState::default();
    assert_eq!(st.position_index, 0);
    assert!(st.rule_stack.is_empty() && st.bindings.is_empty());
}

#[test]
fn test_char_range_single() {
    let range = CharRange::Char('a');
    assert!(range.matches('a'));
    assert!(!range.matches('b'));
}

#[test]
fn test_char_range_range() {
    let range = CharRange::Range('a', 'z');
    assert!(range.matches('a'));
    assert!(range.matches('m'));
    assert!(range.matches('z'));
    assert!(!range.matches('A'));
    assert!(!range.matches('0'));
}

#[test]
fn test_grammar_registry_builtins() {
    let registry = GrammarRegistry::new();
    let base = registry.get("base::parser").expect("base::parser should exist");
    assert!(base.rule("digit").is_some());
    assert!(base.rule("letter").is_some());
    assert!(base.rule("spaces").is_some());
}

#[test]
fn test_grammar_with_arc_parent() {
    let mut parent = Grammar::new("parent".to_string());
    parent.add_rule("foo".to_string(), Rule::new(Pattern::StringLiteral("foo".to_string())));
    let parent = Arc::new(parent);

    let mut child = Grammar::with_parent_grammar("child".to_string(), parent.clone());
    child.add_rule("bar".to_string(), Rule::new(Pattern::StringLiteral("bar".to_string())));

    assert!(child.parent_grammar.is_some());
    assert_eq!(child.parent_grammar.as_ref().unwrap().name, "parent");
}

#[test]
fn builtin_grammars_and_registry_lookup() {
    let mut registry = GrammarRegistry::new();
    let binary = registry.get("base::binary").unwrap();
    assert!(binary.rule("uint32le").is_some());
    assert!(binary.rule("digit").is_none());
    let tree = registry.get("base::tree").unwrap();
    assert_eq!(tree.rule("null").unwrap().pattern, Pattern::MatchValue(Value::Null));
    assert_eq!(tree.rule("map").unwrap().pattern, Pattern::MatchType("map".to_string()));
    assert!(registry.get("mud::commands").is_none());

    let mut g = Grammar::with_parent("mud::commands".to_string(), "base::parser".to_string());
    g.add_rule("verb".to_string(), Rule::with_action(Pattern::ApplyRule("word".to_string()), "v".to_string()));
    g.add_rule("verb".to_string(), Rule::new(Pattern::Any).with_backtracking(true));
    registry.register(g);
    let got = registry.get("mud::commands").unwrap();
    assert_eq!(got.parent, Some("base::parser".to_string()));
    let verb = got.rule("verb").unwrap();
    assert_eq!(verb.pattern, Pattern::Any);
    assert!(verb.backtracking);
    assert!(verb.action.is_none());

    let f = Rule::function(vec!["a".to_string()], "a + 1".to_string());
    assert!(f.is_function());
    assert_eq!(f.pattern, Pattern::Empty);
    assert!(!Rule::new(Pattern::Any).is_function());
}
