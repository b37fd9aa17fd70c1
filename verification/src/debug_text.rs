//! The debug text of values: `Null`, `Bool(true)`, `Int(-3)`,
//! `String("a\"b")`, `Symbol("x")`, `List([Int(1), Null])` and
//! `Map({"k": Int(1)})`, maps listing their entries in order. Text is
//! quoted with `"` and `\` escaped, `\n`, `\r`, `\t` and `\0` written as
//! such, and other ASCII control characters as `\u{..}` in hex; every other
//! character stands as itself.

use vstd::prelude::*;
use vstd::string::StringExecFns;
use vstd::std_specs::iter::IteratorSpec;
use crate::value::Value;

verus! {

broadcast use {
    vstd::std_specs::vec::axiom_vec_decreases_to_view,
    vstd::seq::axiom_seq_index_decreases,
    vstd::seq::axiom_seq_subrange_decreases,
    vstd::string::group_string_axioms,
    vstd::string::next_postcondition,
};

/// Calls `ToString::to_string` on a `char`; claimed to give the string
/// holding just that character.
#[verifier::external_body]
pub(crate) fn char_to_string(c: char) -> (s: String)
    ensures
        s@ == seq![c],
{
    c.to_string()
}

/// The decimal digit `d` (0 to 9).
pub open spec fn digit_char(d: int) -> char {
    if d == 0 {
        '0'
    } else if d == 1 {
        '1'
    } else if d == 2 {
        '2'
    } else if d == 3 {
        '3'
    } else if d == 4 {
        '4'
    } else if d == 5 {
        '5'
    } else if d == 6 {
        '6'
    } else if d == 7 {
        '7'
    } else if d == 8 {
        '8'
    } else {
        '9'
    }
}

/// The hexadecimal digit `d` (0 to 15), lower case.
pub open spec fn hex_char(d: int) -> char {
    if d < 10 {
        digit_char(d)
    } else if d == 10 {
        'a'
    } else if d == 11 {
        'b'
    } else if d == 12 {
        'c'
    } else if d == 13 {
        'd'
    } else if d == 14 {
        'e'
    } else {
        'f'
    }
}

/// The decimal digits of `n`.
pub open spec fn nat_decimal(n: nat) -> Seq<char>
    decreases n,
{
    if n < 10 {
        seq![digit_char(n as int)]
    } else {
        nat_decimal(n / 10) + seq![digit_char((n % 10) as int)]
    }
}

/// The decimal text of `n`, with a `-` when negative.
pub open spec fn int_decimal(n: int) -> Seq<char> {
    if n < 0 {
        seq!['-'] + nat_decimal((-n) as nat)
    } else {
        nat_decimal(n as nat)
    }
}

/// How a character is written inside quotes.
pub open spec fn escape_char(c: char) -> Seq<char> {
    if c == '"' {
        seq!['\\', '"']
    } else if c == '\\' {
        seq!['\\', '\\']
    } else if c == '\n' {
        seq!['\\', 'n']
    } else if c == '\r' {
        seq!['\\', 'r']
    } else if c == '\t' {
        seq!['\\', 't']
    } else if c == '\0' {
        seq!['\\', '0']
    } else if (c as u32) < 0x20 || (c as u32) == 0x7f {
        let v = c as u32 as int;
        seq!['\\', 'u', '{'] + (if v < 16 {
            seq![hex_char(v)]
        } else {
            seq![hex_char(v / 16), hex_char(v % 16)]
        }) + seq!['}']
    } else {
        seq![c]
    }
}

/// A text with each character escaped.
pub open spec fn escaped(s: Seq<char>) -> Seq<char>
    decreases s.len(),
{
    if s.len() == 0 {
        Seq::empty()
    } else {
        escaped(s.drop_last()) + escape_char(s.last())
    }
}

/// A text in quotes.
pub open spec fn quoted(s: Seq<char>) -> Seq<char> {
    seq!['"'] + escaped(s) + seq!['"']
}

/// A character that is neither an ASCII control character nor `DEL`.
pub open spec fn is_printable(c: char) -> bool {
    (c as u32) >= 0x20 && (c as u32) != 0x7f
}

/// Every hexadecimal digit is printable.
pub proof fn lemma_hex_char_printable(d: int)
    ensures
        is_printable(hex_char(d)),
{
}

/// A character comes out of escaping as printable characters only: a
/// control character is always written as a backslash escape.
pub proof fn lemma_escape_char_printable(c: char)
    ensures
        forall|k: int| 0 <= k < escape_char(c).len() ==> is_printable(#[trigger] escape_char(c)[k]),
{
    if (c as u32) < 0x20 || (c as u32) == 0x7f {
        let v = c as u32 as int;
        lemma_hex_char_printable(v);
        lemma_hex_char_printable(v / 16);
        lemma_hex_char_printable(v % 16);
    }
}

/// Escaped text holds no control characters: every character of it is at
/// least `0x20` and none is `DEL`, whatever the text escaped.
pub proof fn lemma_escaped_no_control(s: Seq<char>)
    ensures
        forall|k: int| 0 <= k < escaped(s).len() ==> is_printable(#[trigger] escaped(s)[k]),
    decreases s.len(),
{
    if s.len() > 0 {
        lemma_escaped_no_control(s.drop_last());
        lemma_escape_char_printable(s.last());
        let a = escaped(s.drop_last());
        let b = escape_char(s.last());
        assert forall|k: int| 0 <= k < escaped(s).len() implies is_printable(#[trigger] escaped(s)[k]) by {
            if k < a.len() {
                assert(escaped(s)[k] == a[k]);
            } else {
                assert(escaped(s)[k] == b[k - a.len()]);
            }
        }
    }
}

/// Quoted text holds no control characters either.
pub proof fn lemma_quoted_no_control(s: Seq<char>)
    ensures
        forall|k: int| 0 <= k < quoted(s).len() ==> is_printable(#[trigger] quoted(s)[k]),
{
    lemma_escaped_no_control(s);
    let e = escaped(s);
    assert forall|k: int| 0 <= k < quoted(s).len() implies is_printable(#[trigger] quoted(s)[k]) by {
        if k == 0 || k == e.len() + 1 {
        } else {
            assert(quoted(s)[k] == e[k - 1]);
        }
    }
}

/// The debug text of a value.
pub open spec fn debug_spec(v: Value) -> Seq<char>
    decreases v,
{
    match v {
        Value::Null => "Null"@,
        Value::Bool(b) => if b {
            "Bool(true)"@
        } else {
            "Bool(false)"@
        },
        Value::Int(n) => "Int("@ + int_decimal(n as int) + ")"@,
        Value::String(s) => "String("@ + quoted(s@) + ")"@,
        Value::Symbol(s) => "Symbol("@ + quoted(s@) + ")"@,
        Value::List(items) => "List(["@ + items_debug(items@) + "])"@,
        Value::Dict(entries) => "Map({"@ + entries_debug(entries@) + "})"@,
    }
}

/// The debug texts of values, separated by `, `.
pub open spec fn items_debug(s: Seq<Value>) -> Seq<char>
    decreases s,
{
    if s.len() == 0 {
        Seq::empty()
    } else if s.len() == 1 {
        debug_spec(s[0])
    } else {
        items_debug(s.drop_last()) + ", "@ + debug_spec(s.last())
    }
}

/// Map entries as `"key": value`, separated by `, `.
pub open spec fn entries_debug(s: Seq<(String, Value)>) -> Seq<char>
    decreases s,
{
    if s.len() == 0 {
        Seq::empty()
    } else if s.len() == 1 {
        quoted(s[0].0@) + ": "@ + debug_spec(s[0].1)
    } else {
        entries_debug(s.drop_last()) + ", "@ + quoted(s.last().0@) + ": "@ + debug_spec(s.last().1)
    }
}

/// Append a character.
fn push_char(out: &mut String, c: char)
    ensures
        final(out)@ == old(out)@ + seq![c],
{
    let t = char_to_string(c);
    out.append(t.as_str());
}

/// The decimal digit `d`.
fn digit(d: u64) -> (c: char)
    requires
        d < 10,
    ensures
        c == digit_char(d as int),
{
    if d == 0 {
        '0'
    } else if d == 1 {
        '1'
    } else if d == 2 {
        '2'
    } else if d == 3 {
        '3'
    } else if d == 4 {
        '4'
    } else if d == 5 {
        '5'
    } else if d == 6 {
        '6'
    } else if d == 7 {
        '7'
    } else if d == 8 {
        '8'
    } else {
        '9'
    }
}

/// The hexadecimal digit `d`.
fn hex_digit(d: u32) -> (c: char)
    requires
        d < 16,
    ensures
        c == hex_char(d as int),
{
    if d < 10 {
        digit(d as u64)
    } else if d == 10 {
        'a'
    } else if d == 11 {
        'b'
    } else if d == 12 {
        'c'
    } else if d == 13 {
        'd'
    } else if d == 14 {
        'e'
    } else {
        'f'
    }
}

/// Append the decimal digits of `n`.
fn write_nat(out: &mut String, n: u64)
    ensures
        final(out)@ == old(out)@ + nat_decimal(n as nat),
    decreases n,
{
    if n >= 10 {
        write_nat(out, n / 10);
    }
    push_char(out, digit(n % 10));
    assert(final(out)@ =~= old(out)@ + nat_decimal(n as nat));
}

/// Append the decimal text of `n`.
fn write_int(out: &mut String, n: i64)
    ensures
        final(out)@ == old(out)@ + int_decimal(n as int),
{
    if n < 0 {
        out.append("-");
        proof {
            reveal_strlit("-");
        }
        let m: u64 = if n == i64::MIN {
            9223372036854775808
        } else {
            (-n) as u64
        };
        write_nat(out, m);
        assert(final(out)@ =~= old(out)@ + int_decimal(n as int));
    } else {
        write_nat(out, n as u64);
    }
}

/// Append a character as written inside quotes.
fn write_escaped_char(out: &mut String, c: char)
    ensures
        final(out)@ == old(out)@ + escape_char(c),
{
    let u = c as u32;
    if c == '"' {
        push_char(out, '\\');
        push_char(out, '"');
    } else if c == '\\' {
        push_char(out, '\\');
        push_char(out, '\\');
    } else if c == '\n' {
        push_char(out, '\\');
        push_char(out, 'n');
    } else if c == '\r' {
        push_char(out, '\\');
        push_char(out, 'r');
    } else if c == '\t' {
        push_char(out, '\\');
        push_char(out, 't');
    } else if c == '\0' {
        push_char(out, '\\');
        push_char(out, '0');
    } else if u < 0x20 || u == 0x7f {
        push_char(out, '\\');
        push_char(out, 'u');
        push_char(out, '{');
        if u < 16 {
            push_char(out, hex_digit(u));
        } else {
            push_char(out, hex_digit(u / 16));
            push_char(out, hex_digit(u % 16));
        }
        push_char(out, '}');
    } else {
        push_char(out, c);
    }
    assert(final(out)@ =~= old(out)@ + escape_char(c));
}

/// Append a text in quotes.
fn write_quoted(out: &mut String, s: &str)
    ensures
        final(out)@ == old(out)@ + quoted(s@),
{
    let ghost start = out@;
    push_char(out, '"');
    let mut it = s.chars();
    let ghost mut n: int = 0;
    assert(s@.skip(0) =~= s@);
    assert(s@.take(0) =~= Seq::<char>::empty());
    loop
        invariant_except_break
            it.remaining() == s@.skip(n),
            it.obeys_prophetic_iter_laws(),
        invariant
            0 <= n <= s@.len(),
            out@ == start + seq!['"'] + escaped(s@.take(n)),
        ensures
            out@ == start + seq!['"'] + escaped(s@),
        decreases s@.len() - n,
    {
        match it.next() {
            Some(c) => {
                proof {
                    assert(s@.take(n + 1).drop_last() =~= s@.take(n));
                    assert(s@.take(n + 1).last() == c);
                }
                write_escaped_char(out, c);
                proof {
                    n = n + 1;
                }
            },
            None => {
                assert(s@.take(n) =~= s@);
                break;
            },
        }
    }
    push_char(out, '"');
    assert(out@ =~= start + quoted(s@));
}

/// Append the debug text of a value.
fn write_debug(out: &mut String, v: &Value)
    ensures
        final(out)@ == old(out)@ + debug_spec(*v),
    decreases v,
{
    let ghost start = out@;
    match v {
        Value::Null => {
            out.append("Null");
        },
        Value::Bool(b) => {
            if *b {
                out.append("Bool(true)");
            } else {
                out.append("Bool(false)");
            }
        },
        Value::Int(n) => {
            out.append("Int(");
            write_int(out, *n);
            out.append(")");
        },
        Value::String(s) => {
            out.append("String(");
            write_quoted(out, s.as_str());
            out.append(")");
        },
        Value::Symbol(s) => {
            out.append("Symbol(");
            write_quoted(out, s.as_str());
            out.append(")");
        },
        Value::List(items) => {
            out.append("List([");
            let ghost mid = out@;
            assert forall|j: int| 0 <= j < items@.len() implies decreases_to!(*v => #[trigger] items@[j]) by {
                assert(decreases_to!(*v => *items));
                assert(decreases_to!(*items => items@));
                assert(decreases_to!(items@ => items@[j]));
            }
            let mut i: usize = 0;
            assert(items@.take(0) =~= Seq::<Value>::empty());
            while i < items.len()
                invariant
                    forall|j: int| 0 <= j < items@.len() ==> decreases_to!(*v => #[trigger] items@[j]),
                    i <= items@.len(),
                    out@ == mid + items_debug(items@.take(i as int)),
                decreases items@.len() - i,
            {
                let ghost before = out@;
                if i > 0 {
                    out.append(", ");
                }
                write_debug(out, &items[i]);
                proof {
                    let t = items@.take(i + 1);
                    assert(t.drop_last() =~= items@.take(i as int));
                    assert(t.last() == items@[i as int]);
                    if i == 0 {
                        assert(t.len() == 1 && t[0] == items@[0]);
                    }
                }
                i += 1;
            }
            assert(items@.take(items@.len() as int) =~= items@);
            out.append("])");
        },
        Value::Dict(entries) => {
            out.append("Map({");
            let ghost mid = out@;
            assert forall|j: int| 0 <= j < entries@.len() implies decreases_to!(*v => #[trigger] entries@[j].1) by {
                assert(decreases_to!(*v => *entries));
                assert(decreases_to!(*entries => entries@));
                assert(decreases_to!(entries@ => entries@[j]));
                assert(decreases_to!(entries@[j] => entries@[j].1));
            }
            let mut i: usize = 0;
            assert(entries@.take(0) =~= Seq::<(String, Value)>::empty());
            while i < entries.len()
                invariant
                    forall|j: int| 0 <= j < entries@.len() ==> decreases_to!(*v => #[trigger] entries@[j].1),
                    i <= entries@.len(),
                    out@ == mid + entries_debug(entries@.take(i as int)),
                decreases entries@.len() - i,
            {
                if i > 0 {
                    out.append(", ");
                }
                write_quoted(out, entries[i].0.as_str());
                out.append(": ");
                write_debug(out, &entries[i].1);
                proof {
                    let t = entries@.take(i + 1);
                    assert(t.drop_last() =~= entries@.take(i as int));
                    assert(t.last() == entries@[i as int]);
                    if i == 0 {
                        assert(t.len() == 1 && t[0] == entries@[0]);
                    }
                }
                i += 1;
            }
            assert(entries@.take(entries@.len() as int) =~= entries@);
            out.append("})");
        },
    }
    assert(out@ =~= start + debug_spec(*v));
}

/// The debug text of a value (see the module documentation).
pub fn debug_text(v: &Value) -> (r: String)
    ensures
        r@ == debug_spec(*v),
{
    let mut out = String::new();
    write_debug(&mut out, v);
    assert(out@ =~= debug_spec(*v));
    out
}

} // verus!
