//! Inputs for PEG parsing: text (by character), binary (by byte) and value
//! streams, each with a packrat memo table.
//!
//! Every input addresses its items by a `usize` position: a byte offset for
//! text, an index for bytes and values.

use vstd::prelude::*;
use vstd::utf8::*;
use crate::debug_text::char_to_string;
use crate::value::{Datum, Value};
use super::datums;

verus! {

/// Item read from an input: a character, a byte or a value.
#[derive(Debug)]
pub enum InputItem {
    /// A character from text input.
    Char(char),
    /// A byte from binary input.
    Byte(u8),
    /// A value from value or stream input.
    Value(Value),
}

/// Mathematical model of an [`InputItem`].
pub enum ItemModel {
    Char(char),
    Byte(u8),
    Value(Datum),
}

/// The number of bytes of the UTF-8 encoding of `c`.
pub open spec fn utf8_width(c: char) -> nat {
    encode_scalar(c as u32).len()
}

/// The byte length of the UTF-8 encoding of `c` (as `char::len_utf8`).
pub fn char_len_utf8(c: char) -> (r: usize)
    ensures
        r == utf8_width(c),
        1 <= r <= 4,
{
    proof {
        char_is_scalar(c);
    }
    let u = c as u32;
    if u < 0x80 {
        1
    } else if u < 0x800 {
        2
    } else if u < 0x10000 {
        3
    } else {
        4
    }
}

impl InputItem {
    /// The model of this item.
    pub open spec fn model(self) -> ItemModel {
        match self {
            InputItem::Char(c) => ItemModel::Char(c),
            InputItem::Byte(b) => ItemModel::Byte(b),
            InputItem::Value(v) => ItemModel::Value(v.datum()),
        }
    }

    /// The value an item stands for in a parse result: a one-character
    /// string, a byte as an integer, or the value itself.
    pub open spec fn value_datum(self) -> Datum {
        match self {
            InputItem::Char(c) => Datum::Str(seq![c]),
            InputItem::Byte(b) => Datum::Int(b as int),
            InputItem::Value(v) => v.datum(),
        }
    }

    /// Convert to a value for use in parse results.
    pub fn to_value(&self) -> (r: Value)
        ensures
            r.datum() == self.value_datum(),
    {
        match self {
            InputItem::Char(c) => Value::String(char_to_string(*c)),
            InputItem::Byte(b) => Value::Int(*b as i64),
            InputItem::Value(v) => v.deep_clone(),
        }
    }

    /// The character, if this is a character.
    pub fn as_char(&self) -> (r: Option<char>)
        ensures
            r == (match self {
                InputItem::Char(c) => Some(*c),
                _ => None::<char>,
            }),
    {
        match self {
            InputItem::Char(c) => Some(*c),
            _ => None,
        }
    }

    /// The byte, if this is a byte or an ASCII character.
    pub fn as_byte(&self) -> (r: Option<u8>)
        ensures
            r == (match self {
                InputItem::Byte(b) => Some(*b),
                InputItem::Char(c) => if (*c as u32) < 0x80 {
                    Some((*c as u32) as u8)
                } else {
                    None::<u8>
                },
                _ => None::<u8>,
            }),
    {
        match self {
            InputItem::Byte(b) => Some(*b),
            InputItem::Char(c) => {
                let u = *c as u32;
                if u < 0x80 {
                    Some(u as u8)
                } else {
                    None
                }
            },
            _ => None,
        }
    }

    /// The value, if this is a value.
    pub fn as_value(&self) -> (r: Option<&Value>)
        ensures
            r == (match self {
                InputItem::Value(v) => Some(v),
                _ => None::<&Value>,
            }),
    {
        match self {
            InputItem::Value(v) => Some(v),
            _ => None,
        }
    }

    /// How many positions consuming this item advances: the UTF-8 length of
    /// a character, one for a byte or a value.
    pub fn byte_len(&self) -> (r: usize)
        ensures
            r == (match self {
                InputItem::Char(c) => utf8_width(*c),
                _ => 1,
            }),
    {
        match self {
            InputItem::Char(c) => char_len_utf8(*c),
            _ => 1,
        }
    }
}

/// Memoization entry for packrat parsing.
#[derive(Debug)]
pub enum MemoEntry {
    /// Parsing in progress (for left recursion detection).
    InProgress,
    /// Completed with optional value and end position index.
    Done(Option<Value>, usize),
}

/// Mathematical model of a [`MemoEntry`].
pub enum MemoModel {
    InProgress,
    Done(Option<Datum>, int),
}

impl MemoEntry {
    /// The model of this entry.
    pub open spec fn model(self) -> MemoModel {
        match self {
            MemoEntry::InProgress => MemoModel::InProgress,
            MemoEntry::Done(v, end) => MemoModel::Done(
                match v {
                    Some(x) => Some(x.datum()),
                    None => None,
                },
                end as int,
            ),
        }
    }

    /// A copy of this entry with the same model.
    pub fn deep_clone(&self) -> (r: MemoEntry)
        ensures
            r.model() == self.model(),
    {
        match self {
            MemoEntry::InProgress => MemoEntry::InProgress,
            MemoEntry::Done(Some(v), end) => MemoEntry::Done(Some(v.deep_clone()), *end),
            MemoEntry::Done(None, end) => MemoEntry::Done(None, *end),
        }
    }
}

/// The memo entry recorded for `rule` at `pos`: the latest one written.
pub open spec fn memo_lookup(entries: Seq<(usize, String, MemoEntry)>, pos: int, rule: Seq<char>) -> Option<MemoModel>
    decreases entries.len(),
{
    if entries.len() == 0 {
        None
    } else if entries.last().0 == pos && entries.last().1@ == rule {
        Some(entries.last().2.model())
    } else {
        memo_lookup(entries.drop_last(), pos, rule)
    }
}

/// Reading the memo right after recording an entry for a rule at a
/// position gives that entry back; what is recorded for other rules or
/// positions stays as it was.
pub proof fn lemma_memo_read_after_write(
    entries: Seq<(usize, String, MemoEntry)>,
    e: (usize, String, MemoEntry),
    pos: int,
    rule: Seq<char>,
)
    ensures
        memo_lookup(entries.push(e), pos, rule) == if pos == e.0 && rule == e.1@ {
            Some(e.2.model())
        } else {
            memo_lookup(entries, pos, rule)
        },
{
    assert(entries.push(e).drop_last() =~= entries);
}

/// A packrat memo table: which rule gave what at which position.
#[derive(Debug)]
pub struct MemoTable {
    entries: Vec<(usize, String, MemoEntry)>,
}

impl MemoTable {
    /// The entry recorded for `rule` at `pos`, if any.
    pub closed spec fn lookup(&self, pos: int, rule: Seq<char>) -> Option<MemoModel> {
        memo_lookup(self.entries@, pos, rule)
    }

    /// An empty table.
    pub fn new() -> (r: MemoTable)
        ensures
            forall|p: int, rule: Seq<char>| #[trigger] r.lookup(p, rule) is None,
    {
        MemoTable { entries: Vec::new() }
    }

    /// The entry recorded for `rule` at `pos`.
    pub fn get(&self, pos: usize, rule: &String) -> (r: Option<MemoEntry>)
        ensures
            match r {
                Some(e) => self.lookup(pos as int, rule@) == Some(e.model()),
                None => self.lookup(pos as int, rule@) is None,
            },
    {
        let mut i = self.entries.len();
        assert(self.entries@.take(i as int) =~= self.entries@);
        while i > 0
            invariant
                i <= self.entries@.len(),
                memo_lookup(self.entries@, pos as int, rule@) == memo_lookup(
                    self.entries@.take(i as int),
                    pos as int,
                    rule@,
                ),
            decreases i,
        {
            let ghost s = self.entries@.take(i as int);
            assert(s.drop_last() =~= self.entries@.take(i - 1));
            let e = &self.entries[i - 1];
            if e.0 == pos && e.1 == *rule {
                return Some(e.2.deep_clone());
            }
            i -= 1;
        }
        None
    }

    /// Record `entry` for `rule` at `pos`, replacing any earlier one.
    pub fn set(&mut self, pos: usize, rule: String, entry: MemoEntry)
        ensures
            forall|p: int, r: Seq<char>| #[trigger]
                final(self).lookup(p, r) == if p == pos && r == rule@ {
                    Some(entry.model())
                } else {
                    old(self).lookup(p, r)
                },
    {
        let ghost before = self.entries@;
        let ghost rule_view = rule@;
        let ghost model = entry.model();
        self.entries.push((pos, rule, entry));
        assert forall|p: int, r: Seq<char>| #[trigger]
            self.lookup(p, r) == if p == pos && r == rule_view {
                Some(model)
            } else {
                memo_lookup(before, p, r)
            } by {
            lemma_memo_read_after_write(before, self.entries@.last(), p, r);
            assert(before.push(self.entries@.last()) =~= self.entries@);
        }
    }
}

/// Mathematical model of what a [`PegInput`] reads.
pub enum SourceModel {
    /// Text, read character by character at byte offsets.
    Text(Seq<char>),
    /// Bytes, read one at a time.
    Binary(Seq<u8>),
    /// Values held by the input, read one at a time.
    Values(Seq<Datum>),
    /// Values of a stream, read one at a time.
    Stream(Seq<Datum>),
}

/// The text after byte offset `pos` of `chars`.
pub open spec fn text_after(chars: Seq<char>, pos: int) -> Seq<char> {
    let bytes = encode_utf8(chars);
    decode_utf8(bytes.subrange(pos, bytes.len() as int))
}

/// The number of positions of an input: UTF-8 bytes of text, bytes, or
/// values.
pub open spec fn source_len(m: SourceModel) -> nat {
    match m {
        SourceModel::Text(cs) => encode_utf8(cs).len(),
        SourceModel::Binary(b) => b.len(),
        SourceModel::Values(v) => v.len(),
        SourceModel::Stream(v) => v.len(),
    }
}

/// Positions at which an item can be read: character boundaries of text,
/// any position of the other inputs.
pub open spec fn readable(m: SourceModel, pos: int) -> bool {
    match m {
        SourceModel::Text(cs) => is_char_boundary(encode_utf8(cs), pos),
        _ => 0 <= pos,
    }
}

/// The item at `pos`, `None` at or past the end.
pub open spec fn item_at(m: SourceModel, pos: int) -> Option<ItemModel> {
    match m {
        SourceModel::Text(cs) => {
            let rest = text_after(cs, pos);
            if rest.len() > 0 {
                Some(ItemModel::Char(rest[0]))
            } else {
                None
            }
        },
        SourceModel::Binary(b) => if 0 <= pos < b.len() {
            Some(ItemModel::Byte(b[pos]))
        } else {
            None
        },
        SourceModel::Values(v) => if 0 <= pos < v.len() {
            Some(ItemModel::Value(v[pos]))
        } else {
            None
        },
        SourceModel::Stream(v) => if 0 <= pos < v.len() {
            Some(ItemModel::Value(v[pos]))
        } else {
            None
        },
    }
}

/// The position after the item at `pos`: past the character's UTF-8
/// bytes in text (`pos` itself at the end), the next index otherwise.
pub open spec fn next_pos(m: SourceModel, pos: int) -> int {
    match m {
        SourceModel::Text(_) => match item_at(m, pos) {
            Some(ItemModel::Char(c)) => pos + utf8_width(c),
            _ => pos,
        },
        _ => pos + 1,
    }
}

/// The text from byte offset `pos` on, if `pos` is a character boundary.
pub open spec fn text_from_spec(m: SourceModel, pos: int) -> Option<Seq<char>> {
    match m {
        SourceModel::Text(cs) => if is_char_boundary(encode_utf8(cs), pos) {
            Some(text_after(cs, pos))
        } else {
            None
        },
        _ => None,
    }
}

/// The `n` bytes from `pos` on, where the input has them as bytes.
pub open spec fn bytes_at_spec(m: SourceModel, pos: int, n: int) -> Option<Seq<u8>> {
    let bytes = match m {
        SourceModel::Text(cs) => Some(encode_utf8(cs)),
        SourceModel::Binary(b) => Some(b),
        _ => None,
    };
    match bytes {
        Some(b) => if pos + n <= b.len() {
            Some(b.subrange(pos, pos + n))
        } else {
            None
        },
        None => None,
    }
}

/// Facts about the text after a character boundary.
proof fn lemma_text_after(cs: Seq<char>, pos: int)
    requires
        is_char_boundary(encode_utf8(cs), pos),
    ensures
        0 <= pos <= encode_utf8(cs).len(),
        encode_utf8(text_after(cs, pos)) == encode_utf8(cs).subrange(pos, encode_utf8(cs).len() as int),
        text_after(cs, pos).len() > 0 ==> pos + utf8_width(text_after(cs, pos)[0]) <= encode_utf8(cs).len(),
{
    let bytes = encode_utf8(cs);
    let sub = bytes.subrange(pos, bytes.len() as int);
    encode_utf8_valid_utf8(cs);
    assert(0 <= pos <= bytes.len());
    valid_utf8_split(bytes, pos);
    decode_utf8_encode_utf8(sub);
    let rest = decode_utf8(sub);
    if rest.len() > 0 {
        assert(encode_utf8(rest) == encode_scalar(rest[0] as u32) + encode_utf8(rest.drop_first()));
    }
}

/// A boundary of the bytes after a boundary is a boundary of the whole.
proof fn lemma_boundary_compose(b: Seq<u8>, p: int, q: int)
    requires
        valid_utf8(b),
        is_char_boundary(b, p),
        is_char_boundary(b.subrange(p, b.len() as int), q),
    ensures
        is_char_boundary(b, p + q),
    decreases b.len(),
{
    let sub = b.subrange(p, b.len() as int);
    valid_utf8_split(b, p);
    if p == 0 {
        assert(sub =~= b);
    } else {
        let tail = pop_first_scalar(b);
        let len1 = length_of_first_scalar(b);
        assert(sub =~= tail.subrange(p - len1, tail.len() as int));
        lemma_boundary_compose(tail, p - len1, q);
        if q > 0 {
            assert(p + q <= b.len());
        }
    }
}

/// Stepping over the item at a readable position lands on a readable
/// position: after a character of text comes a character boundary.
pub proof fn lemma_next_pos_readable(m: SourceModel, pos: int)
    requires
        readable(m, pos),
        item_at(m, pos) is Some,
    ensures
        readable(m, next_pos(m, pos)),
        pos < next_pos(m, pos) <= source_len(m),
{
    match m {
        SourceModel::Text(cs) => {
            let bytes = encode_utf8(cs);
            let sub = bytes.subrange(pos, bytes.len() as int);
            lemma_text_after(cs, pos);
            encode_utf8_valid_utf8(cs);
            valid_utf8_split(bytes, pos);
            let rest = text_after(cs, pos);
            encode_utf8_first_scalar(rest);
            let w = length_of_first_scalar(sub);
            assert(w == utf8_width(rest[0]));
            assert(is_char_boundary(pop_first_scalar(sub), 0));
            assert(is_char_boundary(sub, w));
            lemma_boundary_compose(bytes, pos, w);
        },
        _ => {},
    }
}

/// An input that a PEG parser reads item by item, with a packrat memo table.
pub trait PegInput {
    /// What this input reads.
    spec fn source(&self) -> SourceModel;

    /// The memo table of this input.
    spec fn memo_table(&self) -> MemoTable;

    /// The item at a position, if any (`None` = end of input).
    fn head(&self, pos: &usize) -> (r: Option<InputItem>)
        requires
            readable(self.source(), *pos as int),
        ensures
            match r {
                Some(item) => item_at(self.source(), *pos as int) == Some(item.model()),
                None => item_at(self.source(), *pos as int) is None,
            },
    ;

    /// The position after the item at `pos`.
    fn tail(&self, pos: &usize) -> (r: usize)
        requires
            readable(self.source(), *pos as int),
            next_pos(self.source(), *pos as int) <= usize::MAX,
        ensures
            r == next_pos(self.source(), *pos as int),
    ;

    /// The numeric index of a position.
    fn index(&self, pos: &usize) -> (r: usize)
        ensures
            r == *pos,
    ;

    /// The position at a numeric index.
    fn position_at(&self, index: usize) -> (r: usize)
        ensures
            r == index,
    ;

    /// Whether the position is at (or past) the end of the input.
    fn is_at_end(&self, pos: &usize) -> (r: bool)
        ensures
            r == (*pos >= source_len(self.source())),
    ;

    /// The memo entry for `rule` at `pos`.
    fn get_memo(&self, pos: &usize, rule: &String) -> (r: Option<MemoEntry>)
        ensures
            match r {
                Some(e) => self.memo_table().lookup(*pos as int, rule@) == Some(e.model()),
                None => self.memo_table().lookup(*pos as int, rule@) is None,
            },
    ;

    /// Record the memo entry for `rule` at `pos`.
    fn set_memo(&mut self, pos: &usize, rule: String, entry: MemoEntry)
        ensures
            final(self).source() == old(self).source(),
            forall|p: int, r: Seq<char>| #[trigger]
                final(self).memo_table().lookup(p, r) == if p == *pos && r == rule@ {
                    Some(entry.model())
                } else {
                    old(self).memo_table().lookup(p, r)
                },
    ;

    /// The starting position.
    fn start(&self) -> (r: usize)
        ensures
            r == 0,
    ;

    /// The text from `pos` on, for text input at a character boundary.
    fn text_from(&self, pos: &usize) -> (r: Option<&str>)
        ensures
            match r {
                Some(t) => text_from_spec(self.source(), *pos as int) == Some(t@),
                None => text_from_spec(self.source(), *pos as int) is None,
            },
    ;

    /// Whether the text at `pos` starts with `literal`.
    fn starts_with(&self, pos: &usize, literal: &str) -> (r: bool)
        ensures
            r == match text_from_spec(self.source(), *pos as int) {
                Some(t) => encode_utf8(literal@).is_prefix_of(encode_utf8(t)),
                None => false,
            },
    ;

    /// The `n` bytes starting at `pos`, for text and binary input.
    fn bytes_at(&self, pos: &usize, n: usize) -> (r: Option<&[u8]>)
        requires
            *pos + n <= usize::MAX,
        ensures
            match r {
                Some(b) => bytes_at_spec(self.source(), *pos as int, n as int) == Some(b@),
                None => bytes_at_spec(self.source(), *pos as int, n as int) is None,
            },
    ;

    /// The value at `pos`, for value input (a stream hands out owned items
    /// through `head` only).
    fn value_at(&self, pos: &usize) -> (r: Option<&Value>)
        ensures
            match r {
                Some(v) => self.source() matches SourceModel::Values(vs) && *pos < vs.len() && v.datum()
                    == vs[*pos as int],
                None => !(self.source() matches SourceModel::Values(vs) && *pos < vs.len()),
            },
    ;

    /// Whether text patterns (characters, literals, classes) apply.
    fn supports_text_patterns(&self) -> (r: bool)
        ensures
            r == (self.source() is Text),
    ;

    /// Whether binary patterns (bytes, fixed-width integers) apply.
    fn supports_binary_patterns(&self) -> (r: bool)
        ensures
            r == (self.source() is Text || self.source() is Binary),
    ;

    /// Whether value patterns apply.
    fn supports_value_patterns(&self) -> (r: bool)
        ensures
            r == (self.source() is Values || self.source() is Stream),
    ;
}

/// Value input: parsing a fixed list of values.
#[derive(Debug)]
pub struct ValueInput {
    values: Vec<Value>,
    memo: MemoTable,
}

impl ValueInput {
    /// A value input over `values`, with an empty memo table.
    pub fn new(values: Vec<Value>) -> (r: ValueInput)
        ensures
            r.source() == SourceModel::Values(datums(values@)),
            forall|p: int, rule: Seq<char>| #[trigger] r.memo_table().lookup(p, rule) is None,
    {
        ValueInput { values, memo: MemoTable::new() }
    }

    /// The values read.
    pub fn values(&self) -> (r: &[Value])
        ensures
            self.source() == SourceModel::Values(datums(r@)),
    {
        self.values.as_slice()
    }

    /// The value at `index`, if any.
    pub fn get(&self, index: usize) -> (r: Option<&Value>)
        ensures
            self.source() is Values,
            match r {
                Some(v) => index < source_len(self.source()) && v.datum() == self.source()->Values_0[index as int],
                None => index >= source_len(self.source()),
            },
    {
        if index < self.values.len() {
            Some(&self.values[index])
        } else {
            None
        }
    }
}

impl PegInput for ValueInput {
    closed spec fn source(&self) -> SourceModel {
        SourceModel::Values(datums(self.values@))
    }

    closed spec fn memo_table(&self) -> MemoTable {
        self.memo
    }

    fn head(&self, pos: &usize) -> (r: Option<InputItem>) {
        if *pos < self.values.len() {
            Some(InputItem::Value(self.values[*pos].deep_clone()))
        } else {
            None
        }
    }

    fn tail(&self, pos: &usize) -> (r: usize) {
        *pos + 1
    }

    fn index(&self, pos: &usize) -> (r: usize) {
        *pos
    }

    fn position_at(&self, index: usize) -> (r: usize) {
        index
    }

    fn is_at_end(&self, pos: &usize) -> (r: bool) {
        *pos >= self.values.len()
    }

    fn get_memo(&self, pos: &usize, rule: &String) -> (r: Option<MemoEntry>) {
        self.memo.get(*pos, rule)
    }

    fn set_memo(&mut self, pos: &usize, rule: String, entry: MemoEntry) {
        self.memo.set(*pos, rule, entry);
    }

    fn start(&self) -> (r: usize) {
        0
    }

    fn text_from(&self, pos: &usize) -> (r: Option<&str>) {
        None
    }

    fn starts_with(&self, pos: &usize, literal: &str) -> (r: bool) {
        false
    }

    fn bytes_at(&self, pos: &usize, n: usize) -> (r: Option<&[u8]>) {
        None
    }

    fn value_at(&self, pos: &usize) -> (r: Option<&Value>) {
        if *pos < self.values.len() {
            Some(&self.values[*pos])
        } else {
            None
        }
    }

    fn supports_text_patterns(&self) -> (r: bool) {
        false
    }

    fn supports_binary_patterns(&self) -> (r: bool) {
        false
    }

    fn supports_value_patterns(&self) -> (r: bool) {
        true
    }
}

/// Streaming input: values read one by one from a stream, here one built
/// from a fixed list.
#[derive(Debug)]
pub struct StreamingInput {
    values: Vec<Value>,
    memo: MemoTable,
}

impl StreamingInput {
    /// A stream input over a fixed list of values.
    pub fn from_values(values: Vec<Value>) -> (r: StreamingInput)
        ensures
            r.source() == SourceModel::Stream(datums(values@)),
            forall|p: int, rule: Seq<char>| #[trigger] r.memo_table().lookup(p, rule) is None,
    {
        StreamingInput { values, memo: MemoTable::new() }
    }
}

impl PegInput for StreamingInput {
    closed spec fn source(&self) -> SourceModel {
        SourceModel::Stream(datums(self.values@))
    }

    closed spec fn memo_table(&self) -> MemoTable {
        self.memo
    }

    fn head(&self, pos: &usize) -> (r: Option<InputItem>) {
        if *pos < self.values.len() {
            Some(InputItem::Value(self.values[*pos].deep_clone()))
        } else {
            None
        }
    }

    fn tail(&self, pos: &usize) -> (r: usize) {
        *pos + 1
    }

    fn index(&self, pos: &usize) -> (r: usize) {
        *pos
    }

    fn position_at(&self, index: usize) -> (r: usize) {
        index
    }

    fn is_at_end(&self, pos: &usize) -> (r: bool) {
        *pos >= self.values.len()
    }

    fn get_memo(&self, pos: &usize, rule: &String) -> (r: Option<MemoEntry>) {
        self.memo.get(*pos, rule)
    }

    fn set_memo(&mut self, pos: &usize, rule: String, entry: MemoEntry) {
        self.memo.set(*pos, rule, entry);
    }

    fn start(&self) -> (r: usize) {
        0
    }

    fn text_from(&self, pos: &usize) -> (r: Option<&str>) {
        None
    }

    fn starts_with(&self, pos: &usize, literal: &str) -> (r: bool) {
        false
    }

    fn bytes_at(&self, pos: &usize, n: usize) -> (r: Option<&[u8]>) {
        None
    }

    fn value_at(&self, pos: &usize) -> (r: Option<&Value>) {
        None
    }

    fn supports_text_patterns(&self) -> (r: bool) {
        false
    }

    fn supports_binary_patterns(&self) -> (r: bool) {
        false
    }

    fn supports_value_patterns(&self) -> (r: bool) {
        true
    }
}

/// Binary input: parsing byte by byte.
#[derive(Debug)]
pub struct BinaryInput {
    bytes: Vec<u8>,
    memo: MemoTable,
}

impl BinaryInput {
    /// A binary input over `bytes`, with an empty memo table.
    pub fn new(bytes: Vec<u8>) -> (r: BinaryInput)
        ensures
            r.source() == SourceModel::Binary(bytes@),
            forall|p: int, rule: Seq<char>| #[trigger] r.memo_table().lookup(p, rule) is None,
    {
        BinaryInput { bytes, memo: MemoTable::new() }
    }

    /// The bytes read.
    pub fn bytes(&self) -> (r: &[u8])
        ensures
            self.source() == SourceModel::Binary(r@),
    {
        self.bytes.as_slice()
    }
}

impl PegInput for BinaryInput {
    closed spec fn source(&self) -> SourceModel {
        SourceModel::Binary(self.bytes@)
    }

    closed spec fn memo_table(&self) -> MemoTable {
        self.memo
    }

    fn head(&self, pos: &usize) -> (r: Option<InputItem>) {
        if *pos < self.bytes.len() {
            Some(InputItem::Byte(self.bytes[*pos]))
        } else {
            None
        }
    }

    fn tail(&self, pos: &usize) -> (r: usize) {
        *pos + 1
    }

    fn index(&self, pos: &usize) -> (r: usize) {
        *pos
    }

    fn position_at(&self, index: usize) -> (r: usize) {
        index
    }

    fn is_at_end(&self, pos: &usize) -> (r: bool) {
        *pos >= self.bytes.len()
    }

    fn get_memo(&self, pos: &usize, rule: &String) -> (r: Option<MemoEntry>) {
        self.memo.get(*pos, rule)
    }

    fn set_memo(&mut self, pos: &usize, rule: String, entry: MemoEntry) {
        self.memo.set(*pos, rule, entry);
    }

    fn start(&self) -> (r: usize) {
        0
    }

    fn text_from(&self, pos: &usize) -> (r: Option<&str>) {
        None
    }

    fn starts_with(&self, pos: &usize, literal: &str) -> (r: bool) {
        false
    }

    fn bytes_at(&self, pos: &usize, n: usize) -> (r: Option<&[u8]>) {
        let end = *pos + n;
        if end <= self.bytes.len() {
            Some(vstd::slice::slice_subrange(self.bytes.as_slice(), *pos, end))
        } else {
            None
        }
    }

    fn value_at(&self, pos: &usize) -> (r: Option<&Value>) {
        None
    }

    fn supports_text_patterns(&self) -> (r: bool) {
        false
    }

    fn supports_binary_patterns(&self) -> (r: bool) {
        true
    }

    fn supports_value_patterns(&self) -> (r: bool) {
        false
    }
}

/// Whether the bytes of `literal` begin the bytes of `text`.
fn str_starts_with(text: &str, literal: &str) -> (r: bool)
    ensures
        r == encode_utf8(literal@).is_prefix_of(encode_utf8(text@)),
{
    let tb = text.as_bytes();
    let lb = literal.as_bytes();
    if lb.len() > tb.len() {
        return false;
    }
    let mut i: usize = 0;
    while i < lb.len()
        invariant
            lb@ == encode_utf8(literal@),
            tb@ == encode_utf8(text@),
            lb@.len() <= tb@.len(),
            i <= lb@.len(),
            forall|j: int| 0 <= j < i ==> lb@[j] == tb@[j],
        decreases lb@.len() - i,
    {
        if lb[i] != tb[i] {
            return false;
        }
        i += 1;
    }
    assert(lb@ =~= tb@.subrange(0, lb@.len() as int));
    true
}

/// Text input: parsing character by character, at byte offsets.
#[derive(Debug)]
pub struct TextInput {
    text: String,
    memo: MemoTable,
}

impl TextInput {
    /// A text input over a copy of `text`, with an empty memo table.
    pub fn new(text: &str) -> (r: TextInput)
        ensures
            r.source() == SourceModel::Text(text@),
            forall|p: int, rule: Seq<char>| #[trigger] r.memo_table().lookup(p, rule) is None,
    {
        TextInput { text: text.to_owned(), memo: MemoTable::new() }
    }

    /// The text read.
    pub fn text(&self) -> (r: &str)
        ensures
            self.source() == SourceModel::Text(r@),
    {
        self.text.as_str()
    }
}

impl PegInput for TextInput {
    closed spec fn source(&self) -> SourceModel {
        SourceModel::Text(self.text@)
    }

    closed spec fn memo_table(&self) -> MemoTable {
        self.memo
    }

    fn head(&self, pos: &usize) -> (r: Option<InputItem>) {
        broadcast use vstd::string::group_string_axioms, vstd::string::next_postcondition;

        let s = self.text.as_str();
        proof {
            lemma_text_after(self.text@, *pos as int);
        }
        let (_, rest) = s.split_at(*pos);
        proof {
            encode_utf8_decode_utf8(rest@);
            assert(rest@ == text_after(self.text@, *pos as int));
        }
        let mut it = rest.chars();
        match it.next() {
            Some(c) => Some(InputItem::Char(c)),
            None => None,
        }
    }

    fn tail(&self, pos: &usize) -> (r: usize) {
        match self.head(pos) {
            Some(InputItem::Char(c)) => *pos + char_len_utf8(c),
            _ => *pos,
        }
    }

    fn index(&self, pos: &usize) -> (r: usize) {
        *pos
    }

    fn position_at(&self, index: usize) -> (r: usize) {
        index
    }

    fn is_at_end(&self, pos: &usize) -> (r: bool) {
        *pos >= self.text.as_str().as_bytes().len()
    }

    fn get_memo(&self, pos: &usize, rule: &String) -> (r: Option<MemoEntry>) {
        self.memo.get(*pos, rule)
    }

    fn set_memo(&mut self, pos: &usize, rule: String, entry: MemoEntry) {
        self.memo.set(*pos, rule, entry);
    }

    fn start(&self) -> (r: usize) {
        0
    }

    fn text_from(&self, pos: &usize) -> (r: Option<&str>) {
        let s = self.text.as_str();
        proof {
            encode_utf8_valid_utf8(self.text@);
        }
        if s.is_char_boundary(*pos) {
            proof {
                lemma_text_after(self.text@, *pos as int);
            }
            let (_, rest) = s.split_at(*pos);
            proof {
                encode_utf8_decode_utf8(rest@);
            }
            Some(rest)
        } else {
            None
        }
    }

    fn starts_with(&self, pos: &usize, literal: &str) -> (r: bool) {
        match self.text_from(pos) {
            Some(t) => str_starts_with(t, literal),
            None => false,
        }
    }

    fn bytes_at(&self, pos: &usize, n: usize) -> (r: Option<&[u8]>) {
        let b = self.text.as_str().as_bytes();
        let end = *pos + n;
        if end <= b.len() {
            Some(vstd::slice::slice_subrange(b, *pos, end))
        } else {
            None
        }
    }

    fn value_at(&self, pos: &usize) -> (r: Option<&Value>) {
        None
    }

    fn supports_text_patterns(&self) -> (r: bool) {
        true
    }

    fn supports_binary_patterns(&self) -> (r: bool) {
        true
    }

    fn supports_value_patterns(&self) -> (r: bool) {
        false
    }
}

} // verus!
