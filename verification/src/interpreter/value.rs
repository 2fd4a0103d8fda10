//! Runtime values.
//!
//! A number is held as the decimal text by which the host prints a 64-bit
//! float (`7`, `0.5`, `-0`, `NaN`, `inf`): the library tells numbers apart,
//! tests them for zero and reads indices off that text, and leaves the
//! arithmetic to the host. Functions refer to their bodies, instances to
//! their environments and promises to their states by handle.

use vstd::prelude::*;

use crate::error::InterpreterError;
use crate::error::InterpreterErrorView;
use crate::interpreter::native::{NativeFunction, NativeFunctionView};
use crate::interpreter::environment::{lemma_find_entry_push, lemma_find_entry_same_names};
use crate::text::{same_text, to_chars};

verus! {

#[derive(Debug)]
pub enum Value {
    Number(String),
    String(String),
    Boolean(bool),
    NativeFunction(NativeFunction),
    Promise(usize),
    Function(String, Vec<String>, usize),
    AsyncFunction(String, Vec<String>, usize),
    Class(String, Vec<(String, Value)>),
    Instance(String, usize),
    Array(Vec<Value>),
    Dictionary(Vec<(String, Value)>),
    Socket(usize),
    TlsSocket(usize),
    Server(usize),
    Nil,
}

pub enum ValueView {
    Number(Seq<char>),
    String(Seq<char>),
    Boolean(bool),
    NativeFunction(NativeFunctionView),
    Promise(usize),
    Function(Seq<char>, Seq<Seq<char>>, usize),
    AsyncFunction(Seq<char>, Seq<Seq<char>>, usize),
    Class(Seq<char>, Seq<(Seq<char>, ValueView)>),
    Instance(Seq<char>, usize),
    Array(Seq<ValueView>),
    Dictionary(Seq<(Seq<char>, ValueView)>),
    Socket(usize),
    TlsSocket(usize),
    Server(usize),
    Nil,
}

/// The views of a sequence of texts.
pub open spec fn text_views(texts: Seq<String>) -> Seq<Seq<char>> {
    Seq::new(texts.len(), |i: int| texts[i]@)
}

/// The views of a sequence of values.
pub open spec fn value_views(items: Seq<Value>) -> Seq<ValueView>
    decreases items,
{
    Seq::new(
        items.len(),
        |i: int|
            if 0 <= i < items.len() {
                items[i].view()
            } else {
                ValueView::Nil
            },
    )
}

/// The views of a sequence of named values.
pub open spec fn entry_views(entries: Seq<(String, Value)>) -> Seq<(Seq<char>, ValueView)>
    decreases entries,
{
    Seq::new(
        entries.len(),
        |i: int|
            if 0 <= i < entries.len() {
                (entries[i].0@, entries[i].1.view())
            } else {
                (Seq::empty(), ValueView::Nil)
            },
    )
}

impl View for Value {
    type V = ValueView;

    open spec fn view(&self) -> ValueView
        decreases self,
    {
        match self {
            Value::Number(text) => ValueView::Number(text@),
            Value::String(text) => ValueView::String(text@),
            Value::Boolean(b) => ValueView::Boolean(*b),
            Value::NativeFunction(native) => ValueView::NativeFunction(native@),
            Value::Promise(handle) => ValueView::Promise(*handle),
            Value::Function(name, params, body) => ValueView::Function(
                name@,
                text_views(params@),
                *body,
            ),
            Value::AsyncFunction(name, params, body) => ValueView::AsyncFunction(
                name@,
                text_views(params@),
                *body,
            ),
            Value::Class(name, methods) => ValueView::Class(name@, entry_views(methods@)),
            Value::Instance(name, environment) => ValueView::Instance(name@, *environment),
            Value::Array(items) => ValueView::Array(value_views(items@)),
            Value::Dictionary(entries) => ValueView::Dictionary(entry_views(entries@)),
            Value::Socket(handle) => ValueView::Socket(*handle),
            Value::TlsSocket(handle) => ValueView::TlsSocket(*handle),
            Value::Server(handle) => ValueView::Server(*handle),
            Value::Nil => ValueView::Nil,
        }
    }
}

pub proof fn lemma_text_views_push(texts: Seq<String>, text: String)
    ensures
        text_views(texts.push(text)) == text_views(texts).push(text@),
{
    assert(text_views(texts.push(text)) =~= text_views(texts).push(text@));
}

pub proof fn lemma_value_views_push(items: Seq<Value>, item: Value)
    ensures
        value_views(items.push(item)) == value_views(items).push(item@),
{
    assert(value_views(items.push(item)) =~= value_views(items).push(item@));
}

pub proof fn lemma_entry_views_push(entries: Seq<(String, Value)>, name: String, value: Value)
    ensures
        entry_views(entries.push((name, value))) == entry_views(entries).push((name@, value@)),
{
    assert(entry_views(entries.push((name, value))) =~= entry_views(entries).push(
        (name@, value@),
    ));
}

pub proof fn lemma_value_views_update(items: Seq<Value>, i: int, item: Value)
    requires
        0 <= i < items.len(),
    ensures
        value_views(items.update(i, item)) == value_views(items).update(i, item@),
{
    assert(value_views(items.update(i, item)) =~= value_views(items).update(i, item@));
}

pub proof fn lemma_entry_views_update(
    entries: Seq<(String, Value)>,
    i: int,
    name: String,
    value: Value,
)
    requires
        0 <= i < entries.len(),
    ensures
        entry_views(entries.update(i, (name, value))) == entry_views(entries).update(
            i,
            (name@, value@),
        ),
{
    assert(entry_views(entries.update(i, (name, value))) =~= entry_views(entries).update(
        i,
        (name@, value@),
    ));
}

/// A copy of `texts`.
pub fn copy_texts(texts: &Vec<String>) -> (copy: Vec<String>)
    ensures
        text_views(copy@) == text_views(texts@),
{
    let mut copy: Vec<String> = Vec::new();
    let mut i: usize = 0;
    assert(text_views(copy@) =~= text_views(texts@.take(0)));
    while i < texts.len()
        invariant
            i <= texts.len(),
            text_views(copy@) == text_views(texts@.take(i as int)),
        decreases texts.len() - i,
    {
        let ghost before = copy@;
        let text = texts[i].clone();
        copy.push(text);
        proof {
            lemma_text_views_push(before, text);
            lemma_text_views_push(texts@.take(i as int), texts@[i as int]);
            assert(texts@.take(i + 1) =~= texts@.take(i as int).push(texts@[i as int]));
        }
        i += 1;
    }
    assert(texts@.take(i as int) =~= texts@);
    copy
}

impl Clone for Value {
    #[verifier::loop_isolation(false)]
    fn clone(&self) -> (copy: Self)
        ensures
            copy@ == self@,
        decreases self,
    {
        match self {
            Value::Number(text) => Value::Number(text.clone()),
            Value::String(text) => Value::String(text.clone()),
            Value::Boolean(b) => Value::Boolean(*b),
            Value::NativeFunction(native) => Value::NativeFunction(native.clone()),
            Value::Promise(handle) => Value::Promise(*handle),
            Value::Function(name, params, body) => Value::Function(
                name.clone(),
                copy_texts(params),
                *body,
            ),
            Value::AsyncFunction(name, params, body) => Value::AsyncFunction(
                name.clone(),
                copy_texts(params),
                *body,
            ),
            Value::Class(name, methods) => {
                let mut copy: Vec<(String, Value)> = Vec::new();
                let mut i: usize = 0;
                assert(entry_views(copy@) =~= entry_views(methods@.take(0)));
                while i < methods.len()
                    invariant
                        i <= methods.len(),
                        entry_views(copy@) == entry_views(methods@.take(i as int)),
                    decreases methods.len() - i,
                {
                    let ghost before = copy@;
                    let key = methods[i].0.clone();
                    let value = methods[i].1.clone();
                    copy.push((key, value));
                    proof {
                        lemma_entry_views_push(before, key, value);
                        lemma_entry_views_push(
                            methods@.take(i as int),
                            methods@[i as int].0,
                            methods@[i as int].1,
                        );
                        assert(methods@.take(i + 1) =~= methods@.take(i as int).push(
                            methods@[i as int],
                        ));
                    }
                    i += 1;
                }
                assert(methods@.take(i as int) =~= methods@);
                Value::Class(name.clone(), copy)
            },
            Value::Instance(name, environment) => Value::Instance(name.clone(), *environment),
            Value::Array(items) => {
                let mut copy: Vec<Value> = Vec::new();
                let mut i: usize = 0;
                assert(value_views(copy@) =~= value_views(items@.take(0)));
                while i < items.len()
                    invariant
                        i <= items.len(),
                        value_views(copy@) == value_views(items@.take(i as int)),
                    decreases items.len() - i,
                {
                    let ghost before = copy@;
                    let item = items[i].clone();
                    copy.push(item);
                    proof {
                        lemma_value_views_push(before, item);
                        lemma_value_views_push(items@.take(i as int), items@[i as int]);
                        assert(items@.take(i + 1) =~= items@.take(i as int).push(
                            items@[i as int],
                        ));
                    }
                    i += 1;
                }
                assert(items@.take(i as int) =~= items@);
                Value::Array(copy)
            },
            Value::Dictionary(entries) => {
                let mut copy: Vec<(String, Value)> = Vec::new();
                let mut i: usize = 0;
                assert(entry_views(copy@) =~= entry_views(entries@.take(0)));
                while i < entries.len()
                    invariant
                        i <= entries.len(),
                        entry_views(copy@) == entry_views(entries@.take(i as int)),
                    decreases entries.len() - i,
                {
                    let ghost before = copy@;
                    let key = entries[i].0.clone();
                    let value = entries[i].1.clone();
                    copy.push((key, value));
                    proof {
                        lemma_entry_views_push(before, key, value);
                        lemma_entry_views_push(
                            entries@.take(i as int),
                            entries@[i as int].0,
                            entries@[i as int].1,
                        );
                        assert(entries@.take(i + 1) =~= entries@.take(i as int).push(
                            entries@[i as int],
                        ));
                    }
                    i += 1;
                }
                assert(entries@.take(i as int) =~= entries@);
                Value::Dictionary(copy)
            },
            Value::Socket(handle) => Value::Socket(*handle),
            Value::TlsSocket(handle) => Value::TlsSocket(*handle),
            Value::Server(handle) => Value::Server(*handle),
            Value::Nil => Value::Nil,
        }
    }
}

/// A copy of `items`.
pub fn copy_values(items: &Vec<Value>) -> (copy: Vec<Value>)
    ensures
        value_views(copy@) == value_views(items@),
{
    let mut copy: Vec<Value> = Vec::new();
    let mut i: usize = 0;
    assert(value_views(copy@) =~= value_views(items@.take(0)));
    while i < items.len()
        invariant
            i <= items.len(),
            value_views(copy@) == value_views(items@.take(i as int)),
        decreases items.len() - i,
    {
        let ghost before = copy@;
        let item = items[i].clone();
        copy.push(item);
        proof {
            lemma_value_views_push(before, item);
            lemma_value_views_push(items@.take(i as int), items@[i as int]);
            assert(items@.take(i + 1) =~= items@.take(i as int).push(items@[i as int]));
        }
        i += 1;
    }
    assert(items@.take(i as int) =~= items@);
    copy
}

// ---------------------------------------------------------------------------
// Numbers as text
// ---------------------------------------------------------------------------

/// Whether the number is zero: `0` or `-0`.
pub open spec fn number_is_zero(text: Seq<char>) -> bool {
    text == "0"@ || text == "-0"@
}

/// Whether the text stands for no number.
pub open spec fn number_is_nan(text: Seq<char>) -> bool {
    text == "NaN"@
}

/// Whether two numbers are equal: as the host's floats are, a number that is
/// not one equals nothing, and the two zeros are equal.
pub open spec fn numbers_equal(a: Seq<char>, b: Seq<char>) -> bool {
    !number_is_nan(a) && !number_is_nan(b) && (a == b || (number_is_zero(a) && number_is_zero(
        b,
    )))
}

/// The number with the opposite sign.
pub open spec fn negated_number(text: Seq<char>) -> Seq<char> {
    if number_is_nan(text) {
        text
    } else if text.len() > 0 && text[0] == '-' {
        text.subrange(1, text.len() as int)
    } else {
        seq!['-'] + text
    }
}

pub open spec fn is_decimal_digit(c: char) -> bool {
    '0' <= c && c <= '9'
}

/// The value of the decimal digits `text[from..to]`.
pub open spec fn whole_value(text: Seq<char>, from: int, to: int) -> nat
    decreases to - from,
{
    if 0 <= from < to <= text.len() {
        whole_value(text, from, to - 1) * 10 + (text[to - 1] as nat - '0' as nat) as nat
    } else {
        0
    }
}

/// Where the digits that start at `from` end.
pub open spec fn digits_end(text: Seq<char>, from: int) -> int
    decreases text.len() - from,
{
    if 0 <= from < text.len() && is_decimal_digit(text[from]) {
        digits_end(text, from + 1)
    } else {
        from
    }
}

/// Whether `text` is a numeral as the host prints a finite float: an
/// optional minus sign, a whole part without leading zero, and, where the
/// number is no whole number, a point and a fraction without trailing zero.
pub open spec fn is_numeral(text: Seq<char>) -> bool {
    let start: int = if text.len() > 0 && text[0] == '-' {
        1
    } else {
        0
    };
    let end = digits_end(text, start);
    &&& end > start
    &&& (end == start + 1 || text[start] != '0')
    &&& (end == text.len() || (text[end] == '.' && digits_end(text, end + 1) == text.len()
        && text.len() > end + 1 && text[text.len() - 1] != '0'))
}

/// Whether `text` is the text of a number as the host prints a float: a
/// numeral, `NaN`, `inf` or `-inf`. What the library says of numbers (which
/// are zero, which are equal, which position one names) is said of such
/// texts.
pub open spec fn is_number_text(text: Seq<char>) -> bool {
    text == "NaN"@ || text == "inf"@ || text == "-inf"@ || is_numeral(text)
}

/// Whether no name stands twice in `entries`.
pub open spec fn distinct_names(entries: Seq<(Seq<char>, ValueView)>) -> bool {
    forall|i: int|
        0 <= i < entries.len() ==> find_entry(entries, (#[trigger] entries[i]).0, 0) == Some(i)
}

/// Whether a value is one of the language: every number in it is written
/// as the host prints it, and no dictionary and no method table in it holds
/// a name twice.
pub open spec fn sound(value: ValueView) -> bool
    decreases value, 0nat,
{
    match value {
        ValueView::Number(text) => is_number_text(text),
        ValueView::Array(items) => items_sound(items, items.len()),
        ValueView::Dictionary(entries) => distinct_names(entries) && entries_sound(
            entries,
            entries.len(),
        ),
        ValueView::Class(_, methods) => distinct_names(methods) && entries_sound(
            methods,
            methods.len(),
        ),
        _ => true,
    }
}

/// Whether the first `n` of `items` are sound.
pub open spec fn items_sound(items: Seq<ValueView>, n: nat) -> bool
    decreases items, n,
{
    if n == 0 || n > items.len() {
        true
    } else {
        items_sound(items, (n - 1) as nat) && sound(items[n - 1])
    }
}

/// Whether the values of the first `n` of `entries` are sound.
pub open spec fn entries_sound(entries: Seq<(Seq<char>, ValueView)>, n: nat) -> bool
    decreases entries, n,
{
    if n == 0 || n > entries.len() {
        true
    } else {
        entries_sound(entries, (n - 1) as nat) && sound(entries[n - 1].1)
    }
}

/// An unsound item makes every longer run of items unsound.
pub proof fn lemma_items_unsound(items: Seq<ValueView>, k: nat, n: nat)
    requires
        k < n <= items.len(),
        !sound(items[k as int]),
    ensures
        !items_sound(items, n),
    decreases n,
{
    if n > k + 1 {
        lemma_items_unsound(items, k, (n - 1) as nat);
    }
}

pub proof fn lemma_entries_unsound(entries: Seq<(Seq<char>, ValueView)>, k: nat, n: nat)
    requires
        k < n <= entries.len(),
        !sound(entries[k as int].1),
    ensures
        !entries_sound(entries, n),
    decreases n,
{
    if n > k + 1 {
        lemma_entries_unsound(entries, k, (n - 1) as nat);
    }
}

/// Where the digits of `chars` that start at `from` end.
fn digits_run(chars: &Vec<char>, from: usize) -> (end: usize)
    requires
        from <= chars.len(),
    ensures
        end == digits_end(chars@, from as int),
        from <= end <= chars.len(),
{
    let mut i: usize = from;
    while i < chars.len() && '0' <= chars[i] && chars[i] <= '9'
        invariant
            from <= i <= chars.len(),
            digits_end(chars@, i as int) == digits_end(chars@, from as int),
        decreases chars.len() - i,
    {
        i += 1;
    }
    i
}

/// Whether `text` is the text of a number.
pub fn is_number(text: &String) -> (yes: bool)
    ensures
        yes == is_number_text(text@),
{
    if same_text(text.as_str(), "NaN") || same_text(text.as_str(), "inf") || same_text(
        text.as_str(),
        "-inf",
    ) {
        return true;
    }
    let chars = to_chars(text.as_str());
    let n = chars.len();
    let start: usize = if n > 0 && chars[0] == '-' {
        1
    } else {
        0
    };
    let end = digits_run(&chars, start);
    if end == start {
        return false;
    }
    if end > start + 1 && chars[start] == '0' {
        return false;
    }
    if end == n {
        return true;
    }
    if chars[end] != '.' {
        return false;
    }
    let last = digits_run(&chars, end + 1);
    last == n && n > end + 1 && chars[n - 1] != '0'
}

/// Whether no name stands twice in `entries`.
fn names_are_distinct(entries: &Vec<(String, Value)>) -> (yes: bool)
    ensures
        yes == distinct_names(entry_views(entries@)),
{
    let ghost views = entry_views(entries@);
    let mut i: usize = 0;
    while i < entries.len()
        invariant
            i <= entries.len(),
            views == entry_views(entries@),
            forall|k: int| 0 <= k < i ==> find_entry(views, (#[trigger] views[k]).0, 0) == Some(k),
        decreases entries.len() - i,
    {
        assert(views[i as int].0 == entries@[i as int].0@);
        match position_of(entries, entries[i].0.as_str()) {
            Some(found) => {
                if found != i {
                    return false;
                }
            },
            None => {
                return false;
            },
        }
        i += 1;
    }
    true
}

/// The position of a collection that the number names: its whole part,
/// where the number is written with digits, is not below zero (the whole
/// part of a negative number must be zero) and fits the machine.
pub open spec fn number_index(text: Seq<char>) -> Option<usize> {
    let start: int = if text.len() > 0 && text[0] == '-' {
        1
    } else {
        0
    };
    let end = digits_end(text, start);
    let value = whole_value(text, start, end);
    if end == start {
        None
    } else if end < text.len() && text[end] != '.' {
        None
    } else if start == 1 && value != 0 {
        None
    } else if value > usize::MAX {
        None
    } else {
        Some(value as usize)
    }
}

pub fn is_zero_number(text: &String) -> (zero: bool)
    ensures
        zero == number_is_zero(text@),
{
    same_text(text.as_str(), "0") || same_text(text.as_str(), "-0")
}

pub fn is_nan_number(text: &String) -> (nan: bool)
    ensures
        nan == number_is_nan(text@),
{
    same_text(text.as_str(), "NaN")
}

pub fn equal_numbers(a: &String, b: &String) -> (equal: bool)
    ensures
        equal == numbers_equal(a@, b@),
{
    if is_nan_number(a) || is_nan_number(b) {
        false
    } else {
        same_text(a.as_str(), b.as_str()) || (is_zero_number(a) && is_zero_number(b))
    }
}

pub fn negate_number(text: &String) -> (negated: String)
    ensures
        negated@ == negated_number(text@),
{
    if is_nan_number(text) {
        return text.clone();
    }
    let n = text.as_str().unicode_len();
    if n > 0 && text.as_str().get_char(0) == '-' {
        String::from_str(text.as_str().substring_char(1, n))
    } else {
        let mut negated = String::new();
        negated.push('-');
        negated.append(text.as_str());
        assert(negated@ =~= seq!['-'] + text@);
        negated
    }
}

pub fn index_of_number(text: &String) -> (index: Option<usize>)
    ensures
        index == number_index(text@),
{
    let s = text.as_str();
    let n = s.unicode_len();
    let start: usize = if n > 0 && s.get_char(0) == '-' {
        1
    } else {
        0
    };
    let mut end: usize = start;
    let mut value: usize = 0;
    let mut overflow = false;
    while end < n && '0' <= s.get_char(end) && s.get_char(end) <= '9'
        invariant
            n == text@.len(),
            s@ == text@,
            start <= end <= n,
            digits_end(text@, end as int) == digits_end(text@, start as int),
            forall|k: int| start <= k < end ==> is_decimal_digit(#[trigger] text@[k]),
            !overflow ==> value == whole_value(text@, start as int, end as int),
            overflow ==> whole_value(text@, start as int, end as int) > usize::MAX,
        decreases n - end,
    {
        let c = s.get_char(end);
        let d: usize = (c as u32 - '0' as u32) as usize;
        proof {
            assert(whole_value(text@, start as int, end + 1) == whole_value(
                text@,
                start as int,
                end as int,
            ) * 10 + d);
        }
        if !overflow {
            if value > (usize::MAX - d) / 10 {
                overflow = true;
            } else {
                value = value * 10 + d;
            }
        }
        end += 1;
    }
    if end == start {
        None
    } else if end < n && s.get_char(end) != '.' {
        None
    } else if overflow {
        None
    } else if start == 1 && value != 0 {
        None
    } else {
        Some(value)
    }
}

// ---------------------------------------------------------------------------
// Truth
// ---------------------------------------------------------------------------

/// `nil` is false, a boolean is itself, a number is true unless it is zero,
/// and everything else is true.
pub open spec fn truthy(value: ValueView) -> bool {
    match value {
        ValueView::Nil => false,
        ValueView::Boolean(b) => b,
        ValueView::Number(text) => !number_is_zero(text),
        _ => true,
    }
}

pub fn is_truthy_value(value: &Value) -> (yes: bool)
    ensures
        yes == truthy(value@),
{
    match value {
        Value::Nil => false,
        Value::Boolean(b) => *b,
        Value::Number(text) => !is_zero_number(text),
        _ => true,
    }
}

// ---------------------------------------------------------------------------
// Named values: dictionaries and method tables
// ---------------------------------------------------------------------------

/// The first position among `entries[from..]` that holds `name`.
pub open spec fn find_entry(entries: Seq<(Seq<char>, ValueView)>, name: Seq<char>, from: int)
    -> Option<int>
    decreases entries.len() - from,
{
    if 0 <= from < entries.len() {
        if entries[from].0 == name {
            Some(from)
        } else {
            find_entry(entries, name, from + 1)
        }
    } else {
        None
    }
}

/// `entries` with `name` bound to `value`: in place where the name is
/// there, at the end where it is not.
pub open spec fn with_entry(
    entries: Seq<(Seq<char>, ValueView)>,
    name: Seq<char>,
    value: ValueView,
) -> Seq<(Seq<char>, ValueView)> {
    match find_entry(entries, name, 0) {
        Some(i) => entries.update(i, (name, value)),
        None => entries.push((name, value)),
    }
}

pub proof fn lemma_find_entry(entries: Seq<(Seq<char>, ValueView)>, name: Seq<char>, from: int)
    requires
        0 <= from <= entries.len(),
    ensures
        match find_entry(entries, name, from) {
            Some(i) => from <= i < entries.len() && entries[i].0 == name,
            None => forall|k: int| from <= k < entries.len() ==> (#[trigger] entries[k]).0 != name,
        },
    decreases entries.len() - from,
{
    if from < entries.len() && entries[from].0 != name {
        lemma_find_entry(entries, name, from + 1);
    }
}

/// The position of `name` in `entries`.
pub fn position_of(entries: &Vec<(String, Value)>, name: &str) -> (position: Option<usize>)
    ensures
        match position {
            Some(i) => find_entry(entry_views(entries@), name@, 0) == Some(i as int) && i
                < entries.len(),
            None => find_entry(entry_views(entries@), name@, 0) is None,
        },
{
    let mut i: usize = 0;
    while i < entries.len()
        invariant
            i <= entries.len(),
            find_entry(entry_views(entries@), name@, 0) == find_entry(
                entry_views(entries@),
                name@,
                i as int,
            ),
        decreases entries.len() - i,
    {
        if same_text(entries[i].0.as_str(), name) {
            return Some(i);
        }
        i += 1;
    }
    None
}

/// Binding a name keeps the names distinct.
pub proof fn lemma_with_entry_distinct(
    entries: Seq<(Seq<char>, ValueView)>,
    name: Seq<char>,
    value: ValueView,
)
    requires
        distinct_names(entries),
    ensures
        distinct_names(with_entry(entries, name, value)),
        with_entry(entries, name, value).len() >= entries.len(),
{
    let after = with_entry(entries, name, value);
    lemma_find_entry(entries, name, 0);
    match find_entry(entries, name, 0) {
        Some(i) => {
            assert forall|k: int| 0 <= k < entries.len() implies (#[trigger] entries[k]).0
                == after[k].0 by {}
            assert forall|k: int| 0 <= k < after.len() implies find_entry(
                after,
                (#[trigger] after[k]).0,
                0,
            ) == Some(k) by {
                lemma_find_entry_same_names(entries, after, after[k].0, 0);
                assert(entries[k].0 == after[k].0);
            }
        },
        None => {
            assert forall|k: int| 0 <= k < after.len() implies find_entry(
                after,
                (#[trigger] after[k]).0,
                0,
            ) == Some(k) by {
                lemma_find_entry_push(entries, (name, value), after[k].0, 0);
                if k < entries.len() {
                    assert(after[k] == entries[k]);
                }
            }
        },
    }
}

/// Binds `name` to `value` in `entries`. Names that were distinct stay so.
pub fn put_entry(entries: &mut Vec<(String, Value)>, name: String, value: Value)
    ensures
        entry_views(final(entries)@) == with_entry(entry_views(old(entries)@), name@, value@),
        distinct_names(entry_views(old(entries)@)) ==> distinct_names(
            entry_views(final(entries)@),
        ),
{
    proof {
        if distinct_names(entry_views(entries@)) {
            lemma_with_entry_distinct(entry_views(entries@), name@, value@);
        }
    }
    match position_of(entries, name.as_str()) {
        Some(i) => {
            proof {
                lemma_entry_views_update(entries@, i as int, name, value);
            }
            entries.set(i, (name, value));
        },
        None => {
            proof {
                lemma_entry_views_push(entries@, name, value);
            }
            entries.push((name, value));
        },
    }
}

// ---------------------------------------------------------------------------
// Text of a value
// ---------------------------------------------------------------------------

/// The three ways a value is written: its plain text, the text that is
/// printed, and the text that the conversion to a string gives.
#[derive(Debug, Clone, Copy, PartialEq, Eq, Structural)]
pub enum TextStyle {
    Plain,
    Printed,
    Converted,
}

/// A name between `<kind ` and `>` where the style marks callables and
/// classes, and alone in the plain style.
pub open spec fn named_text(style: TextStyle, opening: Seq<char>, name: Seq<char>) -> Seq<char> {
    if style == TextStyle::Plain {
        name
    } else {
        opening + name + seq!['>']
    }
}

pub open spec fn value_text(value: ValueView, style: TextStyle) -> Seq<char>
    decreases value, 0nat,
{
    match value {
        ValueView::Number(text) => text,
        ValueView::String(text) => text,
        ValueView::Boolean(b) => if b {
            "true"@
        } else {
            "false"@
        },
        ValueView::Nil => "nil"@,
        ValueView::Function(name, _, _) => named_text(style, "<fn "@, name),
        ValueView::AsyncFunction(name, _, _) => named_text(style, "<async fn "@, name),
        ValueView::NativeFunction(native) => named_text(style, "<native fn "@, native.name),
        ValueView::Class(name, _) => named_text(style, "<class "@, name),
        ValueView::Instance(name, _) => named_text(style, "<instance "@, name),
        ValueView::Array(items) => if style == TextStyle::Converted {
            items_text(items, items.len(), ","@, TextStyle::Plain)
        } else {
            seq!['['] + items_text(items, items.len(), ", "@, style) + seq![']']
        },
        ValueView::Dictionary(entries) => if style == TextStyle::Converted {
            entries_text(entries, entries.len(), TextStyle::Plain)
        } else {
            seq!['{'] + entries_text(entries, entries.len(), style) + seq!['}']
        },
        ValueView::Socket(_) => "socket"@,
        ValueView::TlsSocket(_) => "tls socket"@,
        ValueView::Server(_) => "server"@,
        ValueView::Promise(_) => "promise"@,
    }
}

/// The texts of the first `n` items, with `separator` between them.
pub open spec fn items_text(
    items: Seq<ValueView>,
    n: nat,
    separator: Seq<char>,
    style: TextStyle,
) -> Seq<char>
    decreases items, n,
{
    if n == 0 || n > items.len() {
        Seq::empty()
    } else if n == 1 {
        value_text(items[0], style)
    } else {
        items_text(items, (n - 1) as nat, separator, style) + separator + value_text(
            items[n - 1],
            style,
        )
    }
}

/// The texts of the first `n` entries, each as `name: value`, with `, `
/// between them.
pub open spec fn entries_text(entries: Seq<(Seq<char>, ValueView)>, n: nat, style: TextStyle)
    -> Seq<char>
    decreases entries, n,
{
    if n == 0 || n > entries.len() {
        Seq::empty()
    } else if n == 1 {
        entries[0].0 + ": "@ + value_text(entries[0].1, style)
    } else {
        entries_text(entries, (n - 1) as nat, style) + ", "@ + entries[n - 1].0 + ": "@
            + value_text(entries[n - 1].1, style)
    }
}

/// The name of a value's type.
pub open spec fn type_text(value: ValueView) -> Seq<char> {
    match value {
        ValueView::Number(_) => "number"@,
        ValueView::String(_) => "string"@,
        ValueView::Boolean(_) => "boolean"@,
        ValueView::Nil => "nil"@,
        ValueView::Function(_, _, _) => "function"@,
        ValueView::AsyncFunction(_, _, _) => "async function"@,
        ValueView::NativeFunction(_) => "native function"@,
        ValueView::Class(_, _) => "class"@,
        ValueView::Instance(_, _) => "instance"@,
        ValueView::Array(_) => "array"@,
        ValueView::Dictionary(_) => "dictionary"@,
        ValueView::Socket(_) => "socket"@,
        ValueView::TlsSocket(_) => "tls socket"@,
        ValueView::Server(_) => "server"@,
        ValueView::Promise(_) => "promise"@,
    }
}

fn named(style: TextStyle, opening: &str, name: &String) -> (text: String)
    ensures
        text@ == named_text(style, opening@, name@),
{
    match style {
        TextStyle::Plain => name.clone(),
        _ => {
            let mut text = String::from_str(opening);
            text.append(name.as_str());
            text.push('>');
            assert(text@ =~= opening@ + name@ + seq!['>']);
            text
        },
    }
}

/// What a promise is: waiting for a task, or settled for good.
#[derive(Debug)]
pub enum PromiseState {
    Pending(Task),
    Fulfilled(Value),
    Rejected(InterpreterError),
}

/// What a pending promise waits for: the call of an async function of the
/// program, which the evaluator runs when the promise is awaited, or a task
/// that the host runs and knows by handle.
#[derive(Debug)]
pub enum Task {
    Script { callee: Value, arguments: Vec<Value>, environment: usize },
    Host(usize),
}

pub enum TaskView {
    Script { callee: ValueView, arguments: Seq<ValueView>, environment: usize },
    Host(usize),
}

pub enum PromiseStateView {
    Pending(TaskView),
    Fulfilled(ValueView),
    Rejected(InterpreterErrorView),
}

impl View for Task {
    type V = TaskView;

    open spec fn view(&self) -> TaskView {
        match self {
            Task::Script { callee, arguments, environment } => TaskView::Script {
                callee: callee@,
                arguments: value_views(arguments@),
                environment: *environment,
            },
            Task::Host(handle) => TaskView::Host(*handle),
        }
    }
}

impl View for PromiseState {
    type V = PromiseStateView;

    open spec fn view(&self) -> PromiseStateView {
        match self {
            PromiseState::Pending(task) => PromiseStateView::Pending(task@),
            PromiseState::Fulfilled(value) => PromiseStateView::Fulfilled(value@),
            PromiseState::Rejected(error) => PromiseStateView::Rejected(error@),
        }
    }
}

/// The views of a table of promises.
pub open spec fn promise_views(promises: Seq<PromiseState>) -> Seq<PromiseStateView> {
    Seq::new(promises.len(), |i: int| promises[i]@)
}

impl Value {
    /// A new promise that waits for `task`, in the table `promises`.
    pub fn create_promise(promises: &mut Vec<PromiseState>, task: Task) -> (promise: Value)
        ensures
            promise@ == ValueView::Promise(old(promises)@.len() as usize),
            promise_views(final(promises)@) == promise_views(old(promises)@).push(
                PromiseStateView::Pending(task@),
            ),
    {
        let handle = promises.len();
        promises.push(PromiseState::Pending(task));
        assert(promise_views(promises@) =~= promise_views(old(promises)@).push(
            PromiseStateView::Pending(task@),
        ));
        Value::Promise(handle)
    }

    /// The text of the value in `style`.
    #[verifier::loop_isolation(false)]
    pub fn render(&self, style: TextStyle) -> (text: String)
        ensures
            text@ == value_text(self@, style),
        decreases self,
    {
        match self {
            Value::Number(text) => text.clone(),
            Value::String(text) => text.clone(),
            Value::Boolean(b) => if *b {
                String::from_str("true")
            } else {
                String::from_str("false")
            },
            Value::Nil => String::from_str("nil"),
            Value::Function(name, _, _) => named(style, "<fn ", name),
            Value::AsyncFunction(name, _, _) => named(style, "<async fn ", name),
            Value::NativeFunction(native) => named(style, "<native fn ", &native.name),
            Value::Class(name, _) => named(style, "<class ", name),
            Value::Instance(name, _) => named(style, "<instance ", name),
            Value::Array(items) => {
                let converted = match style {
                    TextStyle::Converted => true,
                    _ => false,
                };
                let inner = if converted {
                    TextStyle::Plain
                } else {
                    style
                };
                let separator = if converted {
                    ","
                } else {
                    ", "
                };
                let mut text = String::new();
                let ghost views = value_views(items@);
                let mut i: usize = 0;
                while i < items.len()
                    invariant
                        i <= items.len(),
                        text@ == items_text(views, i as nat, separator@, inner),
                    decreases items.len() - i,
                {
                    if i > 0 {
                        text.append(separator);
                    }
                    let item = items[i].render(inner);
                    text.append(item.as_str());
                    i += 1;
                    assert(text@ =~= items_text(views, i as nat, separator@, inner));
                }
                if converted {
                    text
                } else {
                    let mut whole = String::new();
                    whole.push('[');
                    whole.append(text.as_str());
                    whole.push(']');
                    assert(whole@ =~= seq!['['] + text@ + seq![']']);
                    whole
                }
            },
            Value::Dictionary(entries) => {
                let converted = match style {
                    TextStyle::Converted => true,
                    _ => false,
                };
                let inner = if converted {
                    TextStyle::Plain
                } else {
                    style
                };
                let mut text = String::new();
                let ghost views = entry_views(entries@);
                let mut i: usize = 0;
                while i < entries.len()
                    invariant
                        i <= entries.len(),
                        text@ == entries_text(views, i as nat, inner),
                    decreases entries.len() - i,
                {
                    if i > 0 {
                        text.append(", ");
                    }
                    text.append(entries[i].0.as_str());
                    text.append(": ");
                    let item = entries[i].1.render(inner);
                    text.append(item.as_str());
                    i += 1;
                    assert(text@ =~= entries_text(views, i as nat, inner));
                }
                if converted {
                    text
                } else {
                    let mut whole = String::new();
                    whole.push('{');
                    whole.append(text.as_str());
                    whole.push('}');
                    assert(whole@ =~= seq!['{'] + text@ + seq!['}']);
                    whole
                }
            },
            Value::Socket(_) => String::from_str("socket"),
            Value::TlsSocket(_) => String::from_str("tls socket"),
            Value::Server(_) => String::from_str("server"),
            Value::Promise(_) => String::from_str("promise"),
        }
    }

    /// Whether the value is one of the language: its numbers are written
    /// as the host prints them, and its dictionaries and method tables hold
    /// no name twice.
    #[verifier::loop_isolation(false)]
    pub fn is_sound(&self) -> (yes: bool)
        ensures
            yes == sound(self@),
        decreases self,
    {
        match self {
            Value::Number(text) => is_number(text),
            Value::Array(items) => Self::items_are_sound(items),
            Value::Dictionary(entries) => names_are_distinct(entries) && Self::entries_are_sound(
                entries,
            ),
            Value::Class(_, methods) => names_are_distinct(methods) && Self::entries_are_sound(
                methods,
            ),
            _ => true,
        }
    }

    #[verifier::loop_isolation(false)]
    fn items_are_sound(items: &Vec<Value>) -> (yes: bool)
        ensures
            yes == items_sound(value_views(items@), value_views(items@).len()),
        decreases items,
    {
        let ghost views = value_views(items@);
        let mut i: usize = 0;
        while i < items.len()
            invariant
                i <= items.len(),
                items_sound(views, i as nat),
            decreases items.len() - i,
        {
            assert(views[i as int] == items@[i as int]@);
            if !items[i].is_sound() {
                proof {
                    lemma_items_unsound(views, i as nat, views.len());
                }
                return false;
            }
            i += 1;
        }
        true
    }

    #[verifier::loop_isolation(false)]
    fn entries_are_sound(entries: &Vec<(String, Value)>) -> (yes: bool)
        ensures
            yes == entries_sound(entry_views(entries@), entry_views(entries@).len()),
        decreases entries,
    {
        let ghost views = entry_views(entries@);
        let mut i: usize = 0;
        while i < entries.len()
            invariant
                i <= entries.len(),
                entries_sound(views, i as nat),
            decreases entries.len() - i,
        {
            assert(views[i as int].1 == entries@[i as int].1@);
            if !entries[i].1.is_sound() {
                proof {
                    lemma_entries_unsound(views, i as nat, views.len());
                }
                return false;
            }
            i += 1;
        }
        true
    }

    /// The plain text of the value: a number's digits, a string's
    /// characters, the name of anything named, and the items of an array or a
    /// dictionary between brackets.
    pub fn to_string(&self) -> (text: String)
        ensures
            text@ == value_text(self@, TextStyle::Plain),
    {
        self.render(TextStyle::Plain)
    }

    /// The name of the value's type.
    pub fn get_type(&self) -> (name: String)
        ensures
            name@ == type_text(self@),
    {
        match self {
            Value::Number(_) => String::from_str("number"),
            Value::String(_) => String::from_str("string"),
            Value::Boolean(_) => String::from_str("boolean"),
            Value::Nil => String::from_str("nil"),
            Value::Function(_, _, _) => String::from_str("function"),
            Value::AsyncFunction(_, _, _) => String::from_str("async function"),
            Value::NativeFunction(_) => String::from_str("native function"),
            Value::Class(_, _) => String::from_str("class"),
            Value::Instance(_, _) => String::from_str("instance"),
            Value::Array(_) => String::from_str("array"),
            Value::Dictionary(_) => String::from_str("dictionary"),
            Value::Socket(_) => String::from_str("socket"),
            Value::TlsSocket(_) => String::from_str("tls socket"),
            Value::Server(_) => String::from_str("server"),
            Value::Promise(_) => String::from_str("promise"),
        }
    }
}

} // verus!
