//! Sound values stay sound: what the library makes of values that are of
//! the language is of the language.

use vstd::prelude::*;

use crate::interpreter::environment::{
    entry_value,
    ScopeView,
};
use crate::interpreter::native::{NativeFunctionView, NativeOutcomeView};
use crate::interpreter::native_functions::native_outcome;
use crate::interpreter::value::{
    digits_end,
    distinct_names,
    entries_sound,
    find_entry,
    is_decimal_digit,
    is_number_text,
    is_numeral,
    items_sound,
    lemma_find_entry,
    lemma_with_entry_distinct,
    negated_number,
    sound,
    with_entry,
    ValueView,
};
use crate::text::{decimal_text, digit_char};

verus! {

// ---------------------------------------------------------------------------
// Numbers
// ---------------------------------------------------------------------------

pub proof fn lemma_digits_end_all(text: Seq<char>, from: int)
    requires
        0 <= from <= text.len(),
        forall|k: int| from <= k < text.len() ==> is_decimal_digit(#[trigger] text[k]),
    ensures
        digits_end(text, from) == text.len(),
    decreases text.len() - from,
{
    if from < text.len() {
        assert(is_decimal_digit(text[from]));
        lemma_digits_end_all(text, from + 1);
    }
}

pub proof fn lemma_digits_end_bounds(text: Seq<char>, from: int)
    requires
        0 <= from <= text.len(),
    ensures
        from <= digits_end(text, from) <= text.len(),
        forall|k: int| from <= k < digits_end(text, from) ==> is_decimal_digit(#[trigger] text[k]),
    decreases text.len() - from,
{
    if from < text.len() && is_decimal_digit(text[from]) {
        lemma_digits_end_bounds(text, from + 1);
    }
}

/// The digits of a text behind a minus sign end where they end without it.
pub proof fn lemma_digits_end_behind_sign(text: Seq<char>, from: int)
    requires
        0 <= from <= text.len(),
    ensures
        digits_end(seq!['-'] + text, from + 1) == digits_end(text, from) + 1,
    decreases text.len() - from,
{
    let signed = seq!['-'] + text;
    if from < text.len() {
        assert(signed[from + 1] == text[from]);
        if is_decimal_digit(text[from]) {
            lemma_digits_end_behind_sign(text, from + 1);
        }
    }
}

pub proof fn lemma_decimal_digits(n: nat)
    ensures
        decimal_text(n).len() >= 1,
        n < 10 ==> decimal_text(n).len() == 1,
        forall|k: int| 0 <= k < decimal_text(n).len() ==> is_decimal_digit(
            #[trigger] decimal_text(n)[k],
        ),
        n >= 10 ==> decimal_text(n)[0] != '0',
    decreases n,
{
    if n >= 10 {
        lemma_decimal_digits(n / 10);
        let shorter = decimal_text(n / 10);
        let all = decimal_text(n);
        assert(all == shorter.push(digit_char(n % 10)));
        assert(all[0] == shorter[0]);
        assert forall|k: int| 0 <= k < all.len() implies is_decimal_digit(#[trigger] all[k]) by {
            if k < shorter.len() {
                assert(all[k] == shorter[k]);
            }
        }
    }
}

/// The decimal numeral of a count is a number as the host prints it.
pub proof fn lemma_decimal_is_number_text(n: nat)
    ensures
        is_number_text(decimal_text(n)),
{
    lemma_decimal_digits(n);
    let text = decimal_text(n);
    assert(is_decimal_digit(text[0]));
    lemma_digits_end_all(text, 0);
    assert(is_numeral(text));
}

/// The texts that stand for true and false as numbers are numbers.
pub proof fn lemma_truth_numbers()
    ensures
        is_number_text("1"@),
        is_number_text("0"@),
{
    reveal_strlit("1");
    reveal_strlit("0");
    let one = "1"@;
    let zero = "0"@;
    assert(is_decimal_digit(one[0]));
    assert(is_decimal_digit(zero[0]));
    lemma_digits_end_all(one, 0);
    lemma_digits_end_all(zero, 0);
    assert(is_numeral(one));
    assert(is_numeral(zero));
}

/// The number with the opposite sign is a number.
pub proof fn lemma_negated_is_number_text(text: Seq<char>)
    requires
        is_number_text(text),
    ensures
        is_number_text(negated_number(text)),
{
    reveal_strlit("NaN");
    reveal_strlit("inf");
    reveal_strlit("-inf");
    let negated = negated_number(text);
    if text == "NaN"@ {
    } else if text == "inf"@ {
        assert(negated =~= "-inf"@);
    } else if text == "-inf"@ {
        assert(negated =~= "inf"@);
    } else {
        assert(is_numeral(text));
        if text.len() > 0 && text[0] == '-' {
            let bare = text.subrange(1, text.len() as int);
            assert(negated == bare);
            assert(text =~= seq!['-'] + bare);
            lemma_digits_end_behind_sign(bare, 0);
            lemma_digits_end_bounds(text, 1);
            let end = digits_end(bare, 0);
            assert(end == digits_end(text, 1) - 1);
            assert(bare[0] == text[1]);
            assert(is_decimal_digit(text[1]));
            if end < bare.len() {
                lemma_digits_end_behind_sign(bare, end + 1);
                assert(bare[end] == text[end + 1]);
                assert(bare[bare.len() - 1] == text[text.len() - 1]);
            }
            assert(is_numeral(bare));
        } else {
            let signed = seq!['-'] + text;
            assert(negated == signed);
            lemma_digits_end_behind_sign(text, 0);
            lemma_digits_end_bounds(text, 0);
            let end = digits_end(text, 0);
            assert(signed[0] == '-');
            assert(signed[1] == text[0]);
            if end < text.len() {
                lemma_digits_end_behind_sign(text, end + 1);
                assert(signed[end + 1] == text[end]);
                assert(signed[signed.len() - 1] == text[text.len() - 1]);
            }
            assert(is_numeral(signed));
        }
    }
}

// ---------------------------------------------------------------------------
// Arrays
// ---------------------------------------------------------------------------

/// Whether every item is sound.
pub open spec fn all_sound(items: Seq<ValueView>) -> bool {
    items_sound(items, items.len())
}

pub proof fn lemma_items_agree(a: Seq<ValueView>, b: Seq<ValueView>, n: nat)
    requires
        n <= a.len(),
        n <= b.len(),
        forall|k: int| 0 <= k < n ==> a[k] == b[k],
    ensures
        items_sound(a, n) == items_sound(b, n),
    decreases n,
{
    if n > 0 {
        lemma_items_agree(a, b, (n - 1) as nat);
    }
}

pub proof fn lemma_item_sound(items: Seq<ValueView>, n: nat, k: int)
    requires
        0 <= k < n <= items.len(),
        items_sound(items, n),
    ensures
        sound(items[k]),
    decreases n,
{
    if k < n - 1 {
        lemma_item_sound(items, (n - 1) as nat, k);
    }
}

pub proof fn lemma_items_all(items: Seq<ValueView>, n: nat)
    requires
        n <= items.len(),
        forall|k: int| 0 <= k < n ==> sound(#[trigger] items[k]),
    ensures
        items_sound(items, n),
    decreases n,
{
    if n > 0 {
        lemma_items_all(items, (n - 1) as nat);
    }
}

/// Sound items with a sound item behind them are sound items.
pub proof fn lemma_push_sound(items: Seq<ValueView>, item: ValueView)
    requires
        all_sound(items),
        sound(item),
    ensures
        all_sound(items.push(item)),
{
    let all = items.push(item);
    assert forall|k: int| 0 <= k < all.len() implies sound(#[trigger] all[k]) by {
        if k < items.len() {
            lemma_item_sound(items, items.len(), k);
        }
    }
    lemma_items_all(all, all.len());
}

/// Sound items followed by sound items are sound items.
pub proof fn lemma_concat_sound(first: Seq<ValueView>, second: Seq<ValueView>)
    requires
        all_sound(first),
        all_sound(second),
    ensures
        all_sound(first + second),
{
    let all = first + second;
    assert forall|k: int| 0 <= k < all.len() implies sound(#[trigger] all[k]) by {
        if k < first.len() {
            lemma_item_sound(first, first.len(), k);
        } else {
            lemma_item_sound(second, second.len(), k - first.len());
        }
    }
    lemma_items_all(all, all.len());
}

/// Sound items of which one is replaced by a sound item are sound items.
pub proof fn lemma_update_sound(items: Seq<ValueView>, i: int, item: ValueView)
    requires
        0 <= i < items.len(),
        all_sound(items),
        sound(item),
    ensures
        all_sound(items.update(i, item)),
{
    let all = items.update(i, item);
    assert forall|k: int| 0 <= k < all.len() implies sound(#[trigger] all[k]) by {
        if k != i {
            lemma_item_sound(items, items.len(), k);
        }
    }
    lemma_items_all(all, all.len());
}

// ---------------------------------------------------------------------------
// Dictionaries and method tables
// ---------------------------------------------------------------------------

/// Whether the names are distinct and every value is sound.
pub open spec fn table_sound(entries: Seq<(Seq<char>, ValueView)>) -> bool {
    distinct_names(entries) && entries_sound(entries, entries.len())
}

pub proof fn lemma_entry_sound(entries: Seq<(Seq<char>, ValueView)>, n: nat, k: int)
    requires
        0 <= k < n <= entries.len(),
        entries_sound(entries, n),
    ensures
        sound(entries[k].1),
    decreases n,
{
    if k < n - 1 {
        lemma_entry_sound(entries, (n - 1) as nat, k);
    }
}

pub proof fn lemma_entries_all(entries: Seq<(Seq<char>, ValueView)>, n: nat)
    requires
        n <= entries.len(),
        forall|k: int| 0 <= k < n ==> sound((#[trigger] entries[k]).1),
    ensures
        entries_sound(entries, n),
    decreases n,
{
    if n > 0 {
        lemma_entries_all(entries, (n - 1) as nat);
    }
}

/// A sound value bound in sound entries leaves sound entries.
pub proof fn lemma_with_entry_sound(
    entries: Seq<(Seq<char>, ValueView)>,
    name: Seq<char>,
    value: ValueView,
)
    requires
        entries_sound(entries, entries.len()),
        sound(value),
    ensures
        entries_sound(with_entry(entries, name, value), with_entry(entries, name, value).len()),
{
    let after = with_entry(entries, name, value);
    lemma_find_entry(entries, name, 0);
    assert forall|k: int| 0 <= k < after.len() implies sound((#[trigger] after[k]).1) by {
        if k < entries.len() && after[k] == entries[k] {
            lemma_entry_sound(entries, entries.len(), k);
        }
    }
    lemma_entries_all(after, after.len());
}

/// A sound value bound in a sound table leaves a sound table.
pub proof fn lemma_with_entry_table(
    entries: Seq<(Seq<char>, ValueView)>,
    name: Seq<char>,
    value: ValueView,
)
    requires
        table_sound(entries),
        sound(value),
    ensures
        table_sound(with_entry(entries, name, value)),
{
    lemma_with_entry_distinct(entries, name, value);
    lemma_with_entry_sound(entries, name, value);
}

/// What sound entries bind a name to is sound.
pub proof fn lemma_entry_value_sound(entries: Seq<(Seq<char>, ValueView)>, name: Seq<char>)
    requires
        entries_sound(entries, entries.len()),
    ensures
        entry_value(entries, name) matches Some(value) ==> sound(value),
{
    lemma_find_entry(entries, name, 0);
    match find_entry(entries, name, 0) {
        Some(i) => {
            lemma_entry_sound(entries, entries.len(), i);
        },
        None => {},
    }
}

// ---------------------------------------------------------------------------
// Natives
// ---------------------------------------------------------------------------

/// What a native makes of sound arguments is sound.
pub proof fn lemma_native_value_sound(
    native: NativeFunctionView,
    args: Seq<ValueView>,
    scopes: Seq<ScopeView>,
)
    requires
        all_sound(args),
    ensures
        native_outcome(native, args, scopes) matches NativeOutcomeView::Value(value) ==> sound(
            value,
        ),
{
    lemma_truth_numbers();
    match native_outcome(native, args, scopes) {
        NativeOutcomeView::Value(value) => {
            assert(args.len() >= 1 ==> sound(args[0])) by {
                if args.len() >= 1 {
                    lemma_item_sound(args, args.len(), 0);
                }
            }
            assert(args.len() >= 2 ==> sound(args[1])) by {
                if args.len() >= 2 {
                    lemma_item_sound(args, args.len(), 1);
                }
            }
            match value {
                ValueView::Number(text) => {
                    match args[0] {
                        ValueView::String(s) => {
                            lemma_decimal_is_number_text(s.len());
                        },
                        ValueView::Array(items) => {
                            lemma_decimal_is_number_text(items.len());
                        },
                        ValueView::Dictionary(entries) => {
                            lemma_decimal_is_number_text(entries.len());
                        },
                        _ => {},
                    }
                },
                ValueView::Array(items) => {
                    match (args[0], args[1]) {
                        (ValueView::Array(first), ValueView::Array(second)) => {
                            lemma_concat_sound(first, second);
                        },
                        _ => {},
                    }
                },
                _ => {},
            }
        },
        _ => {},
    }
}

} // verus!
