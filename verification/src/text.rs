//! Building blocks for text: character classes, slices of character
//! vectors and decimal numerals.

use vstd::prelude::*;

verus! {

/// `String::push` appends exactly one character to the end of the string.
pub assume_specification[ std::string::String::push ](s: &mut std::string::String, c: char)
    ensures
        final(s)@ == old(s)@.push(c),
;

/// The characters of `input`, in order.
pub fn to_chars(input: &str) -> (chars: Vec<char>)
    ensures
        chars@ == input@,
{
    let mut chars: Vec<char> = Vec::new();
    for c in it: input.chars()
        invariant
            chars@ == it.seq().take(it.index()),
            it.seq() == input@,
    {
        chars.push(c);
    }
    chars
}

/// The text made of `chars[from..to]`.
pub fn text_of(chars: &Vec<char>, from: usize, to: usize) -> (text: String)
    requires
        from <= to <= chars.len(),
    ensures
        text@ == chars@.subrange(from as int, to as int),
{
    let mut text = String::new();
    let mut i: usize = from;
    while i < to
        invariant
            from <= i <= to <= chars.len(),
            text@ == chars@.subrange(from as int, i as int),
        decreases to - i,
    {
        text.push(chars[i]);
        i += 1;
        assert(chars@.subrange(from as int, i as int) == chars@.subrange(from as int, i - 1).push(chars@[i - 1]));
    }
    text
}

/// Appends `chars[from..to]` to `text`.
pub fn push_range(text: &mut String, chars: &Vec<char>, from: usize, to: usize)
    requires
        from <= to <= chars.len(),
    ensures
        final(text)@ == old(text)@ + chars@.subrange(from as int, to as int),
{
    let mut i: usize = from;
    while i < to
        invariant
            from <= i <= to <= chars.len(),
            text@ == old(text)@ + chars@.subrange(from as int, i as int),
        decreases to - i,
    {
        text.push(chars[i]);
        i += 1;
        assert(chars@.subrange(from as int, i as int) == chars@.subrange(from as int, i - 1).push(
            chars@[i - 1],
        ));
    }
}

/// Whether `chars[from..to]` spells `word`.
pub fn spells(chars: &Vec<char>, from: usize, to: usize, word: &str) -> (same: bool)
    requires
        from <= to <= chars.len(),
    ensures
        same == (chars@.subrange(from as int, to as int) == word@),
{
    let n = word.unicode_len();
    if to - from != n {
        return false;
    }
    let mut i: usize = 0;
    while i < n
        invariant
            from <= to <= chars.len(),
            n == to - from,
            n == word@.len(),
            i <= n,
            forall|k: int| 0 <= k < i ==> chars@[from + k] == word@[k],
        decreases n - i,
    {
        if chars[from + i] != word.get_char(i) {
            assert(chars@.subrange(from as int, to as int)[i as int] != word@[i as int]);
            return false;
        }
        i += 1;
    }
    assert(chars@.subrange(from as int, to as int) =~= word@);
    true
}

/// Whether the two texts are the same.
pub fn same_text(a: &str, b: &str) -> (same: bool)
    ensures
        same == (a@ == b@),
{
    let n = a.unicode_len();
    if b.unicode_len() != n {
        return false;
    }
    let mut i: usize = 0;
    while i < n
        invariant
            n == a@.len(),
            n == b@.len(),
            i <= n,
            forall|k: int| 0 <= k < i ==> a@[k] == b@[k],
        decreases n - i,
    {
        if a.get_char(i) != b.get_char(i) {
            return false;
        }
        i += 1;
    }
    assert(a@ =~= b@);
    true
}

/// The decimal digit for `d`.
pub open spec fn digit_char(d: nat) -> char {
    if d == 0 {
        '0'
    } else if d == 1 {
        '1'
    } else if d == 2 {
        '2'
    } else if d == 3 {
        '3'
    } else if d == 4 {
        '4'
    } else if d == 5 {
        '5'
    } else if d == 6 {
        '6'
    } else if d == 7 {
        '7'
    } else if d == 8 {
        '8'
    } else {
        '9'
    }
}

/// The decimal numeral of `n`, without leading zeros.
pub open spec fn decimal_text(n: nat) -> Seq<char>
    decreases n,
{
    if n < 10 {
        seq![digit_char(n)]
    } else {
        decimal_text(n / 10).push(digit_char(n % 10))
    }
}

fn digit(d: usize) -> (c: char)
    requires
        d < 10,
    ensures
        c == digit_char(d as nat),
{
    if d == 0 {
        '0'
    } else if d == 1 {
        '1'
    } else if d == 2 {
        '2'
    } else if d == 3 {
        '3'
    } else if d == 4 {
        '4'
    } else if d == 5 {
        '5'
    } else if d == 6 {
        '6'
    } else if d == 7 {
        '7'
    } else if d == 8 {
        '8'
    } else {
        '9'
    }
}

/// Appends the decimal numeral of `n` to `text`.
pub fn push_decimal(text: &mut String, n: usize)
    ensures
        final(text)@ == old(text)@ + decimal_text(n as nat),
    decreases n,
{
    if n < 10 {
        text.push(digit(n));
        assert(text@ =~= old(text)@ + decimal_text(n as nat));
    } else {
        push_decimal(text, n / 10);
        text.push(digit(n % 10));
        assert(text@ =~= old(text)@ + decimal_text(n as nat));
    }
}

/// The decimal numeral of `n`.
pub fn decimal(n: usize) -> (text: String)
    ensures
        text@ == decimal_text(n as nat),
{
    let mut text = String::new();
    push_decimal(&mut text, n);
    assert(text@ =~= decimal_text(n as nat));
    text
}

} // verus!
