//! Laws of texts: numbers in decimal, white space, pieces and their order.

use crate::environment::{entry_pair, kept_entries, value_in};
use crate::text::{
    decimal, digits_value, expanded, index_from, is_blank, is_digit, is_white_space, joined, lower,
    parsed_unsigned, pieces, precedes, split_at_first, text_end, text_start, trimmed, without_plus,
};
use crate::tracing_layer::unquoted;
use vstd::arithmetic::power::{lemma_pow1, lemma_pow_adds, pow};
use vstd::prelude::*;

verus! {

/// In a number in decimal each digit counts ten times as much as the one to its right.
pub proof fn digits_count_by_tens(c: char, rest: Seq<char>)
    ensures
        digits_value(Seq::<char>::empty()) == 0,
        digits_value(seq![c] + rest) == (c as nat - '0' as nat) as nat * pow(10, rest.len())
            + digits_value(rest),
    decreases rest.len(),
{
    let s = seq![c] + rest;
    if rest.len() == 0 {
        assert(s.drop_last() =~= Seq::empty());
        assert(s.last() == c);
        vstd::arithmetic::power::lemma_pow0(10);
        assert(digits_value(rest) == 0);
        assert(digits_value(s.drop_last()) == 0);
        assert((c as nat - '0' as nat) as nat * 1 == (c as nat - '0' as nat) as nat);
    } else {
        digits_count_by_tens(c, rest.drop_last());
        assert(s.drop_last() =~= seq![c] + rest.drop_last());
        assert(s.last() == rest.last());
        let d = (c as nat - '0' as nat) as nat;
        let p = pow(10, (rest.len() - 1) as nat);
        lemma_pow1(10);
        lemma_pow_adds(10, 1, (rest.len() - 1) as nat);
        assert(pow(10, rest.len()) == 10 * p);
        assert((d * p + digits_value(rest.drop_last())) * 10 == d * (10 * p) + digits_value(
            rest.drop_last(),
        ) * 10) by (nonlinear_arith);
    }
}

/// A number is shown by digits alone, without a zero in front unless it is zero itself, and
/// they stand for that number.
pub proof fn shown_numbers_are_exact(n: nat)
    ensures
        decimal(n).len() > 0,
        forall|i: int| 0 <= i < decimal(n).len() ==> '0' <= #[trigger] decimal(n)[i] <= '9',
        n > 0 ==> decimal(n)[0] != '0',
        digits_value(decimal(n)) == n,
    decreases n,
{
    if n < 10 {
        assert(decimal(n).drop_last() =~= Seq::empty());
        assert(digits_value(decimal(n).drop_last()) == 0);
    } else {
        shown_numbers_are_exact(n / 10);
        let s = decimal(n);
        assert(s.drop_last() =~= decimal(n / 10));
        assert forall|i: int| 0 <= i < s.len() implies '0' <= #[trigger] s[i] <= '9' by {
            if i < s.len() - 1 {
                assert(s[i] == decimal(n / 10)[i]);
            }
        }
        assert(s[0] == decimal(n / 10)[0]);
    }
}

/// Digits are read as the number that they stand for if that is at most `max`, with or without
/// a plus sign before them; nothing else is read as a number.
pub proof fn numbers_are_read(digits: Seq<char>, max: nat)
    requires
        digits.len() > 0,
        forall|i: int| 0 <= i < digits.len() ==> '0' <= #[trigger] digits[i] <= '9',
    ensures
        parsed_unsigned(digits, max) == if digits_value(digits) <= max {
            Some(digits_value(digits))
        } else {
            None
        },
        parsed_unsigned(seq!['+'] + digits, max) == parsed_unsigned(digits, max),
{
    assert(digits[0] != '+');
    assert((seq!['+'] + digits).skip(1) =~= digits);
    assert((seq!['+'] + digits)[0] == '+');
    assert(forall|i: int| 0 <= i < digits.len() ==> is_digit(#[trigger] digits[i]));
}

/// A text with anything but digits after an optional plus sign, or without a digit, is no
/// number.
pub proof fn other_texts_are_no_numbers(s: Seq<char>, max: nat, k: int)
    requires
        s.len() == 0 || s == seq!['+'] || (0 <= k < s.len() && !('0' <= s[k] <= '9') && (s[k] != '+'
            || k > 0)),
    ensures
        parsed_unsigned(s, max) is None,
{
    let d = without_plus(s);
    if s.len() > 0 && s[0] == '+' {
        if s != seq!['+'] {
            assert(d[k - 1] == s[k]);
        }
    } else if s.len() > 0 {
        assert(d[k] == s[k]);
    }
}

proof fn start_is_first(s: Seq<char>, i: int)
    requires
        0 <= i <= s.len(),
    ensures
        i <= text_start(s, i) <= s.len(),
        forall|k: int| i <= k < text_start(s, i) ==> is_white_space(#[trigger] s[k]),
        text_start(s, i) < s.len() ==> !is_white_space(s[text_start(s, i)]),
    decreases s.len() - i,
{
    if i < s.len() && is_white_space(s[i]) {
        start_is_first(s, i + 1);
    }
}

proof fn end_is_last(s: Seq<char>, lo: int, j: int)
    requires
        0 <= lo <= j <= s.len(),
    ensures
        lo <= text_end(s, lo, j) <= j,
        forall|k: int| text_end(s, lo, j) <= k < j ==> is_white_space(#[trigger] s[k]),
        text_end(s, lo, j) > lo ==> !is_white_space(s[text_end(s, lo, j) - 1]),
    decreases j - lo,
{
    if lo < j && is_white_space(s[j - 1]) {
        end_is_last(s, lo, j - 1);
    }
}

/// Trimming takes away the white space at both ends and nothing else: what stays is a piece of
/// the text, all that was taken away is white space, and what stays neither starts nor ends
/// with white space.
pub proof fn trimming_takes_white_space_alone(s: Seq<char>) -> (ends: (int, int))
    ensures
        0 <= ends.0 <= ends.1 <= s.len(),
        trimmed(s) == s.subrange(ends.0, ends.1),
        forall|k: int| 0 <= k < ends.0 ==> is_white_space(#[trigger] s[k]),
        forall|k: int| ends.1 <= k < s.len() ==> is_white_space(#[trigger] s[k]),
        trimmed(s).len() > 0 ==> !is_white_space(trimmed(s)[0]) && !is_white_space(
            trimmed(s).last(),
        ),
        is_blank(s) <==> forall|k: int| 0 <= k < s.len() ==> is_white_space(#[trigger] s[k]),
{
    let lo = text_start(s, 0);
    start_is_first(s, 0);
    end_is_last(s, lo, s.len() as int);
    let hi = text_end(s, lo, s.len() as int);
    if is_blank(s) {
        assert(lo == hi);
    } else {
        assert(!is_white_space(s[lo]));
    }
    (lo, hi)
}

proof fn index_is_first(s: Seq<char>, c: char, i: int)
    requires
        0 <= i <= s.len(),
    ensures
        i <= index_from(s, c, i) <= s.len(),
        forall|k: int| i <= k < index_from(s, c, i) ==> #[trigger] s[k] != c,
        index_from(s, c, i) < s.len() ==> s[index_from(s, c, i)] == c,
    decreases s.len() - i,
{
    if i < s.len() && s[i] != c {
        index_is_first(s, c, i + 1);
    }
}

/// A text is split at the first place of a character: the parts around it make up the text,
/// and the first part does not hold it. A text without the character is not split.
pub proof fn texts_are_split_once(s: Seq<char>, c: char)
    ensures
        match split_at_first(s, c) {
            Some((a, b)) => s == a + seq![c] + b && !a.contains(c),
            None => !s.contains(c),
        },
{
    index_is_first(s, c, 0);
    let i = index_from(s, c, 0);
    if i < s.len() {
        assert(s =~= s.take(i) + seq![c] + s.skip(i + 1));
        assert forall|k: int| 0 <= k < s.take(i).len() implies s.take(i)[k] != c by {
            assert(s[k] != c);
        }
    }
}

/// An entry is split at its first mark into a key and a value, without the white space around
/// each; an entry without the mark is none.
pub proof fn entries_are_split_once(key: Seq<char>, value: Seq<char>, mark: char)
    requires
        !key.contains(mark),
    ensures
        entry_pair(key + seq![mark] + value, mark) == Some((trimmed(key), trimmed(value))),
        entry_pair(key, mark) is None,
{
    let s = key + seq![mark] + value;
    texts_are_split_once(s, mark);
    texts_are_split_once(key, mark);
    if let Some((x, y)) = split_at_first(key, mark) {
        assert(key[x.len() as int] == mark);
    }
    assert(s[key.len() as int] == mark);
    assert(s.contains(mark));
    let (a, b) = split_at_first(s, mark)->0;
    if a.len() < key.len() {
        assert(s[a.len() as int] == mark);
        assert(key[a.len() as int] == mark);
    } else if a.len() > key.len() {
        assert(a[key.len() as int] == mark);
    }
    assert(a =~= key) by {
        assert forall|k: int| 0 <= k < a.len() implies a[k] == key[k] by {
            assert(s[k] == a[k]);
        }
    }
    assert(b =~= value) by {
        assert forall|k: int| 0 <= k < b.len() implies b[k] == value[k] by {
            assert(s[key.len() + 1 + k] == b[k]);
        }
    }
}

/// Parts are joined by putting the separator before each but the first.
pub proof fn parts_are_joined(parts: Seq<Seq<char>>, sep: Seq<char>)
    ensures
        parts.len() == 0 ==> joined(parts, sep) == Seq::<char>::empty(),
        parts.len() > 0 ==> joined(parts, sep) == parts[0] + parts.skip(1).map_values(
            |p: Seq<char>| sep + p,
        ).flatten(),
    decreases parts.len(),
{
    let f = |p: Seq<char>| sep + p;
    if parts.len() == 1 {
        assert(parts.skip(1).map_values(f) =~= Seq::empty());
        assert(parts[0] + Seq::<char>::empty() =~= parts[0]);
    } else if parts.len() > 1 {
        let front = parts.drop_last();
        parts_are_joined(front, sep);
        assert(parts.skip(1).drop_last() =~= front.skip(1));
        crate::laws::lists::flat_images_grow(parts.skip(1), f);
        let tail = front.skip(1).map_values(f).flatten();
        assert((parts[0] + tail) + sep + parts.last() =~= parts[0] + (tail + (sep
            + parts.last())));
    }
}

/// The pieces of a text around a separator: joined by it they make up the text, and none of
/// them holds it.
pub proof fn pieces_make_up_the_text(s: Seq<char>, c: char)
    ensures
        pieces(s, c).len() > 0,
        joined(pieces(s, c), seq![c]) == s,
        forall|i: int| 0 <= i < pieces(s, c).len() ==> !(#[trigger] pieces(s, c)[i]).contains(c),
    decreases s.len(),
{
    let all = pieces(s, c);
    if s.len() == 0 {
        assert(all =~= seq![Seq::empty()]);
        assert(joined(all, seq![c]) =~= s);
    } else {
        let front = pieces(s.drop_last(), c);
        pieces_make_up_the_text(s.drop_last(), c);
        assert(s =~= s.drop_last().push(s.last()));
        if s.last() == c {
            assert(all.drop_last() =~= front);
            assert(joined(all, seq![c]) == joined(front, seq![c]) + seq![c] + Seq::empty());
            assert(joined(all, seq![c]) =~= s);
            assert forall|i: int| 0 <= i < all.len() implies !(#[trigger] all[i]).contains(c) by {
                if i < front.len() {
                    assert(all[i] == front[i]);
                }
            }
        } else {
            assert(all.drop_last() =~= front.drop_last());
            assert(all.last() == front.last().push(s.last()));
            if front.len() == 1 {
                assert(joined(front, seq![c]) == front[0]);
                assert(joined(all, seq![c]) == all[0]);
                assert(joined(all, seq![c]) =~= s);
            } else {
                let head = joined(front.drop_last(), seq![c]);
                assert(joined(front, seq![c]) == head + seq![c] + front.last());
                assert(joined(all, seq![c]) == head + seq![c] + all.last());
                assert(joined(all, seq![c]) =~= s);
            }
            assert forall|i: int| 0 <= i < all.len() implies !(#[trigger] all[i]).contains(c) by {
                if i < front.len() - 1 {
                    assert(all[i] == front[i]);
                } else {
                    assert(!front[front.len() - 1].contains(c));
                    let last = front.last();
                    assert forall|k: int| 0 <= k < all[i].len() implies all[i][k] != c by {
                        if k < last.len() {
                            assert(last.contains(last[k]));
                        }
                    }
                }
            }
        }
    }
}

/// A list keeps what is not blank of its parts, trimmed, in order.
pub proof fn filled_entries_are_kept(parts: Seq<Seq<char>>)
    ensures
        kept_entries(parts) == parts.map_values(|p: Seq<char>| trimmed(p)).filter(
            |p: Seq<char>| p.len() > 0,
        ),
    decreases parts.len(),
{
    let images = parts.map_values(|p: Seq<char>| trimmed(p));
    reveal(Seq::filter);
    if parts.len() == 0 {
        assert(images =~= Seq::empty());
    } else {
        filled_entries_are_kept(parts.drop_last());
        assert(images.drop_last() =~= parts.drop_last().map_values(|p: Seq<char>| trimmed(p)));
    }
}

/// A variable has the value of its first entry, and none without an entry.
pub proof fn first_entry_gives_the_value(
    vars: Seq<(Seq<char>, Seq<char>)>,
    name: Seq<char>,
    k: int,
)
    ensures
        0 <= k < vars.len() && vars[k].0 == name && (forall|j: int|
            0 <= j < k ==> (#[trigger] vars[j]).0 != name) ==> value_in(vars, name) == Some(
            vars[k].1,
        ),
        (forall|j: int| 0 <= j < vars.len() ==> (#[trigger] vars[j]).0 != name) ==> value_in(
            vars,
            name,
        ) is None,
    decreases vars.len(),
{
    if vars.len() > 0 {
        let rest = vars.drop_first();
        first_entry_gives_the_value(rest, name, k - 1);
        assert(forall|j: int| 0 <= j < rest.len() ==> #[trigger] rest[j] == vars[j + 1]);
        if forall|j: int| 0 <= j < vars.len() ==> (#[trigger] vars[j]).0 != name {
            assert forall|j: int| 0 <= j < rest.len() implies (#[trigger] rest[j]).0 != name by {
                assert(vars[j + 1].0 != name);
            }
        }
        if 0 < k < vars.len() && (forall|j: int| 0 <= j < k ==> (#[trigger] vars[j]).0 != name) {
            assert forall|j: int| 0 <= j < k - 1 implies (#[trigger] rest[j]).0 != name by {
                assert(vars[j + 1].0 != name);
            }
        }
    }
}

/// Of two different texts that one comes first which ends first, or which has the smaller
/// character where they first differ.
pub proof fn order_is_that_of_a_dictionary(a: Seq<char>, b: Seq<char>, k: int)
    requires
        0 <= k <= a.len(),
        k <= b.len(),
        a.take(k) == b.take(k),
    ensures
        k == a.len() && k < b.len() ==> precedes(a, b),
        k == b.len() ==> !precedes(a, b),
        k < a.len() && k < b.len() && a[k] != b[k] ==> (precedes(a, b) <==> a[k] < b[k]),
    decreases k,
{
    if k > 0 {
        assert(a[0] == a.take(k)[0]);
        assert(b[0] == b.take(k)[0]);
        let x = a.skip(1);
        let y = b.skip(1);
        assert(x.take(k - 1) =~= y.take(k - 1)) by {
            assert forall|i: int| 0 <= i < k - 1 implies x[i] == y[i] by {
                assert(a.take(k)[i + 1] == a[i + 1]);
                assert(b.take(k)[i + 1] == b[i + 1]);
            }
        }
        order_is_that_of_a_dictionary(x, y, k - 1);
    }
}

/// Replacing the characters of a text one by one puts the replacements in a row.
pub proof fn replacements_stand_in_a_row(s: Seq<char>, f: spec_fn(char) -> Seq<char>)
    ensures
        expanded(s, f) == s.map_values(f).flatten(),
    decreases s.len(),
{
    if s.len() > 0 {
        replacements_stand_in_a_row(s.drop_last(), f);
        crate::laws::lists::flat_images_grow(s, f);
    }
}

/// Small letters take the place of capital ones, thirty-two further on; every other character
/// stays.
pub proof fn letters_become_small(s: Seq<char>, i: int)
    requires
        0 <= i < s.len(),
    ensures
        lower(s).len() == s.len(),
        'A' <= s[i] <= 'Z' ==> lower(s)[i] as u32 == s[i] as u32 + 32,
        !('A' <= s[i] <= 'Z') ==> lower(s)[i] == s[i],
{
}

/// The quotes around a text are taken away, and a text without them stays as it is.
pub proof fn quotes_are_taken_away(s: Seq<char>)
    ensures
        unquoted(seq!['"'] + s + seq!['"']) == s,
        s.len() < 2 || s[0] != '"' || s.last() != '"' ==> unquoted(s) == s,
{
    assert((seq!['"'] + s + seq!['"']).subrange(1, s.len() as int + 1) =~= s);
}

} // verus!
