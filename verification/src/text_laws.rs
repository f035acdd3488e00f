//! What holds of the operations on texts, said of characters and positions.

use crate::text;
use vstd::prelude::*;

verus! {

/// A list of strings and its texts agree position by position.
pub proof fn law_texts_keep_positions(list: Seq<String>, i: int)
    requires
        0 <= i < list.len(),
    ensures
        text::texts(list).len() == list.len(),
        text::texts(list)[i] == list[i]@,
{
}

/// Splitting undoes joining: what stands before and after the first `c` comes
/// back, whatever follows it.
pub proof fn law_split_undoes_join(before: Seq<char>, c: char, after: Seq<char>)
    requires
        !before.contains(c),
    ensures
        text::split_first(before + seq![c] + after, c) == Some((before, after)),
{
    let all = before + seq![c] + after;
    let n = before.len() as int;
    assert forall|j: int| 0 <= j < n implies all[j] != c by {
        assert(all[j] == before[j]);
        assert(before.contains(before[j]));
    }
    text::lemma_first_index(all, c, n);
    assert(all.take(n) =~= before);
    assert(all.skip(n + 1) =~= after);
}

/// Joining undoes splitting, and a text is left whole exactly when it does not
/// hold the character.
pub proof fn law_join_undoes_split(whole: Seq<char>, c: char)
    ensures
        text::split_first(whole, c) is None <==> !whole.contains(c),
        text::split_first(whole, c) matches Some(parts) ==> whole == parts.0 + seq![c] + parts.1
            && !parts.0.contains(c),
{
    whole.index_of_first_ensures(c);
    if let Some(parts) = text::split_first(whole, c) {
        assert(whole =~= parts.0 + seq![c] + parts.1);
    }
}

/// Of the ASCII characters, the space and the five controls from the tab to the
/// carriage return are white space, and no other is. Beyond ASCII, nineteen
/// code points are: the next line and the no-break space, the Ogham space, the
/// eleven spaces from the en quad to the hair space, the line and the paragraph
/// separator, the narrow no-break space, the mathematical space and the
/// ideographic space.
pub proof fn law_white_space_by_code_point(c: char, code: int)
    requires
        code == c as int,
    ensures
        code <= 0x7f ==> (text::is_white_space(c) <==> code == 0x20 || 0x9 <= code <= 0xd),
        0x7f < code <= 0x1fff ==> (text::is_white_space(c) <==> code == 0x85 || code == 0xa0 || code
            == 0x1680),
        0x1fff < code ==> (text::is_white_space(c) <==> code <= 0x200a || code == 0x2028 || code
            == 0x2029 || code == 0x202f || code == 0x205f || code == 0x3000),
{
}

/// Trimming removes white space only, and all of it that stands at an end: from
/// a text framed in white space it gives the text, whatever the frame.
pub proof fn law_trim_removes_the_frame(front: Seq<char>, core: Seq<char>, back: Seq<char>)
    requires
        forall|i: int| 0 <= i < front.len() ==> text::is_white_space(#[trigger] front[i]),
        forall|i: int| 0 <= i < back.len() ==> text::is_white_space(#[trigger] back[i]),
        core.len() > 0,
        !text::is_white_space(core[0]),
        !text::is_white_space(core[core.len() - 1]),
    ensures
        text::trimmed(front + core + back) == core,
{
    let all = front + core + back;
    let n = front.len() as int;
    assert forall|j: int| 0 <= j < n implies text::is_white_space(#[trigger] all[j]) by {
        assert(all[j] == front[j]);
    }
    assert(all[n] == core[0]);
    text::lemma_trim_front(all, n);
    let rest = all.skip(n);
    let m = core.len() as int;
    assert forall|j: int| m <= j < rest.len() implies text::is_white_space(#[trigger] rest[j]) by {
        assert(rest[j] == back[j - m]);
    }
    assert(rest[m - 1] == core[m - 1]);
    text::lemma_trim_back(rest, m);
    assert(rest.take(m) =~= core);
}

/// A text of nothing but white space is trimmed to nothing.
pub proof fn law_trim_empties_white_space(blank: Seq<char>)
    requires
        forall|i: int| 0 <= i < blank.len() ==> text::is_white_space(#[trigger] blank[i]),
    ensures
        text::trimmed(blank) == Seq::<char>::empty(),
{
    text::lemma_trim_front(blank, blank.len() as int);
    assert(blank.skip(blank.len() as int) =~= Seq::<char>::empty());
}

/// What trimming leaves is one stretch of the text, all that is cut off on
/// either side is white space, and what is left neither begins nor ends with
/// it. The bounds of the stretch are returned.
pub proof fn law_trim_cuts_white_space_only(whole: Seq<char>) -> (bounds: (int, int))
    ensures
        0 <= bounds.0 <= bounds.1 <= whole.len(),
        text::trimmed(whole) == whole.subrange(bounds.0, bounds.1),
        forall|i: int| 0 <= i < bounds.0 ==> text::is_white_space(#[trigger] whole[i]),
        forall|i: int| bounds.1 <= i < whole.len() ==> text::is_white_space(#[trigger] whole[i]),
        bounds.0 < bounds.1 ==> !text::is_white_space(whole[bounds.0]) && !text::is_white_space(
            whole[bounds.1 - 1],
        ),
{
    let from = lemma_front_end(whole);
    text::lemma_trim_front(whole, from);
    let rest = whole.skip(from);
    let to = lemma_back_end(rest);
    text::lemma_trim_back(rest, to);
    assert(rest.take(to) =~= whole.subrange(from, from + to));
    assert forall|i: int| from + to <= i < whole.len() implies text::is_white_space(
        #[trigger] whole[i],
    ) by {
        assert(whole[i] == rest[i - from]);
    }
    if to > 0 {
        assert(rest[to - 1] == whole[from + to - 1]);
    }
    (from, from + to)
}

proof fn lemma_front_end(whole: Seq<char>) -> (from: int)
    ensures
        0 <= from <= whole.len(),
        forall|i: int| 0 <= i < from ==> text::is_white_space(#[trigger] whole[i]),
        from < whole.len() ==> !text::is_white_space(whole[from]),
    decreases whole.len(),
{
    if whole.len() == 0 || !text::is_white_space(whole[0]) {
        0
    } else {
        let rest = whole.skip(1);
        let k = lemma_front_end(rest);
        assert forall|i: int| 0 <= i < k + 1 implies text::is_white_space(#[trigger] whole[i]) by {
            if i > 0 {
                assert(whole[i] == rest[i - 1]);
            }
        }
        k + 1
    }
}

proof fn lemma_back_end(whole: Seq<char>) -> (to: int)
    ensures
        0 <= to <= whole.len(),
        forall|i: int| to <= i < whole.len() ==> text::is_white_space(#[trigger] whole[i]),
        to > 0 ==> !text::is_white_space(whole[to - 1]),
    decreases whole.len(),
{
    if whole.len() == 0 || !text::is_white_space(whole[whole.len() - 1]) {
        whole.len() as int
    } else {
        let rest = whole.take(whole.len() - 1);
        let k = lemma_back_end(rest);
        assert forall|i: int| k <= i < whole.len() implies text::is_white_space(#[trigger] whole[i]) by {
            if i < rest.len() {
                assert(whole[i] == rest[i]);
            }
        }
        if k > 0 {
            assert(rest[k - 1] == whole[k - 1]);
        }
        k
    }
}

/// A text without the separator is one piece.
pub proof fn law_no_separator_one_piece(whole: Seq<char>, c: char)
    requires
        !whole.contains(c),
    ensures
        text::pieces(whole, c) == seq![whole],
{
    whole.index_of_first_ensures(c);
}

/// Cutting goes separator by separator: the pieces of two texts with a
/// separator between them are those of the first followed by those of the
/// second.
pub proof fn law_pieces_concatenate(a: Seq<char>, c: char, b: Seq<char>)
    ensures
        text::pieces(a + seq![c] + b, c) == text::pieces(a, c) + text::pieces(b, c),
    decreases a.len(),
{
    a.index_of_first_ensures(c);
    let whole = a + seq![c] + b;
    match text::split_first(a, c) {
        Some((before, after)) => {
            assert(!before.contains(c));
            assert(a =~= before + seq![c] + after);
            assert(whole =~= before + seq![c] + (after + seq![c] + b));
            law_split_undoes_join(before, c, after + seq![c] + b);
            law_pieces_concatenate(after, c, b);
            assert(text::pieces(whole, c) =~= text::pieces(a, c) + text::pieces(b, c));
        },
        None => {
            law_split_undoes_join(a, c, b);
            assert(text::pieces(whole, c) =~= text::pieces(a, c) + text::pieces(b, c));
        },
    }
}

/// A single digit is a number by itself.
pub proof fn law_digit_is_a_number(d: char, max: nat)
    requires
        '0' <= d <= '9',
    ensures
        text::unsigned_value(seq![d], max) == if d as int - 48 <= max {
            Some((d as int - 48) as nat)
        } else {
            None
        },
{
    reveal_with_fuel(text::decimal_value, 2);
    assert(seq![d].drop_last() =~= Seq::<char>::empty());
}

/// A digit at the end of a number multiplies it by ten and adds itself, as long
/// as the limit allows.
pub proof fn law_digit_extends_a_number(number: Seq<char>, d: char, max: nat)
    requires
        text::unsigned_value(number, max) is Some,
        '0' <= d <= '9',
    ensures
        ({
            let next = 10 * text::unsigned_value(number, max)->0 + (d as int - 48);
            text::unsigned_value(number.push(d), max) == if next <= max {
                Some(next as nat)
            } else {
                None
            }
        }),
{
    let digits = text::unsigned_digits(number);
    assert(text::unsigned_digits(number.push(d)) =~= digits.push(d));
    assert(digits.push(d).drop_last() =~= digits);
    assert forall|i: int| 0 <= i < digits.push(d).len() implies '0' <= #[trigger] digits.push(
        d,
    )[i] <= '9' by {
        if i < digits.len() {
            assert(digits.push(d)[i] == digits[i]);
        }
    }
}

/// A number that is beyond the limit stays beyond it with a further digit.
pub proof fn law_overflow_stays(digits: Seq<char>, d: char, max: nat)
    requires
        digits.len() > 0,
        forall|i: int| 0 <= i < digits.len() ==> '0' <= #[trigger] digits[i] <= '9',
        text::unsigned_value(digits, max) is None,
        '0' <= d <= '9',
    ensures
        text::unsigned_value(digits.push(d), max) is None,
{
    assert(digits[0] != '+');
    assert(digits.push(d)[0] == digits[0]);
    assert(text::unsigned_digits(digits.push(d)) =~= digits.push(d));
    assert(digits.push(d).drop_last() =~= digits);
}

/// A sign in front changes nothing of a text that begins with none.
pub proof fn law_sign_changes_nothing(number: Seq<char>, max: nat)
    requires
        number.len() > 0,
        number[0] != '+',
    ensures
        text::unsigned_value(seq!['+'] + number, max) == text::unsigned_value(number, max),
{
    assert((seq!['+'] + number).drop_first() =~= number);
}

/// Nothing else is a number: not the empty text, not a sign alone, and no text
/// with a character that is neither a digit nor a sign in front.
pub proof fn law_nothing_else_is_a_number(other: Seq<char>, max: nat, i: int)
    requires
        other.len() == 0 || other == seq!['+'] || (0 <= i < other.len() && !('0' <= other[i] <= '9')
            && !(i == 0 && other[i] == '+')),
    ensures
        text::unsigned_value(other, max) is None,
{
    let digits = text::unsigned_digits(other);
    if other.len() > 0 && other != seq!['+'] {
        if other[0] == '+' {
            assert(digits[i - 1] == other[i]);
        } else {
            assert(digits[i] == other[i]);
        }
    }
}

/// A text is plain exactly when each of its characters is: a code point from the
/// space to the tilde that is neither a quote of either kind nor a backslash.
pub proof fn law_plain_by_code_point(front: Seq<char>, c: char, code: int)
    requires
        code == c as int,
    ensures
        text::is_plain(Seq::empty()),
        text::is_plain(front.push(c)) <==> text::is_plain(front) && 0x20 <= code <= 0x7e && code
            != 0x22 && code != 0x27 && code != 0x5c,
{
    let all = front.push(c);
    assert(all[front.len() as int] == c);
    if text::is_plain(all) {
        assert forall|i: int| 0 <= i < front.len() implies ' ' <= #[trigger] front[i] <= '~'
            && front[i] != '"' && front[i] != '\'' && front[i] != '\\' by {
            assert(all[i] == front[i]);
        }
    }
}

/// A quoted text is the text between two double quotes.
pub proof fn law_quotes_surround(inner: Seq<char>)
    ensures
        text::in_quotes(inner) == seq!['"'] + inner + seq!['"'],
{
}

/// A list is written in brackets, and a further item goes after a comma and a
/// space before the closing bracket.
pub proof fn law_list_grows_by_a_comma(list: Seq<Seq<char>>, item: Seq<char>)
    ensures
        text::debug_list(Seq::empty()) == "["@ + "]"@,
        text::debug_list(seq![item]) == "["@ + text::debug_text(item) + "]"@,
        list.len() > 0 ==> text::debug_list(list.push(item)) == text::debug_list(list).drop_last()
            + ", "@ + text::debug_text(item) + "]"@,
        text::quoted_list(Seq::empty()) == "["@ + "]"@,
        text::quoted_list(seq![item]) == "["@ + (seq!['"'] + item + seq!['"']) + "]"@,
        list.len() > 0 ==> text::quoted_list(list.push(item)) == text::quoted_list(list).drop_last()
            + ", "@ + (seq!['"'] + item + seq!['"']) + "]"@,
{
    lemma_list_grows(|s: Seq<char>| text::debug_text(s), list, item);
    lemma_list_grows(|s: Seq<char>| text::in_quotes(s), list, item);
}

proof fn lemma_list_grows(
    write: spec_fn(Seq<char>) -> Seq<char>,
    list: Seq<Seq<char>>,
    item: Seq<char>,
)
    ensures
        text::in_brackets(Seq::<Seq<char>>::empty().map_values(write)) == "["@ + "]"@,
        text::in_brackets(seq![item].map_values(write)) == "["@ + write(item) + "]"@,
        list.len() > 0 ==> text::in_brackets(list.push(item).map_values(write))
            == text::in_brackets(list.map_values(write)).drop_last() + ", "@ + write(item) + "]"@,
{
    reveal_strlit("]");
    assert(text::in_brackets(Seq::<Seq<char>>::empty().map_values(write)) =~= "["@ + "]"@);
    let items = list.map_values(write);
    let more = list.push(item).map_values(write);
    if list.len() > 0 {
        assert(more.drop_last() =~= items);
        assert(text::in_brackets(items).drop_last() =~= "["@ + text::comma_separated(items));
        assert(text::in_brackets(more) =~= text::in_brackets(items).drop_last() + ", "@ + write(
            item,
        ) + "]"@);
    }
}

} // verus!
