//! Character-level operations on string slices, specified over sequences of
//! characters.

use vstd::prelude::*;
use vstd::string::*;

verus! {

/// The character sequences that a list of strings holds.
pub open spec fn texts(list: Seq<String>) -> Seq<Seq<char>> {
    list.map_values(|s: String| s@)
}

/// Where `c` first stands in `text`.
pub open spec fn is_first_index(text: Seq<char>, c: char, i: int) -> bool {
    &&& 0 <= i < text.len()
    &&& text[i] == c
    &&& forall|j: int| 0 <= j < i ==> text[j] != c
}

/// What stands before and after the first `c` in `text`; `None` when `text`
/// holds no `c`.
pub open spec fn split_first(text: Seq<char>, c: char) -> Option<(Seq<char>, Seq<char>)> {
    match text.index_of_first(c) {
        Some(i) => Some((text.take(i), text.skip(i + 1))),
        None => None,
    }
}

/// An index that passes for the first occurrence is the first occurrence.
pub proof fn lemma_first_index(text: Seq<char>, c: char, i: int)
    requires
        is_first_index(text, c, i),
    ensures
        text.index_of_first(c) == Some(i),
{
    text.index_of_first_ensures(c);
    assert(text.contains(text[i]));
    let k = text.index_of_first(c)->0;
    assert(k == i) by {
        if k < i {
            assert(text[k] != c);
        }
        if i < k {
            assert(text[i] != c);
        }
    }
}

/// The characters of `text`, in order.
pub fn char_list(text: &str) -> (chars: Vec<char>)
    ensures
        chars@ == text@,
{
    let mut chars: Vec<char> = Vec::new();
    for c in it: text.chars()
        invariant
            it.seq() == text@,
            chars@ == text@.take(it.index() as int),
    {
        assert(text@.take(it.index() + 1) == text@.take(it.index() as int).push(c));
        chars.push(c);
    }
    assert(text@.take(text@.len() as int) == text@);
    chars
}

/// Whether two slices hold the same characters.
pub fn same_text(a: &str, b: &str) -> (same: bool)
    ensures
        same == (a@ == b@),
{
    let left: String = a.to_owned();
    let right: String = b.to_owned();
    left == right
}

/// Splits `text` around the first `c`.
pub fn split_once_at(text: &str, c: char) -> (parts: Option<(&str, &str)>)
    ensures
        match parts {
            Some(p) => split_first(text@, c) == Some((p.0@, p.1@)),
            None => split_first(text@, c) is None,
        },
{
    let chars = char_list(text);
    let mut i: usize = 0;
    while i < chars.len()
        invariant
            i <= chars@.len(),
            chars@ == text@,
            forall|j: int| 0 <= j < i ==> text@[j] != c,
        decreases chars@.len() - i,
    {
        if chars[i] == c {
            proof {
                lemma_first_index(text@, c, i as int);
            }
            let before = text.substring_char(0, i);
            let after = text.substring_char(i + 1, chars.len());
            return Some((before, after));
        }
        i += 1;
    }
    proof {
        text@.index_of_first_ensures(c);
    }
    None
}

/// Whether `text` begins with the characters of `prefix`.
pub fn has_prefix(text: &str, prefix: &str) -> (has: bool)
    ensures
        has == prefix@.is_prefix_of(text@),
{
    let n: usize = prefix.unicode_len();
    if text.unicode_len() < n {
        return false;
    }
    same_text(text.substring_char(0, n), prefix)
}

/// The code points with the Unicode property `White_Space`.
pub open spec fn is_white_space(c: char) -> bool {
    ||| '\u{9}' <= c <= '\u{d}'
    ||| c == ' '
    ||| c == '\u{85}'
    ||| c == '\u{a0}'
    ||| c == '\u{1680}'
    ||| '\u{2000}' <= c <= '\u{200a}'
    ||| c == '\u{2028}'
    ||| c == '\u{2029}'
    ||| c == '\u{202f}'
    ||| c == '\u{205f}'
    ||| c == '\u{3000}'
}

/// `char::is_whitespace`: tells whether a character has the Unicode property
/// `White_Space`. The contract lists the code points that have it.
#[verifier::external_body]
fn white_space(c: char) -> (white: bool)
    ensures
        white == is_white_space(c),
{
    c.is_whitespace()
}

/// `text` without the white space at its front.
pub open spec fn trim_front(text: Seq<char>) -> Seq<char>
    decreases text.len(),
{
    if text.len() > 0 && is_white_space(text.first()) {
        trim_front(text.drop_first())
    } else {
        text
    }
}

/// `text` without the white space at its back.
pub open spec fn trim_back(text: Seq<char>) -> Seq<char>
    decreases text.len(),
{
    if text.len() > 0 && is_white_space(text.last()) {
        trim_back(text.drop_last())
    } else {
        text
    }
}

/// `text` without the white space at either end.
pub open spec fn trimmed(text: Seq<char>) -> Seq<char> {
    trim_back(trim_front(text))
}

/// Whether no white space stands at either end of `text`.
pub open spec fn is_trimmed(text: Seq<char>) -> bool {
    text.len() > 0 ==> !is_white_space(text.first()) && !is_white_space(text.last())
}

/// Where the white space at the front of a text ends, the trimmed text begins.
pub proof fn lemma_trim_front(text: Seq<char>, from: int)
    requires
        0 <= from <= text.len(),
        forall|j: int| 0 <= j < from ==> is_white_space(#[trigger] text[j]),
        from < text.len() ==> !is_white_space(text[from]),
    ensures
        trim_front(text) == text.skip(from),
    decreases from,
{
    if from > 0 {
        assert(is_white_space(text[0]));
        let rest = text.drop_first();
        assert forall|j: int| 0 <= j < from - 1 implies is_white_space(#[trigger] rest[j]) by {
            assert(rest[j] == text[j + 1]);
        }
        lemma_trim_front(rest, from - 1);
        assert(rest.skip(from - 1) == text.skip(from));
    } else {
        assert(text.skip(0) == text);
    }
}

/// Where the white space at the back of a text begins, the trimmed text ends.
pub proof fn lemma_trim_back(text: Seq<char>, to: int)
    requires
        0 <= to <= text.len(),
        forall|j: int| to <= j < text.len() ==> is_white_space(#[trigger] text[j]),
        to > 0 ==> !is_white_space(text[to - 1]),
    ensures
        trim_back(text) == text.take(to),
    decreases text.len() - to,
{
    if to < text.len() {
        let rest = text.drop_last();
        lemma_trim_back(rest, to);
        assert(rest.take(to) == text.take(to));
    } else {
        assert(text.take(to) == text);
    }
}

/// The part of `text` between its leading and its trailing white space.
pub fn trim(text: &str) -> (inner: &str)
    ensures
        inner@ == trimmed(text@),
{
    let chars = char_list(text);
    let mut from: usize = 0;
    while from < chars.len() && white_space(chars[from])
        invariant
            from <= chars@.len(),
            chars@ == text@,
            forall|j: int| 0 <= j < from ==> is_white_space(#[trigger] text@[j]),
        decreases chars@.len() - from,
    {
        from += 1;
    }
    let mut to: usize = chars.len();
    while to > from && white_space(chars[to - 1])
        invariant
            from <= to <= chars@.len(),
            chars@ == text@,
            forall|j: int| to <= j < text@.len() ==> is_white_space(#[trigger] text@[j]),
        decreases to,
    {
        to -= 1;
    }
    proof {
        lemma_trim_front(text@, from as int);
        let rest = text@.skip(from as int);
        assert forall|j: int| to - from <= j < rest.len() implies is_white_space(
            #[trigger] rest[j],
        ) by {
            assert(rest[j] == text@[j + from]);
        }
        lemma_trim_back(rest, to - from);
        assert(rest.take(to - from) == text@.subrange(from as int, to as int));
    }
    text.substring_char(from, to)
}

/// The pieces of `text` between the occurrences of `c`, in order.
pub open spec fn pieces(text: Seq<char>, c: char) -> Seq<Seq<char>>
    decreases text.len(),
{
    proof {
        text.index_of_first_ensures(c);
    }
    match split_first(text, c) {
        Some((before, after)) => seq![before] + pieces(after, c),
        None => seq![text],
    }
}

/// No piece holds the character at which the text is cut.
pub proof fn lemma_piece_has_no_separator(text: Seq<char>, c: char, i: int)
    requires
        0 <= i < pieces(text, c).len(),
    ensures
        !pieces(text, c)[i].contains(c),
    decreases text.len(),
{
    text.index_of_first_ensures(c);
    match split_first(text, c) {
        Some((before, after)) => {
            if i > 0 {
                lemma_piece_has_no_separator(after, c, i - 1);
            }
        },
        None => {},
    }
}

/// Trimming leaves a part of the text with no white space at either end.
pub proof fn lemma_trimmed(text: Seq<char>)
    ensures
        is_trimmed(trimmed(text)),
        exists|from: int, to: int|
            0 <= from <= to <= text.len() && trimmed(text) == #[trigger] text.subrange(from, to),
{
    lemma_trim_front_part(text);
    let front = trim_front(text);
    lemma_trim_back_part(front);
    let from = choose|from: int| 0 <= from <= text.len() && front == #[trigger] text.skip(from);
    let to = choose|to: int| 0 <= to <= front.len() && trim_back(front) == #[trigger] front.take(to);
    assert(trimmed(text) =~= text.subrange(from, from + to));
}

proof fn lemma_trim_front_part(text: Seq<char>)
    ensures
        exists|from: int| 0 <= from <= text.len() && trim_front(text) == #[trigger] text.skip(from),
        trim_front(text).len() > 0 ==> !is_white_space(trim_front(text).first()),
    decreases text.len(),
{
    if text.len() > 0 && is_white_space(text.first()) {
        let rest = text.drop_first();
        lemma_trim_front_part(rest);
        let k = choose|k: int| 0 <= k <= rest.len() && trim_front(rest) == #[trigger] rest.skip(k);
        assert(text.skip(k + 1) =~= rest.skip(k));
    } else {
        assert(text.skip(0) =~= text);
    }
}

proof fn lemma_trim_back_part(text: Seq<char>)
    ensures
        exists|to: int| 0 <= to <= text.len() && trim_back(text) == #[trigger] text.take(to),
        trim_back(text).len() > 0 ==> !is_white_space(trim_back(text).last()),
    decreases text.len(),
{
    if text.len() > 0 && is_white_space(text.last()) {
        let rest = text.drop_last();
        lemma_trim_back_part(rest);
        let k = choose|k: int| 0 <= k <= rest.len() && trim_back(rest) == #[trigger] rest.take(k);
        assert(text.take(k) =~= rest.take(k));
    } else {
        assert(text.take(text.len() as int) =~= text);
    }
}

/// Trimming leaves a trimmed text as it is.
pub proof fn lemma_trimmed_is_fixed(text: Seq<char>)
    requires
        is_trimmed(text),
    ensures
        trimmed(text) == text,
{
}

/// `text` without a leading `+`.
pub open spec fn unsigned_digits(text: Seq<char>) -> Seq<char> {
    if text.len() > 0 && text.first() == '+' {
        text.drop_first()
    } else {
        text
    }
}

/// Whether `text` is one or more decimal digits.
pub open spec fn is_digits(text: Seq<char>) -> bool {
    text.len() > 0 && forall|i: int| 0 <= i < text.len() ==> '0' <= #[trigger] text[i] <= '9'
}

/// The number that a sequence of decimal digits writes down.
pub open spec fn decimal_value(digits: Seq<char>) -> nat
    decreases digits.len(),
{
    if digits.len() == 0 {
        0
    } else {
        (10 * decimal_value(digits.drop_last()) + (digits.last() as int - '0' as int)) as nat
    }
}

/// The number that `text` writes down in base ten with an optional `+`, where
/// it is at most `max`.
pub open spec fn unsigned_value(text: Seq<char>, max: nat) -> Option<nat> {
    let digits = unsigned_digits(text);
    if is_digits(digits) && decimal_value(digits) <= max {
        Some(decimal_value(digits))
    } else {
        None
    }
}

/// `<u64 as FromStr>::from_str`: reads an optional `+` followed by decimal
/// digits only, and fails on anything else and on a number above `u64::MAX`.
#[verifier::external_body]
pub(crate) fn parse_u64(text: &str) -> (number: Option<u64>)
    ensures
        match number {
            Some(n) => unsigned_value(text@, u64::MAX as nat) == Some(n as nat),
            None => unsigned_value(text@, u64::MAX as nat) is None,
        },
{
    text.parse::<u64>().ok()
}

/// The quoted and escaped form in which `{:?}` writes a string.
pub uninterp spec fn debug_text(text: Seq<char>) -> Seq<char>;

/// Whether `text` is printable ASCII without quotes and backslashes.
pub open spec fn is_plain(text: Seq<char>) -> bool {
    forall|i: int|
        0 <= i < text.len() ==> ' ' <= #[trigger] text[i] <= '~' && text[i] != '"' && text[i] != '\''
            && text[i] != '\\'
}

/// `text` between double quotes.
pub open spec fn in_quotes(text: Seq<char>) -> Seq<char> {
    seq!['"'] + text + seq!['"']
}

/// `<str as Debug>::fmt`, through `format!`: writes a string quoted and
/// escaped. The text depends on the string alone, and where the string is
/// printable ASCII without quotes and backslashes it is the string between
/// double quotes; the escapes of other characters are not spelled out here.
#[verifier::external_body]
pub(crate) fn quote(text: &str) -> (quoted: String)
    ensures
        quoted@ == debug_text(text@),
        is_plain(text@) ==> quoted@ == in_quotes(text@),
{
    format!("{text:?}")
}

/// `items`, separated by a comma and a space.
pub open spec fn comma_separated(items: Seq<Seq<char>>) -> Seq<char>
    decreases items.len(),
{
    if items.len() == 0 {
        Seq::empty()
    } else if items.len() == 1 {
        items[0]
    } else {
        comma_separated(items.drop_last()) + ", "@ + items.last()
    }
}

/// A list of texts in brackets.
pub open spec fn in_brackets(items: Seq<Seq<char>>) -> Seq<char> {
    "["@ + comma_separated(items) + "]"@
}

/// A list of strings in brackets, each as `{:?}` writes it.
pub open spec fn debug_list(list: Seq<Seq<char>>) -> Seq<char> {
    in_brackets(list.map_values(|s: Seq<char>| debug_text(s)))
}

/// A list of strings in brackets, each between double quotes.
pub open spec fn quoted_list(list: Seq<Seq<char>>) -> Seq<char> {
    in_brackets(list.map_values(|s: Seq<char>| in_quotes(s)))
}

/// Whether each string of a list is printable ASCII without quotes and
/// backslashes.
pub open spec fn are_plain(list: Seq<Seq<char>>) -> bool {
    forall|i: int| 0 <= i < list.len() ==> is_plain(#[trigger] list[i])
}

/// Writes a list of strings in brackets, each quoted.
pub(crate) fn quote_list(list: &Vec<String>) -> (quoted: String)
    ensures
        quoted@ == debug_list(texts(list@)),
        are_plain(texts(list@)) ==> quoted@ == quoted_list(texts(list@)),
{
    let ghost words = texts(list@);
    let ghost items = words.map_values(|s: Seq<char>| debug_text(s));
    let mut quoted: String = "[".to_owned();
    let mut i: usize = 0;
    proof {
        assert("["@ + comma_separated(items.take(0)) =~= "["@);
    }
    while i < list.len()
        invariant
            i <= list@.len(),
            words == texts(list@),
            items == words.map_values(|s: Seq<char>| debug_text(s)),
            forall|j: int| 0 <= j < i && is_plain(words[j]) ==> #[trigger] items[j] == in_quotes(words[j]),
            quoted@ == "["@ + comma_separated(items.take(i as int)),
        decreases list@.len() - i,
    {
        let ghost next = items.take(i + 1);
        assert(next.drop_last() =~= items.take(i as int));
        assert(words[i as int] == list@[i as int]@);
        let item = quote(list[i].as_str());
        assert(next.last() == item@);
        if i > 0 {
            quoted = quoted.concat(", ");
        } else {
            assert(comma_separated(items.take(0)) =~= Seq::<char>::empty());
        }
        quoted = quoted.concat(item.as_str());
        assert(quoted@ =~= "["@ + comma_separated(next));
        i += 1;
    }
    proof {
        assert(items.take(list@.len() as int) =~= items);
        if are_plain(words) {
            assert(items =~= words.map_values(|s: Seq<char>| in_quotes(s)));
        }
    }
    quoted.concat("]")
}

} // verus!
