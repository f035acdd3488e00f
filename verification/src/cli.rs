//! Strict start-up flags.
//!
//! An unknown flag, a missing value or an unparsable value is an error, never a
//! silent fallback to a default. Both `--flag value` and `--flag=value` are
//! accepted.

use crate::text;
use vstd::prelude::*;
use vstd::string::*;

verus! {

/// Why an argument list is rejected.
#[derive(Debug)]
pub enum FlagError {
    /// An argument where a flag belongs does not begin with `--`.
    UnexpectedArgument { arg: String },
    /// A flag is none of the known ones.
    UnknownFlag { flag: String, known: Vec<String> },
    /// A flag carries no value.
    MissingValue { flag: String },
    /// The value of a flag cannot be parsed.
    UnparsableValue { flag: String, value: String },
}

/// What a `FlagError` says, over character sequences.
pub enum FlagFault {
    UnexpectedArgument { arg: Seq<char> },
    UnknownFlag { flag: Seq<char>, known: Seq<Seq<char>> },
    MissingValue { flag: Seq<char> },
    UnparsableValue { flag: Seq<char>, value: Seq<char> },
}

impl View for FlagError {
    type V = FlagFault;

    open spec fn view(&self) -> FlagFault {
        match self {
            FlagError::UnexpectedArgument { arg } => FlagFault::UnexpectedArgument { arg: arg@ },
            FlagError::UnknownFlag { flag, known } => FlagFault::UnknownFlag {
                flag: flag@,
                known: text::texts(known@),
            },
            FlagError::MissingValue { flag } => FlagFault::MissingValue { flag: flag@ },
            FlagError::UnparsableValue { flag, value } => FlagFault::UnparsableValue {
                flag: flag@,
                value: value@,
            },
        }
    }
}

/// The text that reports a fault.
pub open spec fn fault_message(fault: FlagFault) -> Seq<char> {
    match fault {
        FlagFault::UnexpectedArgument { arg } => "unexpected argument "@ + arg,
        FlagFault::UnknownFlag { flag, known } => "unknown flag "@ + flag + "; known flags: "@
            + text::debug_list(known),
        FlagFault::MissingValue { flag } => "flag "@ + flag + " is missing its value"@,
        FlagFault::UnparsableValue { flag, value } => "flag "@ + flag
            + " has an unparsable value: "@ + text::debug_text(value),
    }
}

impl FlagError {
    /// The text that reports the error.
    pub fn message(&self) -> (message: String)
        ensures
            message@ == fault_message(self@),
            self matches FlagError::UnknownFlag { flag, known } ==> text::are_plain(
                text::texts(known@),
            ) ==> message@ == "unknown flag "@ + flag@ + "; known flags: "@ + text::quoted_list(
                text::texts(known@),
            ),
            self matches FlagError::UnparsableValue { flag, value } ==> text::is_plain(value@)
                ==> message@ == "flag "@ + flag@ + " has an unparsable value: "@ + text::in_quotes(
                value@,
            ),
    {
        match self {
            FlagError::UnexpectedArgument { arg } => {
                "unexpected argument ".to_owned().concat(arg.as_str())
            },
            FlagError::UnknownFlag { flag, known } => {
                let quoted = text::quote_list(known);
                "unknown flag ".to_owned().concat(flag.as_str()).concat("; known flags: ").concat(
                    quoted.as_str(),
                )
            },
            FlagError::MissingValue { flag } => {
                "flag ".to_owned().concat(flag.as_str()).concat(" is missing its value")
            },
            FlagError::UnparsableValue { flag, value } => {
                let quoted = text::quote(value.as_str());
                "flag ".to_owned().concat(flag.as_str()).concat(
                    " has an unparsable value: ",
                ).concat(quoted.as_str())
            },
        }
    }
}

/// The characters of each slice in a list.
pub open spec fn slice_texts(list: Seq<&str>) -> Seq<Seq<char>> {
    list.map_values(|s: &str| s@)
}

/// The arguments after the program's own name.
pub open spec fn operands(args: Seq<String>) -> Seq<Seq<char>> {
    if args.len() == 0 {
        Seq::empty()
    } else {
        text::texts(args).skip(1)
    }
}

/// An argument taken apart into a flag and, after a first `=`, its value.
pub open spec fn flag_parts(arg: Seq<char>) -> (Seq<char>, Option<Seq<char>>) {
    match text::split_first(arg, '=') {
        Some((flag, value)) => (flag, Some(value)),
        None => (arg, None),
    }
}

/// Whether an argument is written like a flag.
pub open spec fn is_flag_like(arg: Seq<char>) -> bool {
    seq!['-', '-'].is_prefix_of(arg)
}

/// Splits `--flag=value` into `("--flag", Some("value"))`; a bare flag keeps
/// its `None`.
pub fn split_eq(arg: &str) -> (parts: (&str, Option<&str>))
    ensures
        parts.0@ == flag_parts(arg@).0,
        match parts.1 {
            Some(value) => flag_parts(arg@).1 == Some(value@),
            None => flag_parts(arg@).1 is None,
        },
{
    match text::split_once_at(arg, '=') {
        Some((flag, value)) => (flag, Some(value)),
        None => (arg, None),
    }
}

/// The first fault in a list of operands that has one.
pub open spec fn first_fault(
    operands: Seq<Seq<char>>,
    known: Seq<Seq<char>>,
) -> Option<FlagFault>
    decreases operands.len(),
{
    if operands.len() == 0 {
        None
    } else {
        let (flag, inline) = flag_parts(operands[0]);
        if !is_flag_like(operands[0]) {
            Some(FlagFault::UnexpectedArgument { arg: operands[0] })
        } else if !known.contains(flag) {
            Some(FlagFault::UnknownFlag { flag, known })
        } else if inline is Some {
            first_fault(operands.skip(1), known)
        } else if operands.len() == 1 || is_flag_like(operands[1]) {
            Some(FlagFault::MissingValue { flag })
        } else {
            first_fault(operands.skip(2), known)
        }
    }
}

fn flag_like(arg: &str) -> (like: bool)
    ensures
        like == is_flag_like(arg@),
{
    proof {
        reveal_strlit("--");
        assert("--"@ == seq!['-', '-']);
    }
    text::has_prefix(arg, "--")
}

fn is_known(flag: &str, known: &[&str]) -> (found: bool)
    ensures
        found == slice_texts(known@).contains(flag@),
{
    let mut i: usize = 0;
    while i < known.len()
        invariant
            i <= known@.len(),
            forall|j: int| 0 <= j < i ==> slice_texts(known@)[j] != flag@,
        decreases known@.len() - i,
    {
        if text::same_text(known[i], flag) {
            assert(slice_texts(known@)[i as int] == flag@);
            return true;
        }
        i += 1;
    }
    false
}

fn owned_list(list: &[&str]) -> (owned: Vec<String>)
    ensures
        text::texts(owned@) == slice_texts(list@),
{
    let mut owned: Vec<String> = Vec::new();
    let mut i: usize = 0;
    while i < list.len()
        invariant
            i <= list@.len(),
            owned@.len() == i,
            forall|j: int| 0 <= j < i ==> (#[trigger] owned@[j])@ == list@[j]@,
        decreases list@.len() - i,
    {
        owned.push(list[i].to_owned());
        i += 1;
    }
    assert(text::texts(owned@) =~= slice_texts(list@));
    owned
}

/// Checks that every argument after the program's name is a known flag and
/// that every flag carries a value, inline or as the next argument. The fault
/// reported is the first in argument order.
pub fn validate_flags(args: &[String], known: &[&str]) -> (result: Result<(), FlagError>)
    ensures
        match result {
            Ok(()) => first_fault(operands(args@), slice_texts(known@)) is None,
            Err(e) => first_fault(operands(args@), slice_texts(known@)) == Some(e@),
        },
{
    let ghost words = text::texts(args@);
    let ghost names = slice_texts(known@);
    let mut i: usize = 1;
    while i < args.len()
        invariant
            words == text::texts(args@),
            names == slice_texts(known@),
            i >= 1,
            i <= args@.len() || args@.len() == 0,
            args@.len() > 0 ==> first_fault(operands(args@), names) == first_fault(
                words.skip(i as int),
                names,
            ),
        decreases args@.len() - i,
    {
        let arg: &str = args[i].as_str();
        let ghost rest = words.skip(i as int);
        assert(rest[0] == arg@);
        if !flag_like(arg) {
            return Err(FlagError::UnexpectedArgument { arg: arg.to_owned() });
        }
        let (flag, inline) = split_eq(arg);
        if !is_known(flag, known) {
            return Err(
                FlagError::UnknownFlag { flag: flag.to_owned(), known: owned_list(known) },
            );
        }
        if inline.is_some() {
            assert(rest.skip(1) =~= words.skip(i + 1));
            i += 1;
        } else {
            if i + 1 >= args.len() || flag_like(args[i + 1].as_str()) {
                assert(i + 1 < args@.len() ==> rest[1] == words[i + 1]);
                return Err(FlagError::MissingValue { flag: flag.to_owned() });
            }
            assert(rest[1] == words[i + 1]);
            assert(rest.skip(2) =~= words.skip(i + 2));
            i += 2;
        }
    }
    Ok(())
}

/// What an argument list says of one flag.
pub enum Lookup {
    /// The flag does not occur.
    Absent,
    /// The flag is the last argument and carries no value.
    Missing,
    /// The flag's value, at its first occurrence.
    Found { value: Seq<char> },
}

/// What a list of operands says of `flag`. A bare flag takes the operand after
/// it as its value, whatever that is.
pub open spec fn lookup(operands: Seq<Seq<char>>, flag: Seq<char>) -> Lookup
    decreases operands.len(),
{
    if operands.len() == 0 {
        Lookup::Absent
    } else {
        let (name, inline) = flag_parts(operands[0]);
        match inline {
            Some(value) => if name == flag {
                Lookup::Found { value }
            } else {
                lookup(operands.skip(1), flag)
            },
            None => if operands.len() == 1 {
                if name == flag {
                    Lookup::Missing
                } else {
                    Lookup::Absent
                }
            } else if name == flag {
                Lookup::Found { value: operands[1] }
            } else {
                lookup(operands.skip(2), flag)
            },
        }
    }
}

/// A type that a flag's value can be parsed into.
pub trait FlagValue: Sized + View {
    /// What parsing `text` gives; `None` where it is no value of the type.
    spec fn parsed(text: Seq<char>) -> Option<<Self as View>::V>;

    /// Parses `text`; `None` when it is no value of the type.
    fn parse_value(text: &str) -> (value: Option<Self>)
        ensures
            match value {
                Some(v) => Self::parsed(text@) == Some(v@),
                None => Self::parsed(text@) is None,
            },
    ;
}

impl FlagValue for String {
    open spec fn parsed(text: Seq<char>) -> Option<Seq<char>> {
        Some(text)
    }

    fn parse_value(text: &str) -> (value: Option<String>) {
        Some(text.to_owned())
    }
}

impl FlagValue for u64 {
    open spec fn parsed(text: Seq<char>) -> Option<u64> {
        match text::unsigned_value(text, u64::MAX as nat) {
            Some(n) => Some(n as u64),
            None => None,
        }
    }

    fn parse_value(text: &str) -> (value: Option<u64>) {
        text::parse_u64(text)
    }
}

impl FlagValue for u32 {
    open spec fn parsed(text: Seq<char>) -> Option<u32> {
        match text::unsigned_value(text, u32::MAX as nat) {
            Some(n) => Some(n as u32),
            None => None,
        }
    }

    fn parse_value(text: &str) -> (value: Option<u32>) {
        match text::parse_u64(text) {
            Some(n) => if n <= u32::MAX as u64 {
                Some(n as u32)
            } else {
                None
            },
            None => None,
        }
    }
}

impl FlagValue for u16 {
    open spec fn parsed(text: Seq<char>) -> Option<u16> {
        match text::unsigned_value(text, u16::MAX as nat) {
            Some(n) => Some(n as u16),
            None => None,
        }
    }

    fn parse_value(text: &str) -> (value: Option<u16>) {
        match text::parse_u64(text) {
            Some(n) => if n <= u16::MAX as u64 {
                Some(n as u16)
            } else {
                None
            },
            None => None,
        }
    }
}

impl FlagValue for usize {
    open spec fn parsed(text: Seq<char>) -> Option<usize> {
        match text::unsigned_value(text, usize::MAX as nat) {
            Some(n) => Some(n as usize),
            None => None,
        }
    }

    fn parse_value(text: &str) -> (value: Option<usize>) {
        match text::parse_u64(text) {
            Some(n) => if n <= usize::MAX as u64 {
                Some(n as usize)
            } else {
                None
            },
            None => None,
        }
    }
}

/// The text that `args` gives for `flag`; `None` when the flag is absent.
pub fn flag_text(args: &[String], flag: &str) -> (result: Result<Option<String>, FlagError>)
    ensures
        match lookup(operands(args@), flag@) {
            Lookup::Absent => result matches Ok(None),
            Lookup::Missing => result matches Err(e) && e@ == (FlagFault::MissingValue {
                flag: flag@,
            }),
            Lookup::Found { value } => result matches Ok(Some(text)) && text@ == value,
        },
{
    let ghost words = text::texts(args@);
    let mut i: usize = 1;
    while i < args.len()
        invariant
            words == text::texts(args@),
            i >= 1,
            i <= args@.len() || args@.len() == 0,
            args@.len() > 0 ==> lookup(operands(args@), flag@) == lookup(
                words.skip(i as int),
                flag@,
            ),
        decreases args@.len() - i,
    {
        let ghost rest = words.skip(i as int);
        let arg: &str = args[i].as_str();
        assert(rest[0] == arg@);
        let (name, inline) = split_eq(arg);
        let hit = text::same_text(name, flag);
        match inline {
            Some(value) => {
                if hit {
                    return Ok(Some(value.to_owned()));
                }
                assert(rest.skip(1) =~= words.skip(i + 1));
                i += 1;
            },
            None => {
                if i + 1 >= args.len() {
                    if hit {
                        return Err(FlagError::MissingValue { flag: flag.to_owned() });
                    }
                    return Ok(None);
                }
                assert(rest[1] == words[i + 1]);
                if hit {
                    return Ok(Some(args[i + 1].clone()));
                }
                assert(rest.skip(2) =~= words.skip(i + 2));
                i += 2;
            },
        }
    }
    Ok(None)
}

/// Settles what parsing the text `value` of `flag` gave: the value where there
/// is one, and otherwise an error that names the flag and the text.
pub fn accept_parsed<T>(flag: &str, value: String, parsed: Option<T>) -> (result: Result<
    Option<T>,
    FlagError,
>)
    ensures
        match parsed {
            Some(p) => result == Ok::<Option<T>, FlagError>(Some(p)),
            None => result matches Err(e) && e@ == (FlagFault::UnparsableValue {
                flag: flag@,
                value: value@,
            }),
        },
{
    match parsed {
        Some(p) => Ok(Some(p)),
        None => Err(FlagError::UnparsableValue { flag: flag.to_owned(), value }),
    }
}

/// What reading a flag gives.
pub enum Reading<V> {
    /// The flag does not occur.
    Absent,
    /// The flag's value.
    Value(V),
    /// The flag carries no value, or one that does not parse.
    Fault(FlagFault),
}

/// What reading `flag` as a value of `T` from a list of operands gives.
pub open spec fn reading<T: FlagValue>(operands: Seq<Seq<char>>, flag: Seq<char>) -> Reading<
    <T as View>::V,
> {
    match lookup(operands, flag) {
        Lookup::Absent => Reading::Absent,
        Lookup::Missing => Reading::Fault(FlagFault::MissingValue { flag }),
        Lookup::Found { value } => match T::parsed(value) {
            Some(v) => Reading::Value(v),
            None => Reading::Fault(FlagFault::UnparsableValue { flag, value }),
        },
    }
}

/// The value of `flag`, parsed; `None` when the flag is absent and only then.
/// A flag without a value and a value that does not parse are errors that name
/// the flag, the latter with the offending text.
pub fn parse_flag<T: FlagValue>(args: &[String], flag: &str) -> (result: Result<
    Option<T>,
    FlagError,
>)
    ensures
        reading::<T>(operands(args@), flag@) == match result {
            Ok(None) => Reading::Absent,
            Ok(Some(value)) => Reading::Value(value@),
            Err(e) => Reading::Fault(e@),
        },
        result matches Ok(None) <==> lookup(operands(args@), flag@) is Absent,
        match lookup(operands(args@), flag@) {
            Lookup::Absent => true,
            Lookup::Missing => result matches Err(e) && e@ == (FlagFault::MissingValue {
                flag: flag@,
            }),
            Lookup::Found { value } => match T::parsed(value) {
                Some(v) => result matches Ok(Some(parsed)) && parsed@ == v,
                None => result matches Err(e) && e@ == (FlagFault::UnparsableValue {
                    flag: flag@,
                    value,
                }),
            },
        },
{
    match flag_text(args, flag) {
        Ok(None) => Ok(None),
        Err(e) => Err(e),
        Ok(Some(value)) => {
            let parsed = T::parse_value(value.as_str());
            accept_parsed(flag, value, parsed)
        },
    }
}

/// The items of a comma-separated list: each trimmed, the empty ones dropped.
pub open spec fn list_items(text: Seq<char>) -> Seq<Seq<char>> {
    text::pieces(text, ',').map_values(|piece: Seq<char>| text::trimmed(piece)).filter(
        |item: Seq<char>| item.len() > 0,
    )
}

/// Splits a comma-separated list into its items.
pub fn split_list(text: &str) -> (items: Vec<String>)
    ensures
        text::texts(items@) == list_items(text@),
{
    let ghost trim = |piece: Seq<char>| text::trimmed(piece);
    let ghost keep = |item: Seq<char>| item.len() > 0;
    let ghost mut done: Seq<Seq<char>> = Seq::empty();
    let mut items: Vec<String> = Vec::new();
    let mut rest: &str = text;
    proof {
        reveal(Seq::filter);
        assert(done + text::pieces(rest@, ',') =~= text::pieces(text@, ','));
        assert(text::texts(items@) =~= done.map_values(trim).filter(keep));
    }
    loop
        invariant_except_break
            done + text::pieces(rest@, ',') == text::pieces(text@, ','),
        invariant
            trim == |piece: Seq<char>| text::trimmed(piece),
            keep == |item: Seq<char>| item.len() > 0,
            text::texts(items@) == done.map_values(trim).filter(keep),
        ensures
            done == text::pieces(text@, ','),
        decreases rest@.len(),
    {
        let split = text::split_once_at(rest, ',');
        let (piece, after): (&str, Option<&str>) = match split {
            Some((before, after)) => (before, Some(after)),
            None => (rest, None),
        };
        let item = text::trim(piece);
        let ghost before_items = items@;
        if !item.is_empty() {
            items.push(item.to_owned());
        }
        proof {
            done.map_values(trim).lemma_filter_push(item@, keep);
            assert(done.push(piece@).map_values(trim) =~= done.map_values(trim).push(item@));
            if item@.len() > 0 {
                assert(text::texts(items@) =~= text::texts(before_items).push(item@));
            }
            rest@.index_of_first_ensures(',');
            assert(done + text::pieces(rest@, ',') =~= match after {
                Some(a) => done.push(piece@) + text::pieces(a@, ','),
                None => done.push(piece@),
            });
            done = done.push(piece@);
        }
        match after {
            Some(a) => {
                rest = a;
            },
            None => {
                break;
            },
        }
    }
    items
}

/// The comma-separated list that `args` gives for `flag`: its items trimmed,
/// the empty ones dropped; empty when the flag is absent.
pub fn parse_list(args: &[String], flag: &str) -> (result: Result<Vec<String>, FlagError>)
    ensures
        match lookup(operands(args@), flag@) {
            Lookup::Absent => result matches Ok(items) && text::texts(items@) == Seq::<
                Seq<char>,
            >::empty(),
            Lookup::Missing => result matches Err(e) && e@ == (FlagFault::MissingValue {
                flag: flag@,
            }),
            Lookup::Found { value } => result matches Ok(items) && text::texts(items@)
                == list_items(value),
        },
{
    match parse_flag::<String>(args, flag) {
        Ok(Some(list)) => Ok(split_list(list.as_str())),
        Ok(None) => {
            let items: Vec<String> = Vec::new();
            assert(text::texts(items@) =~= Seq::<Seq<char>>::empty());
            Ok(items)
        },
        Err(e) => Err(e),
    }
}

} // verus!
