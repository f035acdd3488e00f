//! What holds of flags as a whole: which argument lists are accepted, and what
//! reading a flag from an accepted list gives.

use crate::cli;
use crate::cli::{FlagError, FlagFault, FlagValue, Lookup, Reading};
use crate::text;
use crate::text_laws;
use vstd::prelude::*;

verus! {

/// A flag with its value, and the form in which it is written.
pub struct Setting {
    pub flag: Seq<char>,
    pub value: Seq<char>,
    /// `--flag=value` rather than `--flag value`.
    pub inline: bool,
}

/// The arguments that write a setting.
pub open spec fn written(setting: Setting) -> Seq<Seq<char>> {
    if setting.inline {
        seq![setting.flag + seq!['='] + setting.value]
    } else {
        seq![setting.flag, setting.value]
    }
}

/// The arguments that write a list of settings.
pub open spec fn rendered(settings: Seq<Setting>) -> Seq<Seq<char>>
    decreases settings.len(),
{
    if settings.len() == 0 {
        Seq::empty()
    } else {
        written(settings[0]) + rendered(settings.skip(1))
    }
}

/// Whether a setting can be written: its flag begins with `--` and holds no
/// `=`, and a value that stands on its own does not begin with `--`.
pub open spec fn is_writable(setting: Setting) -> bool {
    &&& setting.flag.len() >= 2 && setting.flag[0] == '-' && setting.flag[1] == '-'
    &&& !setting.flag.contains('=')
    &&& !setting.inline ==> !(setting.value.len() >= 2 && setting.value[0] == '-'
        && setting.value[1] == '-')
}

/// Whether every setting can be written and sets a known flag.
pub open spec fn are_known(settings: Seq<Setting>, known: Seq<Seq<char>>) -> bool {
    forall|i: int|
        0 <= i < settings.len() ==> is_writable(#[trigger] settings[i]) && known.contains(
            settings[i].flag,
        )
}

/// Whether every setting can be written.
pub open spec fn are_writable(settings: Seq<Setting>) -> bool {
    forall|i: int| 0 <= i < settings.len() ==> is_writable(#[trigger] settings[i])
}

/// What a list of settings says of `flag`: the first setting of it counts.
pub open spec fn first_value(settings: Seq<Setting>, flag: Seq<char>) -> Lookup
    decreases settings.len(),
{
    if settings.len() == 0 {
        Lookup::Absent
    } else if settings[0].flag == flag {
        Lookup::Found { value: settings[0].value }
    } else {
        first_value(settings.skip(1), flag)
    }
}

/// The settings that an accepted list of operands writes.
pub open spec fn settings_of(operands: Seq<Seq<char>>) -> Seq<Setting>
    decreases operands.len(),
{
    if operands.len() == 0 {
        Seq::empty()
    } else {
        let (flag, inline) = cli::flag_parts(operands[0]);
        match inline {
            Some(value) => seq![Setting { flag, value, inline: true }] + settings_of(
                operands.skip(1),
            ),
            None => if operands.len() == 1 {
                Seq::empty()
            } else {
                seq![Setting { flag, value: operands[1], inline: false }] + settings_of(
                    operands.skip(2),
                )
            },
        }
    }
}

proof fn lemma_parts_of_written(setting: Setting)
    requires
        is_writable(setting),
    ensures
        cli::is_flag_like(written(setting)[0]),
        cli::flag_parts(written(setting)[0]) == (setting.flag, if setting.inline {
            Some(setting.value)
        } else {
            None
        }),
{
    let arg = written(setting)[0];
    let n = setting.flag.len() as int;
    arg.index_of_first_ensures('=');
    if setting.inline {
        assert forall|j: int| 0 <= j < n implies arg[j] != '=' by {
            assert(arg[j] == setting.flag[j]);
            assert(setting.flag.contains(setting.flag[j]));
        }
        text::lemma_first_index(arg, '=', n);
        assert(arg.take(n) =~= setting.flag);
        assert(arg.skip(n + 1) =~= setting.value);
        assert(arg.take(2) =~= setting.flag.take(2));
    }
}

/// Every list of writable settings of known flags, each in either form, is
/// accepted.
pub proof fn law_settings_are_accepted(settings: Seq<Setting>, known: Seq<Seq<char>>)
    requires
        are_known(settings, known),
    ensures
        cli::first_fault(rendered(settings), known) is None,
    decreases settings.len(),
{
    if settings.len() > 0 {
        let rest = settings.skip(1);
        let all = rendered(settings);
        assert forall|i: int| 0 <= i < rest.len() implies is_writable(#[trigger] rest[i])
            && known.contains(rest[i].flag) by {
            assert(rest[i] == settings[i + 1]);
        }
        law_settings_are_accepted(rest, known);
        lemma_parts_of_written(settings[0]);
        assert(all[0] == written(settings[0])[0]);
        if settings[0].inline {
            assert(all.skip(1) =~= rendered(rest));
        } else {
            assert(all[1] == settings[0].value);
            assert(all.skip(2) =~= rendered(rest));
        }
    }
}

/// Nothing else is accepted: a list of operands without a fault is written by
/// settings of known flags, so that a misspelled flag is never passed over.
pub proof fn law_accepted_are_settings(operands: Seq<Seq<char>>, known: Seq<Seq<char>>)
    requires
        cli::first_fault(operands, known) is None,
    ensures
        are_known(settings_of(operands), known),
        rendered(settings_of(operands)) == operands,
    decreases operands.len(),
{
    if operands.len() > 0 {
        let arg = operands[0];
        let (flag, inline) = cli::flag_parts(arg);
        let settings = settings_of(operands);
        arg.index_of_first_ensures('=');
        match inline {
            Some(value) => {
                let i = arg.index_of_first('=')->0;
                assert(arg[0] == '-' && arg[1] == '-');
                assert(arg =~= flag + seq!['='] + value);
                assert(flag.take(2) =~= arg.take(2));
                assert(!flag.contains('='));
                law_accepted_are_settings(operands.skip(1), known);
                assert(settings.skip(1) =~= settings_of(operands.skip(1)));
                assert(operands =~= seq![arg] + operands.skip(1));
                assert forall|j: int| 0 <= j < settings.len() implies is_writable(
                    #[trigger] settings[j],
                ) && known.contains(settings[j].flag) by {
                    if j > 0 {
                        assert(settings[j] == settings_of(operands.skip(1))[j - 1]);
                    }
                }
            },
            None => {
                law_accepted_are_settings(operands.skip(2), known);
                assert(settings.skip(1) =~= settings_of(operands.skip(2)));
                assert(operands =~= seq![arg, operands[1]] + operands.skip(2));
                assert forall|j: int| 0 <= j < settings.len() implies is_writable(
                    #[trigger] settings[j],
                ) && known.contains(settings[j].flag) by {
                    if j > 0 {
                        assert(settings[j] == settings_of(operands.skip(2))[j - 1]);
                    }
                }
            },
        }
    }
}

/// The fault that lies in the first of `operands` itself: it is no flag, no
/// known flag, or a bare flag that no value follows.
pub open spec fn head_fault(operands: Seq<Seq<char>>, known: Seq<Seq<char>>) -> Option<FlagFault>
    recommends
        operands.len() > 0,
{
    let (flag, inline) = cli::flag_parts(operands[0]);
    if !cli::is_flag_like(operands[0]) {
        Some(FlagFault::UnexpectedArgument { arg: operands[0] })
    } else if !known.contains(flag) {
        Some(FlagFault::UnknownFlag { flag, known })
    } else if inline is None && (operands.len() == 1 || cli::is_flag_like(operands[1])) {
        Some(FlagFault::MissingValue { flag })
    } else {
        None
    }
}

/// The fault that is reported is the first in argument order: what stands
/// before it is written by settings of known flags, which are returned, and it
/// lies in the operand that follows them.
pub proof fn law_reported_fault_is_the_first(
    operands: Seq<Seq<char>>,
    known: Seq<Seq<char>>,
) -> (settings: Seq<Setting>)
    requires
        cli::first_fault(operands, known) is Some,
    ensures
        are_known(settings, known),
        rendered(settings).len() < operands.len(),
        rendered(settings).is_prefix_of(operands),
        cli::first_fault(operands, known) == head_fault(
            operands.skip(rendered(settings).len() as int),
            known,
        ),
    decreases operands.len(),
{
    if head_fault(operands, known) is Some {
        assert(operands.skip(0) =~= operands);
        Seq::empty()
    } else {
        let arg = operands[0];
        let (flag, inline) = cli::flag_parts(arg);
        let n: int = if inline is Some {
            1
        } else {
            2
        };
        let rest = law_reported_fault_is_the_first(operands.skip(n), known);
        let head = if inline is Some {
            Setting { flag, value: inline->0, inline: true }
        } else {
            Setting { flag, value: operands[1], inline: false }
        };
        let settings = seq![head] + rest;
        arg.index_of_first_ensures('=');
        if inline is Some {
            assert(arg[0] == '-' && arg[1] == '-');
            assert(arg =~= flag + seq!['='] + head.value);
            assert(flag.take(2) =~= arg.take(2));
        }
        assert(settings.skip(1) =~= rest);
        assert(written(head) =~= operands.take(n));
        assert forall|j: int| 0 <= j < settings.len() implies is_writable(#[trigger] settings[j])
            && known.contains(settings[j].flag) by {
            if j > 0 {
                assert(settings[j] == rest[j - 1]);
            }
        }
        let all = rendered(settings);
        assert(all =~= operands.take(n) + rendered(rest));
        assert(operands.skip(n).skip(rendered(rest).len() as int) =~= operands.skip(
            all.len() as int,
        ));
        assert(all =~= operands.take(all.len() as int)) by {
            let tail = operands.skip(n);
            assert forall|j: int| 0 <= j < all.len() implies all[j] == operands[j] by {
                if j >= n {
                    assert(all[j] == rendered(rest)[j - n]);
                    assert(rendered(rest)[j - n] == tail[j - n]);
                }
            }
        }
        settings
    }
}

/// Reading a flag back from written settings gives the value of the first
/// setting of that flag, and nothing exactly when no setting sets it.
pub proof fn law_lookup_reads_settings(settings: Seq<Setting>, flag: Seq<char>)
    requires
        are_writable(settings),
    ensures
        cli::lookup(rendered(settings), flag) == first_value(settings, flag),
    decreases settings.len(),
{
    if settings.len() > 0 {
        let rest = settings.skip(1);
        let all = rendered(settings);
        assert forall|i: int| 0 <= i < rest.len() implies is_writable(#[trigger] rest[i]) by {
            assert(rest[i] == settings[i + 1]);
        }
        law_lookup_reads_settings(rest, flag);
        lemma_parts_of_written(settings[0]);
        assert(all[0] == written(settings[0])[0]);
        if settings[0].inline {
            assert(all.skip(1) =~= rendered(rest));
        } else {
            assert(all[1] == settings[0].value);
            assert(all.skip(2) =~= rendered(rest));
        }
    }
}

/// The two forms read identically: settings that differ only in their forms
/// give the same value for every flag.
pub proof fn law_forms_read_identically(a: Seq<Setting>, b: Seq<Setting>, flag: Seq<char>)
    requires
        are_writable(a),
        are_writable(b),
        a.len() == b.len(),
        forall|i: int|
            0 <= i < a.len() ==> (#[trigger] a[i]).flag == b[i].flag && a[i].value == b[i].value,
    ensures
        cli::lookup(rendered(a), flag) == cli::lookup(rendered(b), flag),
{
    law_lookup_reads_settings(a, flag);
    law_lookup_reads_settings(b, flag);
    lemma_same_first_value(a, b, flag);
}

proof fn lemma_same_first_value(a: Seq<Setting>, b: Seq<Setting>, flag: Seq<char>)
    requires
        a.len() == b.len(),
        forall|i: int|
            0 <= i < a.len() ==> (#[trigger] a[i]).flag == b[i].flag && a[i].value == b[i].value,
    ensures
        first_value(a, flag) == first_value(b, flag),
    decreases a.len(),
{
    if a.len() > 0 {
        assert(a[0].flag == b[0].flag);
        let ra = a.skip(1);
        let rb = b.skip(1);
        assert forall|i: int| 0 <= i < ra.len() implies (#[trigger] ra[i]).flag == rb[i].flag
            && ra[i].value == rb[i].value by {
            assert(ra[i] == a[i + 1]);
        }
        lemma_same_first_value(ra, rb, flag);
    }
}

/// After an accepted list, a flag that it sets is read from it, and any other
/// is read from what follows.
proof fn lemma_lookup_past_accepted(
    accepted: Seq<Seq<char>>,
    known: Seq<Seq<char>>,
    rest: Seq<Seq<char>>,
    flag: Seq<char>,
)
    requires
        cli::first_fault(accepted, known) is None,
    ensures
        cli::lookup(accepted + rest, flag) == if cli::lookup(accepted, flag) is Found {
            cli::lookup(accepted, flag)
        } else {
            cli::lookup(rest, flag)
        },
    decreases accepted.len(),
{
    let all = accepted + rest;
    if accepted.len() == 0 {
        assert(all =~= rest);
    } else {
        let (name, inline) = cli::flag_parts(accepted[0]);
        assert(all[0] == accepted[0]);
        if inline is Some {
            lemma_lookup_past_accepted(accepted.skip(1), known, rest, flag);
            assert(all.skip(1) =~= accepted.skip(1) + rest);
        } else {
            lemma_lookup_past_accepted(accepted.skip(2), known, rest, flag);
            assert(all[1] == accepted[1]);
            assert(all.skip(2) =~= accepted.skip(2) + rest);
        }
    }
}

/// The two forms are interchangeable wherever a flag can stand: after an
/// accepted list, `f v` and `f=v` give every flag the same value, whatever `v`
/// is and whatever follows.
pub proof fn law_forms_are_interchangeable(
    accepted: Seq<Seq<char>>,
    known: Seq<Seq<char>>,
    f: Seq<char>,
    v: Seq<char>,
    rest: Seq<Seq<char>>,
    flag: Seq<char>,
)
    requires
        cli::first_fault(accepted, known) is None,
        !f.contains('='),
    ensures
        cli::lookup(accepted + seq![f, v] + rest, flag) == cli::lookup(
            accepted + seq![f + seq!['='] + v] + rest,
            flag,
        ),
{
    let inline = f + seq!['='] + v;
    let n = f.len() as int;
    let a = seq![f, v] + rest;
    let b = seq![inline] + rest;
    f.index_of_first_ensures('=');
    assert forall|j: int| 0 <= j < n implies inline[j] != '=' by {
        assert(inline[j] == f[j]);
        assert(f.contains(f[j]));
    }
    text::lemma_first_index(inline, '=', n);
    assert(inline.take(n) =~= f);
    assert(inline.skip(n + 1) =~= v);
    assert(a[0] == f && a[1] == v && b[0] == inline);
    assert(a.skip(2) =~= rest);
    assert(b.skip(1) =~= rest);
    assert(cli::lookup(a, flag) == cli::lookup(b, flag));
    lemma_lookup_past_accepted(accepted, known, a, flag);
    lemma_lookup_past_accepted(accepted, known, b, flag);
    assert(accepted + seq![f, v] + rest =~= accepted + a);
    assert(accepted + seq![inline] + rest =~= accepted + b);
}

/// Reading a flag as any type does not tell the two forms apart: of two
/// argument lists that differ only in that one writes `f v` and the other
/// `f=v`, after arguments that are accepted, both give the same value, or both
/// the same error.
pub proof fn law_forms_parse_identically<T: FlagValue>(
    accepted: Seq<String>,
    known: Seq<Seq<char>>,
    f: String,
    v: String,
    inline: String,
    rest: Seq<String>,
    flag: Seq<char>,
)
    requires
        accepted.len() >= 1,
        cli::first_fault(cli::operands(accepted), known) is None,
        !f@.contains('='),
        inline@ == f@ + seq!['='] + v@,
    ensures
        cli::reading::<T>(cli::operands(accepted + seq![f, v] + rest), flag) == cli::reading::<T>(
            cli::operands(accepted + seq![inline] + rest),
            flag,
        ),
{
    let head = cli::operands(accepted);
    let tail = text::texts(rest);
    law_forms_are_interchangeable(head, known, f@, v@, tail, flag);
    assert(cli::operands(accepted + seq![f, v] + rest) =~= head + seq![f@, v@] + tail);
    assert(cli::operands(accepted + seq![inline] + rest) =~= head + seq![inline@] + tail);
}

/// In an accepted list no flag lacks its value, and a flag that is found is a
/// known one.
pub proof fn law_accepted_flags_have_values(
    operands: Seq<Seq<char>>,
    known: Seq<Seq<char>>,
    flag: Seq<char>,
)
    requires
        cli::first_fault(operands, known) is None,
    ensures
        !(cli::lookup(operands, flag) is Missing),
        cli::lookup(operands, flag) is Found ==> known.contains(flag),
    decreases operands.len(),
{
    if operands.len() > 0 {
        let (name, inline) = cli::flag_parts(operands[0]);
        if inline is Some {
            law_accepted_flags_have_values(operands.skip(1), known, flag);
        } else {
            law_accepted_flags_have_values(operands.skip(2), known, flag);
        }
    }
}

/// Whether `item` is what a list can hold: not empty, without a comma and
/// without white space at either end.
pub open spec fn is_item(item: Seq<char>) -> bool {
    &&& item.len() > 0
    &&& !item.contains(',')
    &&& text::is_trimmed(item)
}

/// The list that writes `items`, separated by commas.
pub open spec fn joined(items: Seq<Seq<char>>) -> Seq<char>
    decreases items.len(),
{
    if items.len() == 0 {
        Seq::empty()
    } else if items.len() == 1 {
        items[0]
    } else {
        items[0] + seq![','] + joined(items.skip(1))
    }
}

/// Every item that a list yields is trimmed, not empty and free of commas.
pub proof fn law_list_items_are_clean(list: Seq<char>, i: int)
    requires
        0 <= i < cli::list_items(list).len(),
    ensures
        is_item(cli::list_items(list)[i]),
{
    let trim = |piece: Seq<char>| text::trimmed(piece);
    let keep = |item: Seq<char>| item.len() > 0;
    let pieces = text::pieces(list, ',');
    let all = pieces.map_values(trim);
    let item = cli::list_items(list)[i];
    all.lemma_filter_pred(keep, i);
    all.lemma_filter_contains_rev(keep, item);
    assert(all.contains(item));
    let k = choose|k: int| 0 <= k < all.len() && all[k] == item;
    assert(item == text::trimmed(pieces[k]));
    text::lemma_piece_has_no_separator(list, ',', k);
    text::lemma_trimmed(pieces[k]);
    let (from, to) = choose|from: int, to: int|
        0 <= from <= to <= pieces[k].len() && item == #[trigger] pieces[k].subrange(from, to);
    if item.contains(',') {
        let j = choose|j: int| 0 <= j < item.len() && item[j] == ',';
        assert(pieces[k][from + j] == ',');
    }
}

/// A list of items survives being written and read: splitting what joins
/// `items` gives `items` back, in order.
pub proof fn law_list_round_trip(items: Seq<Seq<char>>)
    requires
        forall|i: int| 0 <= i < items.len() ==> is_item(#[trigger] items[i]),
    ensures
        cli::list_items(joined(items)) == items,
    decreases items.len(),
{
    let trim = |piece: Seq<char>| text::trimmed(piece);
    let keep = |item: Seq<char>| item.len() > 0;
    reveal(Seq::filter);
    if items.len() == 0 {
        let list = joined(items);
        list.index_of_first_ensures(',');
        let all = text::pieces(list, ',').map_values(trim);
        assert(all =~= seq![list]);
        assert(!keep(all.last()));
        assert(all.drop_last() =~= Seq::<Seq<char>>::empty());
        assert(all.drop_last().filter(keep) =~= Seq::<Seq<char>>::empty());
        assert(cli::list_items(list) =~= items);
    } else {
        let rest = items.skip(1);
        let list = joined(items);
        let head = items[0];
        let n = head.len() as int;
        assert(is_item(head));
        text::lemma_trimmed_is_fixed(head);
        list.index_of_first_ensures(',');
        if items.len() == 1 {
            let all = text::pieces(list, ',').map_values(trim);
            assert(all =~= seq![head]);
            assert(all.drop_last() =~= Seq::<Seq<char>>::empty());
            assert(cli::list_items(list) =~= items);
        } else {
            assert forall|j: int| 0 <= j < n implies list[j] != ',' by {
                assert(list[j] == head[j]);
                assert(head.contains(head[j]));
            }
            text::lemma_first_index(list, ',', n);
            assert(list.take(n) =~= head);
            assert(list.skip(n + 1) =~= joined(rest));
            assert forall|i: int| 0 <= i < rest.len() implies is_item(#[trigger] rest[i]) by {
                assert(rest[i] == items[i + 1]);
            }
            law_list_round_trip(rest);
            let tail = text::pieces(joined(rest), ',').map_values(trim);
            let all = text::pieces(list, ',').map_values(trim);
            assert(all =~= seq![head] + tail);
            tail.lemma_filter_prepend(head, keep);
            assert(cli::list_items(list) =~= items);
        }
    }
}

/// An argument is written like a flag exactly when its first two characters are
/// dashes.
pub proof fn law_flags_begin_with_two_dashes(arg: Seq<char>)
    ensures
        cli::is_flag_like(arg) <==> arg.len() >= 2 && arg[0] == '-' && arg[1] == '-',
{
}

/// The operands are the arguments after the first, position by position.
pub proof fn law_operands_follow_the_program_name(args: Seq<String>, i: int)
    ensures
        args.len() == 0 ==> cli::operands(args).len() == 0,
        args.len() > 0 ==> cli::operands(args).len() == args.len() - 1,
        0 <= i < args.len() - 1 ==> cli::operands(args)[i] == args[i + 1]@,
{
}

/// The known flags are the given ones, position by position.
pub proof fn law_known_flags_keep_positions(known: Seq<&str>, i: int)
    requires
        0 <= i < known.len(),
    ensures
        cli::slice_texts(known).len() == known.len(),
        cli::slice_texts(known)[i] == known[i]@,
{
}

/// An argument comes apart at its first `=`, and one without is a bare flag.
pub proof fn law_argument_comes_apart_at_the_first_equals(flag: Seq<char>, value: Seq<char>)
    requires
        !flag.contains('='),
    ensures
        cli::flag_parts(flag + seq!['='] + value) == (flag, Some(value)),
        cli::flag_parts(flag) == (flag, None::<Seq<char>>),
{
    text_laws::law_split_undoes_join(flag, '=', value);
    text_laws::law_join_undoes_split(flag, '=');
}

/// With nothing to check there is no fault.
pub proof fn law_no_operands_no_fault(known: Seq<Seq<char>>)
    ensures
        cli::first_fault(Seq::empty(), known) is None,
{
}

/// An argument that does not begin with two dashes, where a flag belongs, is
/// the fault, whatever follows.
pub proof fn law_stray_argument_is_rejected(
    arg: Seq<char>,
    rest: Seq<Seq<char>>,
    known: Seq<Seq<char>>,
)
    requires
        !(arg.len() >= 2 && arg[0] == '-' && arg[1] == '-'),
    ensures
        cli::first_fault(seq![arg] + rest, known) == Some(FlagFault::UnexpectedArgument { arg }),
{
    assert((seq![arg] + rest)[0] == arg);
}

/// A flag that is none of the known ones is the fault, in either form and
/// whatever follows.
pub proof fn law_unknown_flag_is_rejected(
    flag: Seq<char>,
    value: Seq<char>,
    rest: Seq<Seq<char>>,
    known: Seq<Seq<char>>,
)
    requires
        flag.len() >= 2 && flag[0] == '-' && flag[1] == '-',
        !flag.contains('='),
        !known.contains(flag),
    ensures
        cli::first_fault(seq![flag] + rest, known) == Some(FlagFault::UnknownFlag { flag, known }),
        cli::first_fault(seq![flag + seq!['='] + value] + rest, known) == Some(
            FlagFault::UnknownFlag { flag, known },
        ),
{
    law_argument_comes_apart_at_the_first_equals(flag, value);
    let inline = flag + seq!['='] + value;
    assert((seq![flag] + rest)[0] == flag);
    assert((seq![inline] + rest)[0] == inline);
    assert(inline[0] == '-' && inline[1] == '-');
    assert(cli::is_flag_like(inline));
}

/// A known flag with its value, in either form, is passed over: what follows
/// is checked as if it stood alone. Only a separate value may not begin with
/// two dashes.
pub proof fn law_known_flag_is_passed_over(
    flag: Seq<char>,
    value: Seq<char>,
    rest: Seq<Seq<char>>,
    known: Seq<Seq<char>>,
)
    requires
        flag.len() >= 2 && flag[0] == '-' && flag[1] == '-',
        !flag.contains('='),
        known.contains(flag),
    ensures
        cli::first_fault(seq![flag + seq!['='] + value] + rest, known) == cli::first_fault(
            rest,
            known,
        ),
        !(value.len() >= 2 && value[0] == '-' && value[1] == '-') ==> cli::first_fault(
            seq![flag, value] + rest,
            known,
        ) == cli::first_fault(rest, known),
{
    law_argument_comes_apart_at_the_first_equals(flag, value);
    let inline = flag + seq!['='] + value;
    let a = seq![inline] + rest;
    let b = seq![flag, value] + rest;
    assert(a[0] == inline && b[0] == flag && b[1] == value);
    assert(inline[0] == '-' && inline[1] == '-');
    assert(cli::is_flag_like(inline));
    assert(a.skip(1) =~= rest);
    assert(b.skip(2) =~= rest);
}

/// A known flag that is last, or that is followed by an argument with two
/// dashes in front, lacks its value.
pub proof fn law_known_flag_needs_a_value(
    flag: Seq<char>,
    next: Seq<char>,
    rest: Seq<Seq<char>>,
    known: Seq<Seq<char>>,
)
    requires
        flag.len() >= 2 && flag[0] == '-' && flag[1] == '-',
        !flag.contains('='),
        known.contains(flag),
        next.len() >= 2 && next[0] == '-' && next[1] == '-',
    ensures
        cli::first_fault(seq![flag], known) == Some(FlagFault::MissingValue { flag }),
        cli::first_fault(seq![flag, next] + rest, known) == Some(FlagFault::MissingValue { flag }),
{
    law_argument_comes_apart_at_the_first_equals(flag, next);
    let a = seq![flag, next] + rest;
    assert(a[0] == flag && a[1] == next);
    assert(cli::is_flag_like(next));
}

/// A flag is looked up front to back: one that stands first gives its value, in
/// either form and whatever follows, and any other flag is looked up in what
/// follows as if that stood alone.
pub proof fn law_lookup_goes_front_to_back(
    name: Seq<char>,
    value: Seq<char>,
    rest: Seq<Seq<char>>,
    flag: Seq<char>,
)
    requires
        !name.contains('='),
    ensures
        name == flag ==> cli::lookup(seq![name, value] + rest, flag) == (Lookup::Found { value }),
        name == flag ==> cli::lookup(seq![name + seq!['='] + value] + rest, flag)
            == (Lookup::Found { value }),
        name != flag ==> cli::lookup(seq![name, value] + rest, flag) == cli::lookup(rest, flag),
        name != flag ==> cli::lookup(seq![name + seq!['='] + value] + rest, flag) == cli::lookup(
            rest,
            flag,
        ),
{
    law_argument_comes_apart_at_the_first_equals(name, value);
    let inline = name + seq!['='] + value;
    let a = seq![name, value] + rest;
    let b = seq![inline] + rest;
    assert(a[0] == name && a[1] == value && b[0] == inline);
    assert(a.skip(2) =~= rest);
    assert(b.skip(1) =~= rest);
}

/// A flag is absent where there is nothing to look in, and lacks its value
/// where it is all there is.
pub proof fn law_lookup_at_the_end(name: Seq<char>, flag: Seq<char>)
    requires
        !name.contains('='),
    ensures
        cli::lookup(Seq::empty(), flag) is Absent,
        name == flag ==> cli::lookup(seq![name], flag) is Missing,
        name != flag ==> cli::lookup(seq![name], flag) is Absent,
{
    law_argument_comes_apart_at_the_first_equals(name, Seq::empty());
}

/// A flag reads as absent exactly when it is not there: a value that does not
/// parse and a value that is missing are faults that name the flag, and a value
/// that parses is what is read.
pub proof fn law_only_an_absent_flag_reads_as_absent<T: FlagValue>(
    operands: Seq<Seq<char>>,
    flag: Seq<char>,
)
    ensures
        cli::reading::<T>(operands, flag) is Absent <==> cli::lookup(operands, flag) is Absent,
        cli::lookup(operands, flag) is Missing ==> cli::reading::<T>(operands, flag)
            == Reading::<<T as View>::V>::Fault(FlagFault::MissingValue { flag }),
        cli::lookup(operands, flag) matches Lookup::Found { value } ==> (T::parsed(value) is None
            ==> cli::reading::<T>(operands, flag) == Reading::<<T as View>::V>::Fault(
            FlagFault::UnparsableValue { flag, value },
        )),
        cli::lookup(operands, flag) matches Lookup::Found { value } ==> (T::parsed(value) matches Some(
            v,
        ) ==> cli::reading::<T>(operands, flag) == Reading::<<T as View>::V>::Value(v)),
{
}

/// A flag that stands first is read as its text parses, in either form and
/// whatever follows.
pub proof fn law_reading_parses_the_text<T: FlagValue>(
    flag: Seq<char>,
    value: Seq<char>,
    rest: Seq<Seq<char>>,
)
    requires
        !flag.contains('='),
    ensures
        T::parsed(value) matches Some(v) ==> cli::reading::<T>(seq![flag, value] + rest, flag)
            == Reading::<<T as View>::V>::Value(v),
        T::parsed(value) is None ==> cli::reading::<T>(seq![flag, value] + rest, flag) == Reading::<
            <T as View>::V,
        >::Fault(FlagFault::UnparsableValue { flag, value }),
{
    law_lookup_goes_front_to_back(flag, value, rest, flag);
}

/// A text is parsed as a string by keeping it.
pub proof fn law_every_text_is_a_string(value: Seq<char>)
    ensures
        <String as FlagValue>::parsed(value) == Some(value),
{
}

/// The integer types differ in their limits alone: each parses what writes a
/// number up to its greatest, to that number, and nothing else.
pub proof fn law_integers_parse_up_to_their_greatest(value: Seq<char>)
    ensures
        match <u16 as FlagValue>::parsed(value) {
            Some(n) => text::unsigned_value(value, 0xffff) == Some(n as nat),
            None => text::unsigned_value(value, 0xffff) is None,
        },
        match <u32 as FlagValue>::parsed(value) {
            Some(n) => text::unsigned_value(value, 0xffff_ffff) == Some(n as nat),
            None => text::unsigned_value(value, 0xffff_ffff) is None,
        },
        match <u64 as FlagValue>::parsed(value) {
            Some(n) => text::unsigned_value(value, 0xffff_ffff_ffff_ffff) == Some(n as nat),
            None => text::unsigned_value(value, 0xffff_ffff_ffff_ffff) is None,
        },
        match <usize as FlagValue>::parsed(value) {
            Some(n) => text::unsigned_value(value, usize::MAX as nat) == Some(n as nat),
            None => text::unsigned_value(value, usize::MAX as nat) is None,
        },
{
}

/// An error says what it holds.
pub proof fn law_errors_say_what_they_hold(error: FlagError)
    ensures
        error matches FlagError::UnexpectedArgument { arg } ==> error@
            == (FlagFault::UnexpectedArgument { arg: arg@ }),
        error matches FlagError::UnknownFlag { flag, known } ==> error@ == (FlagFault::UnknownFlag {
            flag: flag@,
            known: text::texts(known@),
        }),
        error matches FlagError::MissingValue { flag } ==> error@ == (FlagFault::MissingValue {
            flag: flag@,
        }),
        error matches FlagError::UnparsableValue { flag, value } ==> error@
            == (FlagFault::UnparsableValue { flag: flag@, value: value@ }),
{
}

/// A report names the flag and quotes the offending text in full.
pub proof fn law_reports_name_flag_and_text(
    flag: Seq<char>,
    value: Seq<char>,
    known: Seq<Seq<char>>,
)
    ensures
        cli::fault_message(FlagFault::UnexpectedArgument { arg: value }) == "unexpected argument "@
            + value,
        cli::fault_message(FlagFault::UnknownFlag { flag, known }) == "unknown flag "@ + flag
            + "; known flags: "@ + text::debug_list(known),
        cli::fault_message(FlagFault::MissingValue { flag }) == "flag "@ + flag
            + " is missing its value"@,
        cli::fault_message(FlagFault::UnparsableValue { flag, value }) == "flag "@ + flag
            + " has an unparsable value: "@ + text::debug_text(value),
{
}

/// The items of two lists with a comma between them are those of the first
/// followed by those of the second.
pub proof fn law_lists_concatenate(a: Seq<char>, b: Seq<char>)
    ensures
        cli::list_items(a + seq![','] + b) == cli::list_items(a) + cli::list_items(b),
{
    let trim = |piece: Seq<char>| text::trimmed(piece);
    let keep = |item: Seq<char>| item.len() > 0;
    let pa = text::pieces(a, ',');
    let pb = text::pieces(b, ',');
    text_laws::law_pieces_concatenate(a, ',', b);
    assert((pa + pb).map_values(trim) =~= pa.map_values(trim) + pb.map_values(trim));
    Seq::filter_distributes_over_add(pa.map_values(trim), pb.map_values(trim), keep);
}

/// An item is kept whatever white space stands around it: neither is a part of
/// it lost, nor is any of the white space kept.
pub proof fn law_framed_item_is_kept(front: Seq<char>, item: Seq<char>, back: Seq<char>)
    requires
        forall|i: int| 0 <= i < front.len() ==> text::is_white_space(#[trigger] front[i]),
        forall|i: int| 0 <= i < back.len() ==> text::is_white_space(#[trigger] back[i]),
        item.len() > 0,
        !item.contains(','),
        !text::is_white_space(item[0]),
        !text::is_white_space(item[item.len() - 1]),
    ensures
        cli::list_items(front + item + back) == seq![item],
{
    let trim = |piece: Seq<char>| text::trimmed(piece);
    let keep = |item: Seq<char>| item.len() > 0;
    let list = front + item + back;
    if list.contains(',') {
        let j = choose|j: int| 0 <= j < list.len() && list[j] == ',';
        if j < front.len() {
            assert(text::is_white_space(front[j]));
        } else if j < front.len() + item.len() {
            assert(item[j - front.len()] == ',');
        } else {
            assert(text::is_white_space(back[j - front.len() - item.len()]));
        }
    }
    text_laws::law_no_separator_one_piece(list, ',');
    text_laws::law_trim_removes_the_frame(front, item, back);
    let all = text::pieces(list, ',').map_values(trim);
    assert(all =~= seq![item]);
    reveal(Seq::filter);
    assert(all.drop_last() =~= Seq::<Seq<char>>::empty());
    assert(all.drop_last().filter(keep) =~= Seq::<Seq<char>>::empty());
    assert(cli::list_items(list) =~= seq![item]);
}

/// White space alone, and nothing at all, is no item.
pub proof fn law_blank_is_no_item(blank: Seq<char>)
    requires
        forall|i: int| 0 <= i < blank.len() ==> text::is_white_space(#[trigger] blank[i]),
    ensures
        cli::list_items(blank) == Seq::<Seq<char>>::empty(),
{
    let trim = |piece: Seq<char>| text::trimmed(piece);
    let keep = |item: Seq<char>| item.len() > 0;
    if blank.contains(',') {
        let j = choose|j: int| 0 <= j < blank.len() && blank[j] == ',';
        assert(text::is_white_space(blank[j]));
    }
    text_laws::law_no_separator_one_piece(blank, ',');
    text_laws::law_trim_empties_white_space(blank);
    let all = text::pieces(blank, ',').map_values(trim);
    assert(all =~= seq![Seq::<char>::empty()]);
    reveal(Seq::filter);
    assert(!keep(all.last()));
    assert(all.drop_last() =~= Seq::<Seq<char>>::empty());
    assert(all.drop_last().filter(keep) =~= Seq::<Seq<char>>::empty());
    assert(cli::list_items(blank) =~= Seq::<Seq<char>>::empty());
}

} // verus!
