//! Properties that hold across the library's operations.
use vstd::prelude::*;
use crate::command_handler::{
    add_bind_spec, change_desk_spec, resume_spec, start_spec, swap_removed, HandlerView,
};
use crate::handling::{accepts, HandlingModel, ReplyModel, ThenModel};
use crate::logic::{first_named, lemma_first_named, lemma_first_named_at};
use crate::model::ActionModel;
use crate::data_manager::{binds_in_file, binds_text, desktops_in_file, desktops_text};
use crate::file_laws::{
    law_binds_file_round_trip, law_desktops_file_round_trip, storable_bind, storable_desktop,
};
use crate::handling::EffectModel;
use crate::command_handler::running;
use vstd::utf8::encode_utf8;
use crate::command_handler::{command_of_words, parsed_action};
use crate::file_laws::law_words_of_joined;
use crate::text::{is_space, joined, words, words_at, nonempty, Spacing};
use crate::shortcuts::{hotkey_command, key_text, modifiers_after, Key, KeyEvent, Modifiers};

verus! {

/// No two entries share a name.
pub open spec fn unique_names(s: Seq<(Seq<char>, Seq<char>)>) -> bool {
    forall|i: int, j: int| 0 <= i < j < s.len() ==> #[trigger] s[i].0 != #[trigger] s[j].0
}

/// A handler state whose bind names and specific desktop names are unique.
pub open spec fn consistent(h: HandlerView) -> bool {
    &&& unique_names(h.binds)
    &&& unique_names(h.specifics)
}

proof fn lemma_unique_push(s: Seq<(Seq<char>, Seq<char>)>, x: (Seq<char>, Seq<char>))
    requires
        unique_names(s),
        first_named(s, x.0) is None,
    ensures
        unique_names(s.push(x)),
{
    lemma_first_named(s, x.0);
    let t = s.push(x);
    assert forall|i: int, j: int| 0 <= i < j < t.len() implies #[trigger] t[i].0 != #[trigger] t[j].0 by {
        if j == s.len() {
            assert(s[i].0 != x.0);
        } else {
            assert(s[i].0 != s[j].0);
        }
    }
}

proof fn lemma_unique_swap_removed(s: Seq<(Seq<char>, Seq<char>)>, k: int)
    requires
        unique_names(s),
        0 <= k < s.len(),
    ensures
        unique_names(swap_removed(s, k)),
{
    let t = swap_removed(s, k);
    let last = s.len() - 1;
    assert forall|i: int, j: int| 0 <= i < j < t.len() implies #[trigger] t[i].0 != #[trigger] t[j].0 by {
        let si = if i == k { last } else { i };
        let sj = if j == k { last } else { j };
        assert(t[i] == s[si]);
        assert(t[j] == s[sj]);
        if si < sj {
            assert(s[si].0 != s[sj].0);
        } else {
            assert(s[sj].0 != s[si].0);
        }
    }
}

proof fn lemma_add_bind_consistent(h: HandlerView, bind: Seq<char>, desk: Seq<char>)
    requires
        consistent(h),
    ensures
        consistent(add_bind_spec(h, bind, desk).0),
{
    if first_named(h.binds, bind) is None {
        lemma_unique_push(h.binds, (bind, desk));
    }
}

proof fn lemma_remove_specific_consistent(h: HandlerView, desk: Seq<char>)
    requires
        consistent(h),
    ensures
        consistent(crate::command_handler::remove_specific_spec(h, desk).0),
{
    lemma_first_named(h.specifics, desk);
    if let Some(i) = first_named(h.specifics, desk) {
        lemma_unique_swap_removed(h.specifics, i);
    }
}

/// Taking up any command keeps bind names and specific desktop names unique, and leaves the
/// base path and the desktops path as they were.
pub proof fn law_start_keeps_consistency(h: HandlerView, a: ActionModel)
    requires
        consistent(h),
    ensures
        consistent(start_spec(h, a).0),
        start_spec(h, a).0.base == h.base,
        start_spec(h, a).0.desktops == h.desktops,
{
    match a {
        ActionModel::CreateBind { bind_name, desk_name } => {
            lemma_add_bind_consistent(h, bind_name, desk_name);
        },
        ActionModel::RemoveBind { bind_name } => {
            lemma_first_named(h.binds, bind_name);
            if let Some(i) = first_named(h.binds, bind_name) {
                lemma_unique_swap_removed(h.binds, i);
            }
        },
        _ => {},
    }
}

/// Answering what a handling waits for keeps bind names and specific desktop names unique,
/// and leaves the base path and the desktops path as they were.
pub proof fn law_resume_keeps_consistency(h: HandlerView, s: HandlingModel, reply: ReplyModel)
    requires
        consistent(h),
    ensures
        consistent(resume_spec(h, s, reply).0),
        resume_spec(h, s, reply).0.base == h.base,
        resume_spec(h, s, reply).0.desktops == h.desktops,
{
    match (s, reply) {
        (HandlingModel::Running { effects, next, then }, ReplyModel::Performed { result }) => {
            if let ThenModel::RemoveDesk { desk_name } = then {
                lemma_remove_specific_consistent(h, desk_name);
            }
        },
        (HandlingModel::AwaitCurrentForRemove { desk_name }, ReplyModel::CurrentDesktop { name }) => {
            lemma_remove_specific_consistent(h, desk_name);
        },
        (HandlingModel::AwaitDirForSpecific { desk_name, path }, ReplyModel::IsDirectory { answer }) => {
            if answer && first_named(h.specifics, desk_name) is None {
                lemma_unique_push(h.specifics, (desk_name, path));
            }
        },
        (HandlingModel::AwaitCommonForBind { bind_name, desk_name }, ReplyModel::CommonDesktops { names }) => {
            lemma_add_bind_consistent(h, bind_name, desk_name);
        },
        _ => {},
    }
}

/// Using a bind does what changing to its desktop does.
pub proof fn law_use_bind_is_change_desk(h: HandlerView, bind_name: Seq<char>)
    requires
        first_named(h.binds, bind_name) is Some,
    ensures
        start_spec(h, ActionModel::UseBind { bind_name }) == start_spec(
            h,
            ActionModel::ChangeDesk { desk_name: h.binds[first_named(h.binds, bind_name)->0].1 },
        ),
{
}

/// Removing a bind right after adding it, under a name no bind had, gives back the binds
/// as they were before.
pub proof fn law_remove_undoes_add_bind(h: HandlerView, bind_name: Seq<char>, desk_name: Seq<char>)
    requires
        first_named(h.binds, bind_name) is None,
    ensures
        start_spec(add_bind_spec(h, bind_name, desk_name).0, ActionModel::RemoveBind { bind_name }).0.binds
            == h.binds,
{
    let b = h.binds.push((bind_name, desk_name));
    lemma_first_named(h.binds, bind_name);
    assert forall|j: int| 0 <= j < h.binds.len() implies #[trigger] b[j].0 != bind_name by {
        assert(b[j] == h.binds[j]);
    }
    lemma_first_named_at(b, bind_name, h.binds.len() as int);
    assert(swap_removed(b, h.binds.len() as int) =~= h.binds);
}

/// How many more replies a handling can take at most before it is finished.
pub open spec fn remaining_steps(s: HandlingModel) -> int {
    match s {
        HandlingModel::Finished { .. } => 0,
        HandlingModel::Running { effects, next, then } => (effects.len() - next) + match then {
            ThenModel::Finish => 0int,
            ThenModel::RemoveDesk { .. } => 2,
        },
        HandlingModel::AwaitCommonForChange { then, .. } => match then {
            ThenModel::Finish => 4int,
            ThenModel::RemoveDesk { .. } => 6,
        },
        HandlingModel::AwaitCurrentForRemove { .. } => 7,
        _ => 2,
    }
}

/// Every command comes to an end: each reply that answers what a handling waits for lowers the
/// number of replies it can still take, and a handling that takes none is finished.
pub proof fn law_handling_finishes(h: HandlerView, s: HandlingModel, reply: ReplyModel)
    requires
        accepts(s, reply),
    ensures
        0 <= remaining_steps(resume_spec(h, s, reply).1) < remaining_steps(s),
        remaining_steps(s) == 0 <==> s is Finished,
{
    lemma_first_named(h.specifics, "blank"@);
    match (s, reply) {
        (HandlingModel::Running { effects, next, then }, ReplyModel::Performed { result }) => {
            if let ThenModel::RemoveDesk { desk_name } = then {
                lemma_first_named(h.specifics, desk_name);
            }
        },
        (HandlingModel::AwaitCurrentForRemove { desk_name }, ReplyModel::CurrentDesktop { name }) => {
            lemma_first_named(h.specifics, desk_name);
        },
        _ => {},
    }
}

/// A command just taken up can take at most seven replies before it is finished.
pub proof fn law_start_is_bounded(h: HandlerView, a: ActionModel)
    ensures
        0 <= remaining_steps(start_spec(h, a).1) <= 7,
{
    match a {
        ActionModel::CreateBind { bind_name, desk_name } => {},
        ActionModel::RemoveBind { bind_name } => {
            lemma_first_named(h.binds, bind_name);
        },
        ActionModel::UseBind { bind_name } => {
            lemma_first_named(h.binds, bind_name);
        },
        _ => {},
    }
}

/// After a bind is added under a new name, using it does what changing to its desktop does.
pub proof fn law_added_bind_leads_to_desk(h: HandlerView, bind_name: Seq<char>, desk_name: Seq<char>)
    requires
        first_named(h.binds, bind_name) is None,
    ensures
        start_spec(add_bind_spec(h, bind_name, desk_name).0, ActionModel::UseBind { bind_name }) == start_spec(
            add_bind_spec(h, bind_name, desk_name).0,
            ActionModel::ChangeDesk { desk_name },
        ),
{
    let b = h.binds.push((bind_name, desk_name));
    lemma_first_named(h.binds, bind_name);
    assert forall|j: int| 0 <= j < h.binds.len() implies #[trigger] b[j].0 != bind_name by {
        assert(b[j] == h.binds[j]);
    }
    lemma_first_named_at(b, bind_name, h.binds.len() as int);
}

/// When a bind is added, the binds file that the handler saves reads back as the handler's
/// new binds, provided every bind is one the file can hold.
pub proof fn law_saved_binds_read_back(h: HandlerView, bind_name: Seq<char>, desk_name: Seq<char>)
    requires
        first_named(h.binds, bind_name) is None,
        forall|k: int| 0 <= k < h.binds.len() ==> storable_bind(#[trigger] h.binds[k]),
        storable_bind((bind_name, desk_name)),
    ensures
        ({
            let (h2, s) = add_bind_spec(h, bind_name, desk_name);
            &&& s == running(seq![EffectModel::SaveBinds { contents: binds_text(h2.binds) }], ThenModel::Finish)
            &&& binds_in_file(encode_utf8(binds_text(h2.binds))) == h2.binds
        }),
{
    let b = h.binds.push((bind_name, desk_name));
    assert forall|k: int| 0 <= k < b.len() implies storable_bind(#[trigger] b[k]) by {
        if k < h.binds.len() {
            assert(b[k] == h.binds[k]);
        }
    }
    law_binds_file_round_trip(b);
}

/// When a specific desktop is created, the file that the handler saves reads back as the
/// handler's new list of specific desktops, provided every desktop is one the file can hold.
pub proof fn law_saved_desktops_read_back(h: HandlerView, desk_name: Seq<char>, path: Seq<char>)
    requires
        first_named(h.specifics, desk_name) is None,
        forall|k: int| 0 <= k < h.specifics.len() ==> storable_desktop(#[trigger] h.specifics[k]),
        storable_desktop((desk_name, path)),
    ensures
        ({
            let (h2, s) = resume_spec(
                h,
                HandlingModel::AwaitDirForSpecific { desk_name, path },
                ReplyModel::IsDirectory { answer: true },
            );
            &&& h2.specifics == h.specifics.push((desk_name, path))
            &&& s == running(
                seq![EffectModel::SaveSpecificDesktops { contents: desktops_text(h2.specifics) }],
                ThenModel::Finish,
            )
            &&& desktops_in_file(encode_utf8(desktops_text(h2.specifics))) == h2.specifics
        }),
{
    let d = h.specifics.push((desk_name, path));
    assert forall|k: int| 0 <= k < d.len() implies storable_desktop(#[trigger] d[k]) by {
        if k < h.specifics.len() {
            assert(d[k] == h.specifics[k]);
        }
    }
    law_desktops_file_round_trip(d);
}

/// When a specific desktop is removed, the file that the handler saves reads back as the
/// handler's new list, in which no desktop has that name any more, provided the names were
/// unique and every desktop is one the file can hold.
pub proof fn law_removed_desktop_stays_removed(h: HandlerView, desk_name: Seq<char>)
    requires
        first_named(h.specifics, desk_name) is Some,
        unique_names(h.specifics),
        forall|k: int| 0 <= k < h.specifics.len() ==> storable_desktop(#[trigger] h.specifics[k]),
    ensures
        ({
            let (h2, s) = crate::command_handler::remove_specific_spec(h, desk_name);
            &&& s == running(
                seq![EffectModel::SaveSpecificDesktops { contents: desktops_text(h2.specifics) }],
                ThenModel::Finish,
            )
            &&& desktops_in_file(encode_utf8(desktops_text(h2.specifics))) == h2.specifics
            &&& first_named(h2.specifics, desk_name) is None
        }),
{
    lemma_first_named(h.specifics, desk_name);
    let i = first_named(h.specifics, desk_name)->0;
    let d = swap_removed(h.specifics, i);
    let last = h.specifics.len() - 1;
    assert forall|k: int| 0 <= k < d.len() implies storable_desktop(#[trigger] d[k]) by {
        if k == i {
            assert(d[k] == h.specifics[last]);
        } else {
            assert(d[k] == h.specifics[k]);
        }
    }
    law_desktops_file_round_trip(d);
    assert forall|k: int| 0 <= k < d.len() implies #[trigger] d[k].0 != desk_name by {
        if k == i {
            assert(d[k] == h.specifics[last]);
            if last != i {
                assert(h.specifics[i].0 != h.specifics[last].0);
            }
        } else {
            assert(d[k] == h.specifics[k]);
            if k < i {
                assert(h.specifics[k].0 != h.specifics[i].0);
            } else {
                assert(h.specifics[i].0 != h.specifics[k].0);
            }
        }
    }
    lemma_first_named(d, desk_name);
}

/// The hotkey: once left Ctrl, left Shift and Alt have gone down, in any state, a digit key
/// types that digit, and no other key types anything.
pub proof fn law_hotkey_types_digit(m: Modifiers, key: Key)
    ensures
        hotkey_command(
            modifiers_after(
                modifiers_after(modifiers_after(m, KeyEvent::KeyPress(Key::ControlLeft)), KeyEvent::KeyPress(Key::ShiftLeft)),
                KeyEvent::KeyPress(Key::Alt),
            ),
            KeyEvent::KeyPress(key),
        ) == if key_text(key) != ""@ {
            Some(key_text(key))
        } else {
            None::<Seq<char>>
        },
{
}

/// Without all three modifiers down, no key event types a command.
pub proof fn law_no_hotkey_without_modifiers(m: Modifiers, event: KeyEvent)
    requires
        !(m.ctrl && m.shift && m.alt),
    ensures
        hotkey_command(m, event) is None,
{
}

/// Releasing a modifier ends the hotkey: after it, no key types a command.
pub proof fn law_release_ends_hotkey(m: Modifiers, modifier: Key, event: KeyEvent)
    requires
        modifier == Key::ControlLeft || modifier == Key::ShiftLeft || modifier == Key::Alt,
    ensures
        hotkey_command(modifiers_after(m, KeyEvent::KeyRelease(modifier)), event) is None,
{
}

/// A command line is its words: typing the words of a command separated by single spaces asks
/// for what those words name.
pub proof fn law_command_line_of_words(ws: Seq<Seq<char>>)
    requires
        ws.len() > 0,
        forall|n: int| 0 <= n < ws.len() ==> #[trigger] ws[n].len() > 0,
        forall|n: int, k: int|
            0 <= n < ws.len() && 0 <= k < ws[n].len() ==> !is_space(Spacing::Ascii, #[trigger] ws[n][k]),
    ensures
        parsed_action(joined(ws, seq![' '])) == command_of_words(ws),
{
    law_words_of_joined(ws, Spacing::Ascii);
    let c = joined(ws, seq![' ']);
    if c.len() == 0 {
        assert(words(c, Spacing::Ascii) =~= Seq::<Seq<char>>::empty());
    }
}

/// A hotkey does what typing its digit as a command does: the digit names no command, so it
/// is used as the name of a bind.
pub proof fn law_hotkey_digit_is_a_bind(key: Key)
    requires
        key_text(key) != ""@,
    ensures
        parsed_action(key_text(key)) == Ok::<ActionModel, Seq<char>>(
            ActionModel::UseBind { bind_name: key_text(key) },
        ),
{
    broadcast use vstd::string::group_string_axioms;

    reveal_strlit("0");
    reveal_strlit("1");
    reveal_strlit("2");
    reveal_strlit("3");
    reveal_strlit("4");
    reveal_strlit("5");
    reveal_strlit("6");
    reveal_strlit("7");
    reveal_strlit("8");
    reveal_strlit("9");
    reveal_strlit("");
    let t = key_text(key);
    assert(t.len() == 1);
    assert('0' <= t[0] <= '9');
    assert(words_at(t, Spacing::Ascii, 0, 1) == nonempty(t.subrange(0, 1)));
    assert(t.subrange(0, 1) =~= t);
    assert(words(t, Spacing::Ascii) =~= seq![t]);
    reveal_strlit("change_desk");
    reveal_strlit("cd");
    reveal_strlit("create_desk");
    reveal_strlit("create_specific_desk");
    reveal_strlit("remove_desk");
    reveal_strlit("bind");
    reveal_strlit("unbind");
    reveal_strlit("desk_list");
    reveal_strlit("dl");
    reveal_strlit("binds_list");
    reveal_strlit("bind_list");
    reveal_strlit("bl");
    reveal_strlit("clear");
    reveal_strlit("help");
    reveal_strlit("open");
    reveal_strlit("add_to_autostart");
    reveal_strlit("remove_from_autostart");
}

} // verus!
