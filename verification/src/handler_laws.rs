//! What the commands are for: removing a desktop never deletes the one in use, commands that
//! take one argument take exactly one, the listings list every entry, and each hotkey modifier
//! is tracked on its own.
use vstd::prelude::*;
use crate::command_handler::{
    binds_listing, change_desk_spec, command_of_words, resume_spec, specific_listing, start_spec,
    switch_to, HandlerView,
};
use crate::handling::{EffectModel, HandlingModel, ReplyModel, ThenModel};
use crate::logic::{first_named, lemma_first_named};
use crate::model::ActionModel;
use crate::shortcuts::{hotkey_command, key_text, modifiers_after, Key, KeyEvent, Modifiers};

verus! {

/// The line a listing gives an entry: a tab, the first text, " - ", the second text, a line feed.
pub open spec fn listed(x: (Seq<char>, Seq<char>)) -> Seq<char> {
    "\t"@ + x.0 + " - "@ + x.1 + "\n"@
}

/// Removing the desktop in use first leaves it: when the handler learns that the current
/// desktop is `d`, the desktop to remove, it changes to 'blank', with the removal of `d` to
/// follow, whether `d` is a specific or a common desktop. Nothing is deleted at this step: the
/// only effects are the switch to a specific 'blank', or the handler waits for the common
/// desktops to change to the common 'blank'.
pub proof fn law_current_desktop_left_before_removal(h: HandlerView, d: Seq<char>)
    ensures
        ({
            let (h2, s) = resume_spec(
                h,
                HandlingModel::AwaitCurrentForRemove { desk_name: d },
                ReplyModel::CurrentDesktop { name: Ok(d) },
            );
            &&& h2 == h
            &&& s == change_desk_spec(h, "blank"@, ThenModel::RemoveDesk { desk_name: d })
            &&& match s {
                HandlingModel::AwaitCommonForChange { desk_name, then } => {
                    &&& first_named(h.specifics, "blank"@) is None
                    &&& desk_name == "blank"@
                    &&& then == ThenModel::RemoveDesk { desk_name: d }
                },
                HandlingModel::Running { effects, next, then } => {
                    &&& next == 0
                    &&& then == ThenModel::RemoveDesk { desk_name: d }
                    &&& exists|i: int|
                        0 <= i < h.specifics.len() && #[trigger] h.specifics[i].0 == "blank"@
                            && effects == seq![
                            EffectModel::SetDesktop { path: h.specifics[i].1 },
                            EffectModel::RestartExplorer,
                        ]
                },
                _ => false,
            }
        }),
{
    lemma_first_named(h.specifics, "blank"@);
    if let Some(i) = first_named(h.specifics, "blank"@) {
        assert(h.specifics[i].0 == "blank"@);
        assert(switch_to(h.specifics[i].1) == seq![
            EffectModel::SetDesktop { path: h.specifics[i].1 },
            EffectModel::RestartExplorer,
        ]);
    }
}

/// The commands that take one argument take exactly one: with none they are refused, with
/// more than one they are refused with "Too many arguments", and with one they ask for an
/// action on that argument.
pub proof fn law_one_argument_commands(name: Seq<char>, args: Seq<Seq<char>>)
    requires
        name == "change_desk"@ || name == "cd"@ || name == "create_desk"@ || name == "remove_desk"@
            || name == "unbind"@ || name == "open"@,
    ensures
        args.len() == 0 ==> command_of_words(seq![name] + args) is Err,
        args.len() > 1 ==> command_of_words(seq![name] + args) == Err::<ActionModel, Seq<char>>(
            "Too many arguments"@,
        ),
        args.len() == 1 ==> command_of_words(seq![name] + args) == Ok::<ActionModel, Seq<char>>(
            if name == "remove_desk"@ {
                ActionModel::RemoveDesk { desk_name: args[0] }
            } else if name == "unbind"@ {
                ActionModel::RemoveBind { bind_name: args[0] }
            } else if name == "open"@ {
                ActionModel::OpenInExplorer { desk_name: args[0] }
            } else if name == "create_desk"@ {
                ActionModel::CreateDesk { desk_name: args[0] }
            } else {
                ActionModel::ChangeDesk { desk_name: args[0] }
            },
        ),
{
    reveal_strlit("change_desk");
    reveal_strlit("cd");
    reveal_strlit("create_desk");
    reveal_strlit("create_specific_desk");
    reveal_strlit("remove_desk");
    reveal_strlit("bind");
    reveal_strlit("unbind");
    reveal_strlit("desk_list");
    reveal_strlit("dl");
    reveal_strlit("binds_list");
    reveal_strlit("bind_list");
    reveal_strlit("bl");
    reveal_strlit("clear");
    reveal_strlit("help");
    reveal_strlit("open");
    reveal_strlit("add_to_autostart");
    reveal_strlit("remove_from_autostart");
    let w = seq![name] + args;
    assert(w[0] == name);
    assert(w.drop_first() =~= args);
    assert(name.len() == 2 || name.len() == 4 || name.len() == 6 || name.len() == 11);
    if name.len() == 2 {
        assert(name == "cd"@);
        assert(name != "dl"@ && name != "bl"@) by {
            assert(name[0] != "dl"@[0]);
            assert(name[0] != "bl"@[0]);
        }
    } else if name.len() == 4 {
        assert(name == "open"@);
        assert(name != "bind"@ && name != "help"@) by {
            assert(name[0] != "bind"@[0]);
            assert(name[0] != "help"@[0]);
        }
    } else if name.len() == 6 {
        assert(name == "unbind"@);
    } else {
        assert(name == "change_desk"@ || name == "create_desk"@ || name == "remove_desk"@);
        assert(name != "create_desk"@ ==> name[1] != "create_desk"@[1]);
        assert(name != "remove_desk"@ ==> name[0] != "remove_desk"@[0]);
        assert(name != "change_desk"@ ==> name[1] != "change_desk"@[1]);
    }
}

/// `bind` takes exactly two arguments, the bind's name and the desktop's.
pub proof fn law_bind_takes_two_arguments(args: Seq<Seq<char>>)
    ensures
        args.len() < 2 ==> command_of_words(seq!["bind"@] + args) == Err::<ActionModel, Seq<char>>(
            "Too few arguments"@,
        ),
        args.len() > 2 ==> command_of_words(seq!["bind"@] + args) == Err::<ActionModel, Seq<char>>(
            "Too many arguments"@,
        ),
        args.len() == 2 ==> command_of_words(seq!["bind"@] + args) == Ok::<ActionModel, Seq<char>>(
            ActionModel::CreateBind { bind_name: args[0], desk_name: args[1] },
        ),
{
    reveal_strlit("change_desk");
    reveal_strlit("cd");
    reveal_strlit("create_desk");
    reveal_strlit("create_specific_desk");
    reveal_strlit("remove_desk");
    reveal_strlit("bind");
    reveal_strlit("unbind");
    reveal_strlit("desk_list");
    reveal_strlit("dl");
    reveal_strlit("binds_list");
    reveal_strlit("bind_list");
    reveal_strlit("bl");
    reveal_strlit("clear");
    reveal_strlit("help");
    reveal_strlit("open");
    reveal_strlit("add_to_autostart");
    reveal_strlit("remove_from_autostart");
    let w = seq!["bind"@] + args;
    assert(w[0] == "bind"@);
    assert(w.drop_first() =~= args);
}

/// The desktop listing prints, after the common desktops, a heading and then one line
/// '\t<name> - <path>' for every specific desktop, in order: with no specific desktop it is the
/// heading alone, and one more desktop adds its line at the end.
pub proof fn law_desk_listing_lists_every_specific_desktop(
    h: HandlerView,
    s: Seq<(Seq<char>, Seq<char>)>,
    x: (Seq<char>, Seq<char>),
)
    ensures
        start_spec(h, ActionModel::DeskList) == (
            h,
            HandlingModel::Running {
                effects: seq![
                    EffectModel::ListCommonDesktops,
                    EffectModel::Print { text: specific_listing(h.specifics) },
                ],
                next: 0,
                then: ThenModel::Finish,
            },
        ),
        specific_listing(Seq::empty()) == "Specific desktops:\n"@,
        specific_listing(s.push(x)) == specific_listing(s) + listed(x),
        specific_listing(s.push(x)).len() > specific_listing(s).len(),
{
    let t = s.push(x);
    assert(t.drop_last() =~= s);
    assert(t.last() == x);
    assert(specific_listing(Seq::empty()) =~= "Specific desktops:\n"@);
    assert(specific_listing(t) =~= specific_listing(s) + listed(x));
    reveal_strlit("\n");
}

/// The bind listing says "No binds" exactly when there are none; otherwise it is a heading and
/// then one line '\t<bind> - <desktop>' for every bind, in order: the first bind follows the
/// heading, and one more bind adds its line at the end.
pub proof fn law_binds_listing_lists_every_bind(
    h: HandlerView,
    b: Seq<(Seq<char>, Seq<char>)>,
    x: (Seq<char>, Seq<char>),
)
    ensures
        start_spec(h, ActionModel::BindsList) == (
            h,
            HandlingModel::Running {
                effects: seq![EffectModel::Print { text: binds_listing(h.binds) }],
                next: 0,
                then: ThenModel::Finish,
            },
        ),
        (binds_listing(b) == "No binds\n"@) <==> b.len() == 0,
        binds_listing(Seq::empty().push(x)) == "Binds:\n"@ + listed(x),
        b.len() > 0 ==> binds_listing(b.push(x)) == binds_listing(b) + listed(x),
{
    reveal_strlit("No binds\n");
    reveal_strlit("Binds:\n");
    let t = b.push(x);
    assert(t.drop_last() =~= b);
    assert(t.last() == x);
    if b.len() > 0 {
        assert(binds_listing(t) =~= binds_listing(b) + listed(x));
        assert(binds_listing(b)[0] == 'B');
        assert("No binds\n"@[0] == 'N');
    }
    let one = Seq::<(Seq<char>, Seq<char>)>::empty().push(x);
    assert(one.drop_last() =~= Seq::<(Seq<char>, Seq<char>)>::empty());
    assert(one.last() == x);
    assert(crate::command_handler::listing_lines(Seq::<(Seq<char>, Seq<char>)>::empty())
        =~= Seq::<char>::empty());
    assert(crate::command_handler::listing_lines(one) =~= listed(x));
    assert(binds_listing(one) =~= "Binds:\n"@ + listed(x));
}

/// Whether `k` is one of the hotkey's modifier keys.
pub open spec fn is_modifier(k: Key) -> bool {
    k == Key::ControlLeft || k == Key::ShiftLeft || k == Key::Alt
}

/// Each modifier is tracked on its own: pressing a key sets that modifier's flag, releasing it
/// clears it, and neither touches the other modifiers; a key that is no modifier changes none.
pub proof fn law_modifier_events_are_independent(m: Modifiers, k: Key, pressed: bool)
    ensures
        ({
            let e = if pressed { KeyEvent::KeyPress(k) } else { KeyEvent::KeyRelease(k) };
            let m2 = modifiers_after(m, e);
            &&& m2.ctrl == (if k == Key::ControlLeft { pressed } else { m.ctrl })
            &&& m2.shift == (if k == Key::ShiftLeft { pressed } else { m.shift })
            &&& m2.alt == (if k == Key::Alt { pressed } else { m.alt })
        }),
{
}

/// Pressing the three modifiers, in any order and from any state, then a digit key types that
/// digit.
pub proof fn law_hotkey_in_any_order(m: Modifiers, a: Key, b: Key, c: Key, key: Key)
    requires
        is_modifier(a),
        is_modifier(b),
        is_modifier(c),
        a != b,
        b != c,
        a != c,
        key_text(key) != ""@,
    ensures
        hotkey_command(
            modifiers_after(
                modifiers_after(modifiers_after(m, KeyEvent::KeyPress(a)), KeyEvent::KeyPress(b)),
                KeyEvent::KeyPress(c),
            ),
            KeyEvent::KeyPress(key),
        ) == Some(key_text(key)),
{
}

} // verus!
