//! Keys: bindings, terminal switches, and what reaches the clients.
use crate::config::{Action, Keybind};
use crate::text;
use vstd::prelude::*;
use vstd::string::*;

verus! {

/// The modifiers that are held down.
#[derive(Debug, Clone, Copy, PartialEq, Eq, Structural)]
pub struct Modifiers {
    pub logo: bool,
    pub shift: bool,
    pub ctrl: bool,
    pub alt: bool,
}

/// A key binding resolved at startup, so that matching a key compares numbers.
#[derive(Debug)]
pub struct ResolvedKeybind {
    pub modifiers: Modifiers,
    /// The key's place on a US keyboard, where it has one there.
    pub keycode: Option<u32>,
    pub keysym: u32,
    pub action: Action,
}

/// A key of a keyboard layout: what it produces without modifiers.
#[derive(Debug, Clone, Copy, PartialEq, Eq, Structural)]
pub struct KeyPosition {
    pub keycode: u32,
    pub keysym: u32,
}

/// The first key of `layout` that produces `keysym`.
pub open spec fn position_of(layout: Seq<KeyPosition>, keysym: u32) -> Option<u32>
    decreases layout.len(),
{
    if layout.len() == 0 {
        None
    } else if layout[0].keysym == keysym {
        Some(layout[0].keycode)
    } else {
        position_of(layout.drop_first(), keysym)
    }
}

pub fn keycode_for(layout: &Vec<KeyPosition>, keysym: u32) -> (r: Option<u32>)
    ensures
        r == position_of(layout@, keysym),
{
    let mut i: usize = 0;
    proof {
        assert(layout@.subrange(0, layout.len() as int) =~= layout@);
    }
    while i < layout.len()
        invariant
            i <= layout.len(),
            position_of(layout@, keysym) == position_of(
                layout@.subrange(i as int, layout.len() as int),
                keysym,
            ),
        decreases layout.len() - i,
    {
        proof {
            let rest = layout@.subrange(i as int, layout.len() as int);
            assert(rest[0] == layout@[i as int]);
            assert(rest.drop_first() =~= layout@.subrange(i + 1, layout.len() as int));
        }
        if layout[i].keysym == keysym {
            return Some(layout[i].keycode);
        }
        i = i + 1;
    }
    None
}

/// Whether one of `names`, whatever its case, is `a` or `b` or `c`.
pub open spec fn names_one_of(
    names: Seq<String>,
    a: Seq<char>,
    b: Seq<char>,
    c: Seq<char>,
) -> bool {
    exists|i: int|
        0 <= i < names.len() && (text::lowered((#[trigger] names[i])@) == a || text::lowered(names[i]@)
            == b || text::lowered(names[i]@) == c)
}

/// The modifiers that the words of a binding name.
pub open spec fn modifiers_named(names: Seq<String>) -> Modifiers {
    Modifiers {
        logo: names_one_of(names, "super"@, "mod4"@, "logo"@),
        shift: names_one_of(names, "shift"@, "shift"@, "shift"@),
        ctrl: names_one_of(names, "ctrl"@, "control"@, "control"@),
        alt: names_one_of(names, "alt"@, "mod1"@, "mod1"@),
    }
}

fn lower(s: &str) -> (r: Vec<char>)
    ensures
        r@ == text::lowered(s@),
{
    let chars = text::chars_of(s);
    let mut r: Vec<char> = Vec::new();
    let mut i: usize = 0;
    while i < chars.len()
        invariant
            i <= chars.len(),
            chars@ == s@,
            r@ =~= text::lowered(s@).subrange(0, i as int),
        decreases chars.len() - i,
    {
        r.push(text::to_ascii_lower(chars[i]));
        i = i + 1;
    }
    proof {
        assert(r@ =~= text::lowered(s@));
    }
    r
}

pub fn modifiers_for(names: &Vec<String>) -> (r: Modifiers)
    ensures
        r == modifiers_named(names@),
        r.logo <==> is_worded(names@, "super"@) || is_worded(names@, "mod4"@) || is_worded(
            names@,
            "logo"@,
        ),
        r.shift <==> is_worded(names@, "shift"@),
        r.ctrl <==> is_worded(names@, "ctrl"@) || is_worded(names@, "control"@),
        r.alt <==> is_worded(names@, "alt"@) || is_worded(names@, "mod1"@),
{
    let mut m = Modifiers { logo: false, shift: false, ctrl: false, alt: false };
    let mut i: usize = 0;
    while i < names.len()
        invariant
            i <= names.len(),
            m == modifiers_named(names@.subrange(0, i as int)),
        decreases names.len() - i,
    {
        let name = lower(names[i].as_str());
        let logo = text::chars_eq(&name, "super") || text::chars_eq(&name, "mod4")
            || text::chars_eq(&name, "logo");
        let shift = text::chars_eq(&name, "shift");
        let ctrl = text::chars_eq(&name, "ctrl") || text::chars_eq(&name, "control");
        let alt = text::chars_eq(&name, "alt") || text::chars_eq(&name, "mod1");
        proof {
            lemma_names_push(names@, i as int, "super"@, "mod4"@, "logo"@);
            lemma_names_push(names@, i as int, "shift"@, "shift"@, "shift"@);
            lemma_names_push(names@, i as int, "ctrl"@, "control"@, "control"@);
            lemma_names_push(names@, i as int, "alt"@, "mod1"@, "mod1"@);
        }
        m = Modifiers {
            logo: m.logo || logo,
            shift: m.shift || shift,
            ctrl: m.ctrl || ctrl,
            alt: m.alt || alt,
        };
        i = i + 1;
    }
    proof {
        assert(names@.subrange(0, i as int) =~= names@);
        modifier_words_set_their_modifiers(names@);
    }
    m
}

proof fn lemma_names_push(names: Seq<String>, i: int, a: Seq<char>, b: Seq<char>, c: Seq<char>)
    requires
        0 <= i < names.len(),
    ensures
        names_one_of(names.subrange(0, i + 1), a, b, c) == (names_one_of(
            names.subrange(0, i),
            a,
            b,
            c,
        ) || text::lowered(names[i]@) == a || text::lowered(names[i]@) == b || text::lowered(
            names[i]@,
        ) == c),
{
    let shorter = names.subrange(0, i);
    let longer = names.subrange(0, i + 1);
    assert(longer[i] == names[i]);
    if names_one_of(shorter, a, b, c) {
        let k = choose|k: int|
            0 <= k < shorter.len() && (text::lowered((#[trigger] shorter[k])@) == a || text::lowered(
                shorter[k]@,
            ) == b || text::lowered(shorter[k]@) == c);
        assert(longer[k] == shorter[k]);
    }
    if names_one_of(longer, a, b, c) {
        let k = choose|k: int|
            0 <= k < longer.len() && (text::lowered((#[trigger] longer[k])@) == a || text::lowered(
                longer[k]@,
            ) == b || text::lowered(longer[k]@) == c);
        if k < i {
            assert(shorter[k] == longer[k]);
        }
    }
}

/// Resolve one binding: its modifiers by name, its key by the place that
/// `keysym`, the symbol of that name, has on a US keyboard.
pub fn resolve_keybind(
    modifiers: &Vec<String>,
    keysym: u32,
    us_layout: &Vec<KeyPosition>,
    action: Action,
) -> (r: ResolvedKeybind)
    ensures
        r.modifiers == modifiers_named(modifiers@),
        r.keycode == position_of(us_layout@, keysym),
        r.keysym == keysym,
        r.action == action,
{
    ResolvedKeybind {
        modifiers: modifiers_for(modifiers),
        keycode: keycode_for(us_layout, keysym),
        keysym,
        action,
    }
}

/// Resolve all bindings. `keysym_from_name` finds the symbol that a key's name
/// stands for, as libxkbcommon's function of that name does; it is asked once for
/// each binding, by the name as configured. It need not answer on names that are
/// not bound.
pub fn resolve_keybinds<F: Fn(&String) -> u32>(
    keybinds: Vec<Keybind>,
    keysym_from_name: F,
    us_layout: &Vec<KeyPosition>,
) -> (r: Vec<ResolvedKeybind>)
    requires
        forall|i: int|
            0 <= i < keybinds.len() ==> #[trigger] keysym_from_name.requires(
                (&keybinds@[i].key,),
            ),
    ensures
        r.len() == keybinds.len(),
        forall|i: int|
            0 <= i < r.len() ==> {
                &&& keysym_from_name.ensures((&keybinds@[i].key,), (#[trigger] r@[i]).keysym)
                &&& r@[i].modifiers == modifiers_named(keybinds@[i].modifiers@)
                &&& r@[i].keycode == position_of(us_layout@, r@[i].keysym)
                &&& r@[i].action == keybinds@[i].action
            },
{
    let mut keysyms: Vec<u32> = Vec::new();
    let mut i: usize = 0;
    while i < keybinds.len()
        invariant
            i <= keybinds.len(),
            keysyms.len() == i,
            forall|k: int|
                0 <= k < keybinds.len() ==> #[trigger] keysym_from_name.requires(
                    (&keybinds@[k].key,),
                ),
            forall|k: int|
                0 <= k < i ==> keysym_from_name.ensures(
                    (&keybinds@[k].key,),
                    #[trigger] keysyms@[k],
                ),
        decreases keybinds.len() - i,
    {
        let keysym: u32 = keysym_from_name(&keybinds[i].key);
        keysyms.push(keysym);
        i = i + 1;
    }
    let r = resolve_with_keysyms(keybinds, &keysyms, us_layout);
    proof {
        assert forall|k: int| 0 <= k < r.len() implies keysym_from_name.ensures(
            (&keybinds@[k].key,),
            (#[trigger] r@[k]).keysym,
        ) by {
            assert(r@[k].keysym == keysyms@[k]);
        }
    }
    r
}

/// Resolve all bindings; `keysyms` are the symbols of their keys, in order.
pub fn resolve_with_keysyms(
    keybinds: Vec<Keybind>,
    keysyms: &Vec<u32>,
    us_layout: &Vec<KeyPosition>,
) -> (r: Vec<ResolvedKeybind>)
    requires
        keybinds.len() == keysyms.len(),
    ensures
        r.len() == keybinds.len(),
        forall|i: int|
            0 <= i < r.len() ==> {
                &&& (#[trigger] r@[i]).modifiers == modifiers_named(keybinds@[i].modifiers@)
                &&& r@[i].keycode == position_of(us_layout@, keysyms@[i])
                &&& r@[i].keysym == keysyms@[i]
                &&& r@[i].action == keybinds@[i].action
            },
{
    let mut r: Vec<ResolvedKeybind> = Vec::new();
    let ghost all = keybinds@;
    let mut rest = keybinds;
    let n: usize = rest.len();
    let mut backward: Vec<ResolvedKeybind> = Vec::new();
    let mut i: usize = n;
    while i > 0
        invariant
            i <= n,
            n == all.len(),
            n == keysyms.len(),
            rest@ == all.subrange(0, i as int),
            backward.len() == n - i,
            forall|k: int|
                0 <= k < n - i ==> {
                    &&& (#[trigger] backward@[k]).modifiers == modifiers_named(
                        all[n - 1 - k].modifiers@,
                    )
                    &&& backward@[k].keycode == position_of(us_layout@, keysyms@[n - 1 - k])
                    &&& backward@[k].keysym == keysyms@[n - 1 - k]
                    &&& backward@[k].action == all[n - 1 - k].action
                },
        decreases i,
    {
        match rest.pop() {
            Some(bind) => {
                proof {
                    assert(bind == all[i - 1]);
                    assert(rest@ =~= all.subrange(0, i - 1));
                }
                backward.push(
                    resolve_keybind(&bind.modifiers, keysyms[i - 1], us_layout, bind.action),
                );
            },
            None => {},
        }
        i = i - 1;
    }
    let ghost resolved = backward@;
    let mut left: usize = n;
    while left > 0
        invariant
            left <= n,
            n == all.len(),
            n == keysyms.len(),
            resolved.len() == n,
            backward@ == resolved.subrange(0, left as int),
            r.len() == n - left,
            forall|k: int| 0 <= k < n - left ==> #[trigger] r@[k] == resolved[n - 1 - k],
        decreases left,
    {
        match backward.pop() {
            Some(bind) => {
                proof {
                    assert(bind == resolved[left - 1]);
                    assert(backward@ =~= resolved.subrange(0, left - 1));
                }
                r.push(bind);
            },
            None => {},
        }
        left = left - 1;
    }
    proof {
        assert forall|k: int| 0 <= k < r.len() implies {
            &&& (#[trigger] r@[k]).modifiers == modifiers_named(all[k].modifiers@)
            &&& r@[k].keycode == position_of(us_layout@, keysyms@[k])
            &&& r@[k].keysym == keysyms@[k]
            &&& r@[k].action == all[k].action
        } by {
            let b = resolved[n - 1 - k];
            assert(b.keysym == keysyms@[k]);
        }
    }
    r
}

/// Whether a binding answers to a key: the modifiers are the same, and the key
/// is the one at its place, or has its symbol where it has no place.
pub open spec fn answers(
    bind: ResolvedKeybind,
    modifiers: Modifiers,
    keycode: u32,
    keysym: u32,
) -> bool {
    &&& bind.modifiers == modifiers
    &&& match bind.keycode {
        Some(expected) => keycode == expected,
        None => bind.keysym == keysym,
    }
}

/// The symbol that bindings go by: the first one of the key without
/// modifiers, or the modified one where it has none.
pub fn binding_keysym(raw_syms: &Vec<u32>, modified: u32) -> (r: u32)
    ensures
        r == if raw_syms.len() > 0 {
            raw_syms@[0]
        } else {
            modified
        },
{
    if raw_syms.len() == 0 {
        modified
    } else {
        raw_syms[0]
    }
}

/// The first binding that answers to a key.
pub fn match_keybind(
    binds: &Vec<ResolvedKeybind>,
    modifiers: Modifiers,
    keycode: u32,
    keysym: u32,
) -> (r: Option<usize>)
    ensures
        match r {
            Some(i) => {
                &&& i < binds.len()
                &&& answers(binds@[i as int], modifiers, keycode, keysym)
                &&& forall|k: int|
                    0 <= k < i ==> !answers(#[trigger] binds@[k], modifiers, keycode, keysym)
            },
            None => forall|k: int|
                0 <= k < binds.len() ==> !answers(#[trigger] binds@[k], modifiers, keycode, keysym),
        },
{
    let mut i: usize = 0;
    while i < binds.len()
        invariant
            i <= binds.len(),
            forall|k: int|
                0 <= k < i ==> !answers(#[trigger] binds@[k], modifiers, keycode, keysym),
        decreases binds.len() - i,
    {
        let bind = &binds[i];
        if bind.modifiers == modifiers {
            let matches = match bind.keycode {
                Some(expected) => keycode == expected,
                None => bind.keysym == keysym,
            };
            if matches {
                return Some(i);
            }
        }
        i = i + 1;
    }
    None
}

/// The first of the symbols that switch to another terminal.
pub const XF86_SWITCH_VT_1: u32 = 0x1008_FE01;

/// The last of them.
pub const XF86_SWITCH_VT_12: u32 = 0x1008_FE0C;

/// The terminal that a symbol switches to.
pub open spec fn terminal_of(keysym: u32) -> Option<i32> {
    if XF86_SWITCH_VT_1 <= keysym <= XF86_SWITCH_VT_12 {
        Some((keysym - XF86_SWITCH_VT_1 + 1) as i32)
    } else {
        None
    }
}

/// What becomes of a key event.
#[derive(Debug, Clone, Copy, PartialEq, Eq, Structural)]
pub enum KeyOutcome {
    /// Switch to the terminal; the client does not see the key.
    SwitchVt(i32),
    /// Run the binding's action; the client does not see the key.
    Run(usize),
    /// Hand the key to the focused client.
    Forward,
}

/// Decide what becomes of a key. Terminal switches always work; while the
/// session is locked no binding does, so that every other key goes to the lock
/// surface and nowhere else.
pub fn filter_key(
    binds: &Vec<ResolvedKeybind>,
    pressed: bool,
    locked: bool,
    modifiers: Modifiers,
    keycode: u32,
    modified_sym: u32,
    raw_syms: &Vec<u32>,
) -> (r: KeyOutcome)
    ensures
        ({
            let keysym = if raw_syms.len() > 0 { raw_syms@[0] } else { modified_sym };
            match r {
                KeyOutcome::SwitchVt(vt) => pressed && terminal_of(modified_sym) == Some(vt),
                KeyOutcome::Run(i) => {
                    &&& pressed
                    &&& !locked
                    &&& terminal_of(modified_sym) is None
                    &&& i < binds.len()
                    &&& answers(binds@[i as int], modifiers, keycode, keysym)
                    &&& forall|k: int|
                        0 <= k < i ==> !answers(#[trigger] binds@[k], modifiers, keycode, keysym)
                },
                KeyOutcome::Forward => pressed ==> {
                    &&& terminal_of(modified_sym) is None
                    &&& locked || forall|k: int|
                        0 <= k < binds.len() ==> !answers(
                            #[trigger] binds@[k],
                            modifiers,
                            keycode,
                            keysym,
                        )
                },
            }
        }),
{
    if pressed {
        if XF86_SWITCH_VT_1 <= modified_sym && modified_sym <= XF86_SWITCH_VT_12 {
            let vt: i32 = (modified_sym - XF86_SWITCH_VT_1 + 1) as i32;
            return KeyOutcome::SwitchVt(vt);
        }
        if !locked {
            let keysym: u32 = binding_keysym(raw_syms, modified_sym);
            if let Some(i) = match_keybind(binds, modifiers, keycode, keysym) {
                return KeyOutcome::Run(i);
            }
        }
    }
    KeyOutcome::Forward
}

/// Whether a word, whatever its case, is among the modifiers of a binding.
pub open spec fn is_worded(names: Seq<String>, word: Seq<char>) -> bool {
    exists|i: int| 0 <= i < names.len() && text::lowered((#[trigger] names[i])@) == word
}

/// Each modifier is set by its own words and by no others.
pub proof fn modifier_words_set_their_modifiers(names: Seq<String>)
    ensures
        modifiers_named(names).logo <==> is_worded(names, "super"@) || is_worded(names, "mod4"@)
            || is_worded(names, "logo"@),
        modifiers_named(names).shift <==> is_worded(names, "shift"@),
        modifiers_named(names).ctrl <==> is_worded(names, "ctrl"@) || is_worded(names, "control"@),
        modifiers_named(names).alt <==> is_worded(names, "alt"@) || is_worded(names, "mod1"@),
{
}

/// A binding that names a modifier does not answer to a key that is pressed alone, and
/// answers to no key without that modifier held.
pub proof fn a_modified_binding_needs_its_modifier(
    bind: ResolvedKeybind,
    names: Seq<String>,
    held: Modifiers,
    keycode: u32,
    keysym: u32,
)
    requires
        bind.modifiers == modifiers_named(names),
        answers(bind, held, keycode, keysym),
    ensures
        is_worded(names, "super"@) || is_worded(names, "mod4"@) || is_worded(names, "logo"@)
            ==> held.logo,
        is_worded(names, "shift"@) ==> held.shift,
        is_worded(names, "ctrl"@) || is_worded(names, "control"@) ==> held.ctrl,
        is_worded(names, "alt"@) || is_worded(names, "mod1"@) ==> held.alt,
        names.len() == 0 ==> !held.logo && !held.shift && !held.ctrl && !held.alt,
{
    modifier_words_set_their_modifiers(names);
}

/// A binding answers to the key at its place, whatever symbol that has, and to no key
/// at another place; one without a place answers to the symbol.
pub proof fn bindings_go_by_place(bind: ResolvedKeybind, keycode: u32, keysym: u32, other: u32)
    ensures
        bind.keycode == Some(keycode) ==> answers(bind, bind.modifiers, keycode, keysym),
        bind.keycode == Some(keycode) && other != keycode ==> !answers(
            bind,
            bind.modifiers,
            other,
            keysym,
        ),
        bind.keycode is None ==> (answers(bind, bind.modifiers, keycode, keysym) <==> bind.keysym
            == keysym),
{
}

/// The place of a symbol is that of the first key that produces it; a symbol that no
/// key produces has none.
pub proof fn the_place_is_that_of_the_first_key(layout: Seq<KeyPosition>, keysym: u32)
    ensures
        match position_of(layout, keysym) {
            Some(keycode) => exists|i: int|
                0 <= i < layout.len() && (#[trigger] layout[i]).keysym == keysym
                    && layout[i].keycode == keycode && forall|k: int|
                    0 <= k < i ==> (#[trigger] layout[k]).keysym != keysym,
            None => forall|i: int| 0 <= i < layout.len() ==> (#[trigger] layout[i]).keysym != keysym,
        },
    decreases layout.len(),
{
    if layout.len() > 0 {
        let rest = layout.drop_first();
        the_place_is_that_of_the_first_key(rest, keysym);
        if layout[0].keysym == keysym {
            assert(layout[0].keysym == keysym && layout[0].keycode == position_of(layout, keysym)->0);
        } else {
            match position_of(rest, keysym) {
                Some(keycode) => {
                    let i = choose|i: int|
                        0 <= i < rest.len() && (#[trigger] rest[i]).keysym == keysym
                            && rest[i].keycode == keycode && forall|k: int|
                            0 <= k < i ==> (#[trigger] rest[k]).keysym != keysym;
                    assert(layout[i + 1] == rest[i]);
                    assert forall|k: int| 0 <= k < i + 1 implies (#[trigger] layout[k]).keysym
                        != keysym by {
                        if k > 0 {
                            assert(layout[k] == rest[k - 1]);
                        }
                    }
                },
                None => {
                    assert forall|i: int| 0 <= i < layout.len() implies (#[trigger] layout[i]).keysym
                        != keysym by {
                        if i > 0 {
                            assert(layout[i] == rest[i - 1]);
                        }
                    }
                },
            }
        }
    }
}

/// The twelve symbols that switch terminals stand for the terminals one to twelve, in
/// order, and no other symbol does.
pub proof fn terminal_symbols_name_their_terminals(keysym: u32)
    ensures
        0x1008_FE01 <= keysym <= 0x1008_FE0C <==> terminal_of(keysym) is Some,
        terminal_of(keysym) is Some ==> 1 <= terminal_of(keysym)->0 <= 12 && 0x1008_FE00
            + terminal_of(keysym)->0 == keysym,
{
}

} // verus!
