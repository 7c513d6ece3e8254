//! What it takes to start a client: the argument vector and the environment.
use crate::text::{self, views};
use vstd::prelude::*;
use vstd::string::*;

verus! {

/// The bytes that mean something to a shell.
pub open spec fn is_shell_metacharacter(byte: u8) -> bool {
    ||| byte == 0x24  // $
    ||| byte == 0x60  // `
    ||| byte == 0x5C  // \
    ||| byte == 0x27  // '
    ||| byte == 0x22  // "
    ||| byte == 0x7C  // |
    ||| byte == 0x26  // &
    ||| byte == 0x3B  // ;
    ||| byte == 0x3C  // <
    ||| byte == 0x3E  // >
    ||| byte == 0x28  // (
    ||| byte == 0x29  // )
    ||| byte == 0x7B  // {
    ||| byte == 0x7D  // }
    ||| byte == 0x5B  // [
    ||| byte == 0x5D  // ]
    ||| byte == 0x2A  // *
    ||| byte == 0x3F  // ?
    ||| byte == 0x7E  // ~
    ||| byte == 0x23  // #
    ||| byte == 0x21  // !
    ||| byte == 0x0A
    ||| byte == 0x0D
    ||| byte == 0x3D  // =
}

pub fn shell_metacharacter(byte: u8) -> (r: bool)
    ensures
        r == is_shell_metacharacter(byte),
{
    byte == 0x24 || byte == 0x60 || byte == 0x5C || byte == 0x27 || byte == 0x22 || byte == 0x7C || byte
        == 0x26 || byte == 0x3B || byte == 0x3C || byte == 0x3E || byte == 0x28 || byte == 0x29 || byte
        == 0x7B || byte == 0x7D || byte == 0x5B || byte == 0x5D || byte == 0x2A || byte == 0x3F || byte
        == 0x7E || byte == 0x23 || byte == 0x21 || byte == 0x0A || byte == 0x0D || byte == 0x3D
}

/// Whether a character means something to a shell. Only ASCII ones do.
pub open spec fn is_shell_char(c: char) -> bool {
    (c as u32) < 128 && is_shell_metacharacter(c as u8)
}

/// Whether `cmd` can be run without a shell: something is left of it once it is
/// trimmed, and no character of that means anything to a shell.
pub open spec fn is_simple(cmd: Seq<char>) -> bool {
    let trimmed = text::trimmed(cmd);
    &&& trimmed.len() > 0
    &&& forall|i: int| 0 <= i < trimmed.len() ==> !is_shell_char(#[trigger] trimmed[i])
    &&& text::words_of(trimmed, false).len() > 0
}

/// The words of a command that needs no shell, else `None`.
pub fn try_split_simple_command(cmd: &str) -> (r: Option<Vec<String>>)
    ensures
        r is Some <==> is_simple(cmd@),
        r matches Some(parts) ==> views(parts@) == text::words_of(text::trimmed(cmd@), false),
{
    let trimmed = text::trim(cmd);
    if trimmed.len() == 0 {
        return None;
    }
    let mut i: usize = 0;
    while i < trimmed.len()
        invariant
            i <= trimmed.len(),
            trimmed@ == text::trimmed(cmd@),
            forall|k: int| 0 <= k < i ==> !is_shell_char(#[trigger] trimmed@[k]),
        decreases trimmed.len() - i,
    {
        let c = trimmed[i];
        if (c as u32) < 128 && shell_metacharacter(c as u8) {
            proof {
                assert(is_shell_char(trimmed@[i as int]));
            }
            return None;
        }
        i = i + 1;
    }
    let parts = text::split_words(&trimmed, false);
    proof {
        assert(parts@.len() == views(parts@).len());
    }
    if parts.len() == 0 {
        None
    } else {
        Some(parts)
    }
}

/// The argument vector that runs `cmd`: its own words where it is simple, else
/// the shell with the command as it stands.
pub open spec fn argv_of(cmd: Seq<char>) -> Seq<Seq<char>> {
    if is_simple(cmd) {
        text::words_of(text::trimmed(cmd), false)
    } else {
        seq!["sh"@, "-c"@, cmd]
    }
}

pub fn command_line(cmd: &str) -> (r: Vec<String>)
    ensures
        views(r@) == argv_of(cmd@),
        r.len() > 0,
{
    match try_split_simple_command(cmd) {
        Some(parts) => {
            proof {
                assert(parts@.len() == views(parts@).len());
            }
            parts
        },
        None => {
            let mut r: Vec<String> = Vec::new();
            r.push("sh".to_owned());
            r.push("-c".to_owned());
            r.push(cmd.to_owned());
            proof {
                assert(views(r@) =~= argv_of(cmd@));
            }
            r
        },
    }
}

/// A variable of a child's environment.
#[derive(Debug)]
pub struct EnvVar {
    pub key: String,
    pub value: String,
}

pub open spec fn var_view(var: EnvVar) -> (Seq<char>, Seq<char>) {
    (var.key@, var.value@)
}

pub open spec fn var_views(vars: Seq<EnvVar>) -> Seq<(Seq<char>, Seq<char>)> {
    vars.map_values(|var: EnvVar| var_view(var))
}

/// A change to the environment that a child inherits.
#[derive(Debug)]
pub enum EnvChange {
    Remove(String),
    Assign(EnvVar),
}

/// The compositor's own environment for the clients that it starts.
#[derive(Debug)]
pub struct ChildEnvironment {
    vars: Vec<EnvVar>,
    sanitize_display: bool,
}

/// The value that `vars` give to `key`.
pub open spec fn lookup(vars: Seq<EnvVar>, key: Seq<char>) -> Option<Seq<char>>
    decreases vars.len(),
{
    if vars.len() == 0 {
        None
    } else if vars.last().key@ == key {
        Some(vars.last().value@)
    } else {
        lookup(vars.drop_last(), key)
    }
}

proof fn lemma_lookup_at(vars: Seq<EnvVar>, i: int)
    requires
        0 <= i < vars.len(),
        forall|a: int, b: int|
            0 <= a < b < vars.len() ==> (#[trigger] vars[a]).key@ != (#[trigger] vars[b]).key@,
    ensures
        lookup(vars, vars[i].key@) == Some(vars[i].value@),
    decreases vars.len(),
{
    if i < vars.len() - 1 {
        assert(vars[i].key@ != vars[vars.len() - 1].key@);
        lemma_lookup_at(vars.drop_last(), i);
    }
}

proof fn lemma_lookup_none(vars: Seq<EnvVar>, key: Seq<char>)
    requires
        forall|i: int| 0 <= i < vars.len() ==> (#[trigger] vars[i]).key@ != key,
    ensures
        lookup(vars, key) is None,
    decreases vars.len(),
{
    if vars.len() > 0 {
        assert(vars[vars.len() - 1].key@ != key);
        lemma_lookup_none(vars.drop_last(), key);
    }
}

proof fn lemma_lookup_update(vars: Seq<EnvVar>, i: int, var: EnvVar, key: Seq<char>)
    requires
        0 <= i < vars.len(),
        var.key@ == vars[i].key@,
        forall|a: int, b: int|
            0 <= a < b < vars.len() ==> (#[trigger] vars[a]).key@ != (#[trigger] vars[b]).key@,
    ensures
        lookup(vars.update(i, var), key) == if key == var.key@ {
            Some(var.value@)
        } else {
            lookup(vars, key)
        },
    decreases vars.len(),
{
    let updated = vars.update(i, var);
    if i < vars.len() - 1 {
        assert(vars[i].key@ != vars[vars.len() - 1].key@);
        assert(updated.drop_last() =~= vars.drop_last().update(i, var));
        lemma_lookup_update(vars.drop_last(), i, var, key);
    } else {
        assert(updated.drop_last() =~= vars.drop_last());
    }
}

/// The variables that services started through D-Bus or systemd need in order
/// to find the session.
pub open spec fn activation_keys() -> Seq<Seq<char>> {
    seq![
        "WAYLAND_DISPLAY"@,
        "DISPLAY"@,
        "XDG_CURRENT_DESKTOP"@,
        "XDG_SESSION_DESKTOP"@,
        "XDG_SESSION_TYPE"@,
        "XDG_RUNTIME_DIR"@,
    ]
}

/// The variables among `keys` that are set, in the order of `keys`.
pub open spec fn set_among(
    keys: Seq<Seq<char>>,
    value_of: spec_fn(Seq<char>) -> Option<Seq<char>>,
) -> Seq<(Seq<char>, Seq<char>)>
    decreases keys.len(),
{
    if keys.len() == 0 {
        Seq::empty()
    } else {
        let rest = set_among(keys.drop_last(), value_of);
        match value_of(keys.last()) {
            Some(value) => rest.push((keys.last(), value)),
            None => rest,
        }
    }
}

impl ChildEnvironment {
    /// No variable is set twice.
    pub closed spec fn wf(&self) -> bool {
        forall|a: int, b: int|
            0 <= a < b < self.vars@.len() ==> (#[trigger] self.vars@[a]).key@ != (
            #[trigger] self.vars@[b]).key@
    }

    /// The value of a variable, where it is set.
    pub closed spec fn value_of(&self, key: Seq<char>) -> Option<Seq<char>> {
        lookup(self.vars@, key)
    }

    pub closed spec fn sanitizes_display(&self) -> bool {
        self.sanitize_display
    }

    /// An environment with nothing set.
    pub fn new() -> (r: Self)
        ensures
            r.wf(),
            forall|key: Seq<char>| r.value_of(key) is None,
            !r.sanitizes_display(),
    {
        ChildEnvironment { vars: Vec::new(), sanitize_display: false }
    }

    /// The environment of a Wayland session on the socket `socket_name`. The
    /// desktop's identity is what routes portals to the right backend.
    pub fn wayland(socket_name: &str) -> (r: Self)
        ensures
            r.wf(),
            !r.sanitizes_display(),
            forall|key: Seq<char>| #[trigger]
                r.value_of(key) == if key == "NIXOS_OZONE_WL"@ {
                    Some("1"@)
                } else if key == "ELECTRON_OZONE_PLATFORM_HINT"@ {
                    Some("wayland"@)
                } else if key == "XDG_SESSION_DESKTOP"@ {
                    Some("beewm"@)
                } else if key == "XDG_CURRENT_DESKTOP"@ {
                    Some("beewm"@)
                } else if key == "XDG_SESSION_TYPE"@ {
                    Some("wayland"@)
                } else if key == "WAYLAND_DISPLAY"@ {
                    Some(socket_name@)
                } else {
                    None
                },
    {
        let mut env = ChildEnvironment::new();
        env.set("WAYLAND_DISPLAY", socket_name);
        env.set("XDG_SESSION_TYPE", "wayland");
        env.set("XDG_CURRENT_DESKTOP", "beewm");
        env.set("XDG_SESSION_DESKTOP", "beewm");
        env.set("ELECTRON_OZONE_PLATFORM_HINT", "wayland");
        env.set("NIXOS_OZONE_WL", "1");
        env
    }

    pub fn set(&mut self, key: &str, value: &str)
        requires
            old(self).wf(),
        ensures
            final(self).wf(),
            final(self).sanitizes_display() == old(self).sanitizes_display(),
            forall|k: Seq<char>| #[trigger]
                final(self).value_of(k) == if k == key@ {
                    Some(value@)
                } else {
                    old(self).value_of(k)
                },
    {
        let var = EnvVar { key: key.to_owned(), value: value.to_owned() };
        let ghost before = self.vars@;
        let mut i: usize = 0;
        while i < self.vars.len()
            invariant
                i <= self.vars.len(),
                self.wf(),
                self.vars@ == before,
                self.sanitize_display == old(self).sanitize_display,
                old(self).vars@ == before,
                var.key@ == key@,
                var.value@ == value@,
                forall|k: int| 0 <= k < i ==> (#[trigger] self.vars@[k]).key@ != key@,
            decreases self.vars.len() - i,
        {
            if text::str_eq(self.vars[i].key.as_str(), key) {
                proof {
                    assert forall|k: Seq<char>| #[trigger]
                        lookup(before.update(i as int, var), k) == if k == key@ {
                            Some(value@)
                        } else {
                            lookup(before, k)
                        } by {
                        lemma_lookup_update(before, i as int, var, k);
                    }
                }
                self.vars.set(i, var);
                return ;
            }
            i = i + 1;
        }
        self.vars.push(var);
        proof {
            assert(self.vars@.drop_last() =~= before);
            assert(self.vars@.last() == var);
        }
    }

    pub fn set_sanitize_display(&mut self, sanitize_display: bool)
        requires
            old(self).wf(),
        ensures
            final(self).wf(),
            final(self).sanitizes_display() == sanitize_display,
            forall|k: Seq<char>| #[trigger] final(self).value_of(k) == old(self).value_of(k),
    {
        self.sanitize_display = sanitize_display;
    }

    /// The value of `key`, where it is set.
    pub fn get(&self, key: &str) -> (r: Option<String>)
        requires
            self.wf(),
        ensures
            match r {
                Some(value) => self.value_of(key@) == Some(value@),
                None => self.value_of(key@) is None,
            },
    {
        let mut i: usize = 0;
        while i < self.vars.len()
            invariant
                i <= self.vars.len(),
                self.wf(),
                forall|k: int| 0 <= k < i ==> (#[trigger] self.vars@[k]).key@ != key@,
            decreases self.vars.len() - i,
        {
            if text::str_eq(self.vars[i].key.as_str(), key) {
                proof {
                    lemma_lookup_at(self.vars@, i as int);
                }
                return Some(self.vars[i].value.clone());
            }
            i = i + 1;
        }
        proof {
            lemma_lookup_none(self.vars@, key@);
        }
        None
    }

    /// The variables that services outside the compositor's process tree need,
    /// as far as they are set.
    pub fn session_activation_pairs(&self) -> (r: Vec<EnvVar>)
        requires
            self.wf(),
        ensures
            var_views(r@) == set_among(activation_keys(), |k: Seq<char>| self.value_of(k)),
    {
        let keys: Vec<&str> = vec![
            "WAYLAND_DISPLAY",
            "DISPLAY",
            "XDG_CURRENT_DESKTOP",
            "XDG_SESSION_DESKTOP",
            "XDG_SESSION_TYPE",
            "XDG_RUNTIME_DIR",
        ];
        let ghost value_of = |k: Seq<char>| self.value_of(k);
        let mut r: Vec<EnvVar> = Vec::new();
        let mut i: usize = 0;
        proof {
            assert(activation_keys().subrange(0, 0) =~= Seq::<Seq<char>>::empty());
            assert(var_views(r@) =~= Seq::<(Seq<char>, Seq<char>)>::empty());
        }
        while i < keys.len()
            invariant
                i <= keys.len(),
                keys.len() == activation_keys().len(),
                forall|k: int| 0 <= k < keys.len() ==> (#[trigger] keys@[k])@ == activation_keys()[k],
                self.wf(),
                value_of == (|k: Seq<char>| self.value_of(k)),
                var_views(r@) == set_among(activation_keys().subrange(0, i as int), value_of),
            decreases keys.len() - i,
        {
            let ghost next = activation_keys().subrange(0, i + 1);
            proof {
                assert(next.drop_last() =~= activation_keys().subrange(0, i as int));
                assert(next.last() == keys@[i as int]@);
            }
            match self.get(keys[i]) {
                Some(value) => {
                    let var = EnvVar { key: keys[i].to_owned(), value };
                    proof {
                        assert(var_views(r@.push(var)) =~= var_views(r@).push(var_view(var)));
                    }
                    r.push(var);
                },
                None => {},
            }
            i = i + 1;
        }
        proof {
            assert(activation_keys().subrange(0, i as int) =~= activation_keys());
        }
        r
    }

    /// What a child's environment changes, in order: the inherited socket goes,
    /// then the inherited display where it is not to be trusted, and last the
    /// variables of this environment are set.
    pub fn changes(&self) -> (r: Vec<EnvChange>)
        requires
            self.wf(),
        ensures
            ({
                let head: int = if self.sanitizes_display() { 2 } else { 1 };
                &&& r.len() >= head
                &&& r@[0] matches EnvChange::Remove(key) && key@ == "WAYLAND_SOCKET"@
                &&& self.sanitizes_display() ==> (r@[1] matches EnvChange::Remove(key) && key@
                    == "DISPLAY"@)
                &&& forall|i: int| head <= i < r.len() ==> (#[trigger] r@[i]) is Assign
                &&& forall|i: int|
                    head <= i < r.len() ==> (#[trigger] r@[i] matches EnvChange::Assign(var)
                        && self.value_of(var.key@) == Some(var.value@))
                &&& forall|key: Seq<char>| #[trigger]
                    self.value_of(key) is Some ==> exists|i: int|
                        head <= i < r.len() && (#[trigger] r@[i] matches EnvChange::Assign(var)
                            && var.key@ == key)
            }),
    {
        let mut r: Vec<EnvChange> = Vec::new();
        r.push(EnvChange::Remove("WAYLAND_SOCKET".to_owned()));
        if self.sanitize_display {
            r.push(EnvChange::Remove("DISPLAY".to_owned()));
        }
        let ghost head = r@.len();
        let ghost prefix = r@;
        let mut i: usize = 0;
        while i < self.vars.len()
            invariant
                i <= self.vars.len(),
                self.wf(),
                head == if self.sanitize_display {
                    2nat
                } else {
                    1nat
                },
                prefix.len() == head,
                prefix[0] matches EnvChange::Remove(key) && key@ == "WAYLAND_SOCKET"@,
                self.sanitize_display ==> (prefix[1] matches EnvChange::Remove(key) && key@
                    == "DISPLAY"@),
                r@.len() == head + i,
                forall|k: int| 0 <= k < head ==> r@[k] == prefix[k],
                forall|k: int|
                    0 <= k < i ==> (#[trigger] r@[head + k] matches EnvChange::Assign(var) && var.key@
                        == self.vars@[k].key@ && var.value@ == self.vars@[k].value@),
            decreases self.vars.len() - i,
        {
            r.push(
                EnvChange::Assign(
                    EnvVar { key: self.vars[i].key.clone(), value: self.vars[i].value.clone() },
                ),
            );
            i = i + 1;
        }
        proof {
            assert forall|k: int| head <= k < r.len() implies (#[trigger] r@[k] matches EnvChange::Assign(
                var,
            ) && self.value_of(var.key@) == Some(var.value@)) by {
                assert(r@[head + (k - head)] is Assign);
                lemma_lookup_at(self.vars@, k - head);
            }
            assert forall|key: Seq<char>| #[trigger] self.value_of(key) is Some implies exists|k: int|
                head <= k < r.len() && (#[trigger] r@[k] matches EnvChange::Assign(var) && var.key@
                    == key) by {
                if forall|k: int| 0 <= k < self.vars@.len() ==> (#[trigger] self.vars@[k]).key@ != key {
                    lemma_lookup_none(self.vars@, key);
                } else {
                    let k = choose|k: int|
                        0 <= k < self.vars@.len() && (#[trigger] self.vars@[k]).key@ == key;
                    assert(r@[head + k] is Assign);
                }
            }
        }
        r
    }
}

/// `KEY=VALUE`.
pub open spec fn assignment(pair: (Seq<char>, Seq<char>)) -> Seq<char> {
    pair.0 + "="@ + pair.1
}

/// The commands that hand the session's variables `pairs` to the services that
/// D-Bus and systemd start: the activation environment is updated, the
/// variables are imported by the user manager, and the session target starts.
pub open spec fn session_export(pairs: Seq<(Seq<char>, Seq<char>)>) -> Seq<Seq<Seq<char>>> {
    seq![
        seq!["dbus-update-activation-environment"@, "--systemd"@] + pairs.map_values(
            |pair: (Seq<char>, Seq<char>)| assignment(pair),
        ),
        seq!["systemctl"@, "--user"@, "import-environment"@] + pairs.map_values(
            |pair: (Seq<char>, Seq<char>)| pair.0,
        ),
        seq!["systemctl"@, "--user"@, "start"@, "beewm-session.target"@],
    ]
}

/// What each argument vector spells.
pub open spec fn argv_views(commands: Seq<Vec<String>>) -> Seq<Seq<Seq<char>>> {
    commands.map_values(|argv: Vec<String>| views(argv@))
}

/// The commands that export the session's environment: see [`session_export`].
/// None where the export is switched off or no variable of it is set.
pub fn session_export_commands(child_env: &ChildEnvironment, disabled: bool) -> (r: Vec<Vec<String>>)
    requires
        child_env.wf(),
    ensures
        ({
            let pairs = set_among(activation_keys(), |k: Seq<char>| child_env.value_of(k));
            argv_views(r@) == if disabled || pairs.len() == 0 {
                Seq::empty()
            } else {
                session_export(pairs)
            }
        }),
{
    let mut r: Vec<Vec<String>> = Vec::new();
    proof {
        assert(argv_views(r@) =~= Seq::empty());
    }
    if disabled {
        return r;
    }
    let pairs = child_env.session_activation_pairs();
    let ghost views_of_pairs = var_views(pairs@);
    if pairs.len() == 0 {
        return r;
    }
    let mut dbus: Vec<String> = Vec::new();
    dbus.push("dbus-update-activation-environment".to_owned());
    dbus.push("--systemd".to_owned());
    let mut import: Vec<String> = Vec::new();
    import.push("systemctl".to_owned());
    import.push("--user".to_owned());
    import.push("import-environment".to_owned());
    let mut i: usize = 0;
    while i < pairs.len()
        invariant
            i <= pairs.len(),
            views_of_pairs == var_views(pairs@),
            views(dbus@) =~= seq!["dbus-update-activation-environment"@, "--systemd"@]
                + views_of_pairs.subrange(0, i as int).map_values(
                |pair: (Seq<char>, Seq<char>)| assignment(pair),
            ),
            views(import@) =~= seq!["systemctl"@, "--user"@, "import-environment"@]
                + views_of_pairs.subrange(0, i as int).map_values(
                |pair: (Seq<char>, Seq<char>)| pair.0,
            ),
        decreases pairs.len() - i,
    {
        let mut arg = pairs[i].key.clone();
        arg.append("=");
        arg.append(pairs[i].value.as_str());
        let ghost pair = views_of_pairs[i as int];
        let ghost done = views_of_pairs.subrange(0, i as int);
        let ghost dbus0 = dbus@;
        let ghost import0 = import@;
        proof {
            assert(pair == var_view(pairs@[i as int]));
            assert(arg@ == assignment(pair));
            assert(views_of_pairs.subrange(0, i + 1) =~= done.push(pair));
            assert(done.push(pair).map_values(|p: (Seq<char>, Seq<char>)| assignment(p))
                =~= done.map_values(|p: (Seq<char>, Seq<char>)| assignment(p)).push(assignment(pair)));
            assert(done.push(pair).map_values(|p: (Seq<char>, Seq<char>)| p.0) =~= done.map_values(
                |p: (Seq<char>, Seq<char>)| p.0,
            ).push(pair.0));
        }
        dbus.push(arg);
        import.push(pairs[i].key.clone());
        proof {
            assert(views(dbus@) =~= views(dbus0).push(assignment(pair)));
            assert(views(import@) =~= views(import0).push(pair.0));
        }
        i = i + 1;
    }
    let mut session: Vec<String> = Vec::new();
    session.push("systemctl".to_owned());
    session.push("--user".to_owned());
    session.push("start".to_owned());
    session.push("beewm-session.target".to_owned());
    proof {
        assert(views_of_pairs.subrange(0, i as int) =~= views_of_pairs);
        assert(views(session@) =~= session_export(views_of_pairs)[2]);
    }
    r.push(dbus);
    r.push(import);
    r.push(session);
    proof {
        assert(argv_views(r@) =~= session_export(views_of_pairs));
    }
    r
}

/// A command with a character that the shell reads goes to the shell whole; one without
/// is started by its words, with no shell between.
pub proof fn only_plain_commands_go_without_a_shell(cmd: Seq<char>, i: int)
    requires
        0 <= i < text::trimmed(cmd).len(),
    ensures
        ({
            let c = text::trimmed(cmd)[i];
            let special = c == '$' || c == '`' || c == '|' || c == '&' || c == ';' || c == '<' || c
                == '>' || c == '(' || c == ')' || c == '*' || c == '?' || c == '~' || c == '#' || c
                == '!' || c == '=' || c == '\'' || c == '\\' || c == '\r' || c == '[' || c == ']' || c == '{' || c == '}' || c == '\n' || c
                == '"';
            special ==> argv_of(cmd) == seq!["sh"@, "-c"@, cmd]
        }),
        argv_of(cmd) != seq!["sh"@, "-c"@, cmd] ==> argv_of(cmd) == text::words_of(
            text::trimmed(cmd),
            false,
        ),
{
    let t = text::trimmed(cmd);
    let c = t[i];
    if is_shell_char(c) {
        assert(!is_simple(cmd));
    }
}

/// An empty command goes to the shell.
pub proof fn an_empty_command_goes_to_the_shell(cmd: Seq<char>)
    requires
        text::trimmed(cmd).len() == 0,
    ensures
        argv_of(cmd) == seq!["sh"@, "-c"@, cmd],
{
}

/// Letters, digits and the signs of paths and options are plain.
pub proof fn ordinary_characters_are_plain(c: char)
    ensures
        97 <= c as u32 <= 122 || 65 <= c as u32 <= 90 || 48 <= c as u32 <= 57 || c == '/' || c == '-'
            || c == '.' || c == '_' || c == ' ' || c == ',' || c == ':' || c == '+' || c == '@' || c
            == '%' ==> !is_shell_char(c),
{
}

/// The variables that are looked for are listed with their values in order, and those
/// that are not set are left out.
pub proof fn set_variables_are_listed(
    keys: Seq<Seq<char>>,
    value_of: spec_fn(Seq<char>) -> Option<Seq<char>>,
)
    ensures
        forall|i: int|
            0 <= i < keys.len() && value_of(#[trigger] keys[i]) is Some ==> set_among(
                keys,
                value_of,
            ).contains((keys[i], value_of(keys[i])->0)),
        forall|k: int|
            0 <= k < set_among(keys, value_of).len() ==> value_of(
                (#[trigger] set_among(keys, value_of)[k]).0,
            ) == Some(set_among(keys, value_of)[k].1) && keys.contains(
                set_among(keys, value_of)[k].0,
            ),
    decreases keys.len(),
{
    if keys.len() > 0 {
        let shorter = keys.drop_last();
        set_variables_are_listed(shorter, value_of);
        let rest = set_among(shorter, value_of);
        let all = set_among(keys, value_of);
        assert forall|i: int| 0 <= i < keys.len() && value_of(#[trigger] keys[i]) is Some implies all.contains(
        (keys[i], value_of(keys[i])->0)) by {
            let pair = (keys[i], value_of(keys[i])->0);
            if i < shorter.len() {
                assert(shorter[i] == keys[i]);
                assert(rest.contains(pair));
                let k = rest.index_of(pair);
                assert(all[k] == pair);
            } else {
                assert(all[rest.len() as int] == pair);
            }
        }
        assert forall|k: int| 0 <= k < all.len() implies value_of((#[trigger] all[k]).0) == Some(
            all[k].1,
        ) && keys.contains(all[k].0) by {
            if k < rest.len() {
                assert(all[k] == rest[k]);
                let j = shorter.index_of(rest[k].0);
                assert(shorter.contains(rest[k].0));
                assert(keys[j] == rest[k].0);
            } else {
                assert(keys[keys.len() - 1] == all[k].0);
            }
        }
    }
}

/// The session is told of every variable that is set: by name and value, by name, and then
/// its target is started.
pub proof fn the_session_is_told_of_the_variables(pairs: Seq<(Seq<char>, Seq<char>)>, i: int)
    requires
        0 <= i < pairs.len(),
    ensures
        ({
            let commands = session_export(pairs);
            &&& commands.len() == 3
            &&& commands[0].len() == pairs.len() + 2
            &&& commands[0][0] == "dbus-update-activation-environment"@
            &&& commands[0][1] == "--systemd"@
            &&& commands[0][i + 2] == pairs[i].0 + "="@ + pairs[i].1
            &&& commands[1].len() == pairs.len() + 3
            &&& commands[1][0] == "systemctl"@
            &&& commands[1][1] == "--user"@
            &&& commands[1][2] == "import-environment"@
            &&& commands[1][i + 3] == pairs[i].0
            &&& commands[2] == seq!["systemctl"@, "--user"@, "start"@, "beewm-session.target"@]
        }),
{
}

/// The variables that the session is told of are those that name the display, the desktop
/// and the session's directory.
pub proof fn the_session_learns_the_display()
    ensures
        activation_keys().len() == 6,
        activation_keys().contains("WAYLAND_DISPLAY"@),
        activation_keys().contains("DISPLAY"@),
        activation_keys().contains("XDG_CURRENT_DESKTOP"@),
        activation_keys().contains("XDG_SESSION_DESKTOP"@),
        activation_keys().contains("XDG_SESSION_TYPE"@),
        activation_keys().contains("XDG_RUNTIME_DIR"@),
{
    let keys = activation_keys();
    assert(keys[0] == "WAYLAND_DISPLAY"@ && keys[1] == "DISPLAY"@);
    assert(keys[2] == "XDG_CURRENT_DESKTOP"@ && keys[3] == "XDG_SESSION_DESKTOP"@);
    assert(keys[4] == "XDG_SESSION_TYPE"@ && keys[5] == "XDG_RUNTIME_DIR"@);
}

} // verus!
