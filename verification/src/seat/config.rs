//! The configuration: what the greeter is, and the two search paths of a
//! session, whose entries may leave a place for the account.
use vstd::prelude::*;
use crate::text;

verus! {

/// What stands for the account's login name.
pub const USER_PLACEHOLDER: &'static str = "{user}";

/// What stands for the account's home directory.
pub const HOME_PLACEHOLDER: &'static str = "{home}";

/// The variable that names a configuration file.
pub const DISCOVERY_VAR: &'static str = "MUKAE_CONFIG";

/// What the names of the variables that override single fields begin with.
pub const FIELD_ENV_PREFIX: &'static str = "MUKAE_OPT_";

/// The configuration.
#[derive(Debug, PartialEq, Eq)]
pub struct MukaeConfig {
    /// The greeter's program.
    pub greeter: Option<String>,
    /// The account that the greeter runs as.
    pub greeter_user: Option<String>,
    /// The terminal to claim.
    pub vt: Option<u32>,
    /// The session's `PATH`, in order.
    pub session_path: Vec<String>,
    /// The session's `XDG_DATA_DIRS`, in order.
    pub session_data_dirs: Vec<String>,
}

/// The `PATH` of the prescribed configuration. The setuid wrappers come first.
pub open spec fn prescribed_path() -> Seq<Seq<char>> {
    seq![
        "/run/wrappers/bin"@,
        "/etc/profiles/per-user/{user}/bin"@,
        "/run/current-system/sw/bin"@,
        "/usr/bin"@,
        "/bin"@,
    ]
}

/// The data directories of the prescribed configuration, the person's own first.
pub open spec fn prescribed_data_dirs() -> Seq<Seq<char>> {
    seq![
        "{home}/.nix-profile/share"@,
        "{home}/.local/state/nix/profile/share"@,
        "/etc/profiles/per-user/{user}/share"@,
        "/nix/var/nix/profiles/default/share"@,
        "/run/current-system/sw/share"@,
    ]
}

/// `s` with the placeholder replaced by `value`. Where there is a placeholder
/// and no value, there is nothing.
pub open spec fn filled(s: Seq<char>, placeholder: Seq<char>, value: Option<Seq<char>>) -> Option<
    Seq<char>,
> {
    if text::has_text(s, placeholder) {
        match value {
            Some(v) => Some(text::replaced(s, placeholder, v)),
            None => None,
        }
    } else {
        Some(s)
    }
}

/// A `PATH` entry for an account.
pub open spec fn path_entry(entry: Seq<char>, user: Option<Seq<char>>) -> Option<Seq<char>> {
    filled(entry, "{user}"@, user)
}

/// A data directory for an account: the name is filled in first, then the home.
pub open spec fn data_entry(
    entry: Seq<char>,
    user: Option<Seq<char>>,
    home: Option<Seq<char>>,
) -> Option<Seq<char>> {
    match filled(entry, "{user}"@, user) {
        Some(s) => filled(s, "{home}"@, home),
        None => None,
    }
}

/// What `f` makes of the entries, in order, without those it makes nothing of.
pub open spec fn kept(
    entries: Seq<Seq<char>>,
    f: spec_fn(Seq<char>) -> Option<Seq<char>>,
) -> Seq<Seq<char>>
    decreases entries.len(),
{
    if entries.len() == 0 {
        Seq::empty()
    } else {
        match f(entries.last()) {
            Some(s) => kept(entries.drop_last(), f).push(s),
            None => kept(entries.drop_last(), f),
        }
    }
}

/// The `PATH` for an account.
pub open spec fn path_for(entries: Seq<Seq<char>>, user: Option<Seq<char>>) -> Seq<char> {
    text::join_with(kept(entries, |e: Seq<char>| path_entry(e, user)), ":"@)
}

/// The data directories for an account.
pub open spec fn data_dirs_for(
    entries: Seq<Seq<char>>,
    user: Option<Seq<char>>,
    home: Option<Seq<char>>,
) -> Seq<char> {
    text::join_with(kept(entries, |e: Seq<char>| data_entry(e, user, home)), ":"@)
}

/// The text of an optional string slice.
pub open spec fn opt_str(s: Option<&str>) -> Option<Seq<char>> {
    match s {
        Some(x) => Some(x@),
        None => None,
    }
}

/// Fills a placeholder in.
fn fill(s: &str, placeholder: &str, value: Option<&str>) -> (r: Option<String>)
    requires
        placeholder@.len() > 0,
    ensures
        match r {
            Some(x) => filled(s@, placeholder@, opt_str(value)) == Some(x@),
            None => filled(s@, placeholder@, opt_str(value)) is None,
        },
{
    if text::contains_text(s, placeholder) {
        match value {
            Some(v) => Some(text::replace(s, placeholder, v)),
            None => None,
        }
    } else {
        Some(s.to_owned())
    }
}

impl MukaeConfig {
    /// The floor: no opinion at all.
    pub fn bare() -> (c: Self)
        ensures
            c.greeter is None,
            c.greeter_user is None,
            c.vt is None,
            c.session_path@.len() == 0,
            c.session_data_dirs@.len() == 0,
    {
        MukaeConfig {
            greeter: None,
            greeter_user: None,
            vt: None,
            session_path: Vec::new(),
            session_data_dirs: Vec::new(),
        }
    }

    /// The floor and what can be detected without an opinion, which is nothing.
    pub fn discovered() -> (c: Self)
        ensures
            c.greeter is None,
            c.greeter_user is None,
            c.vt is None,
            c.session_path@.len() == 0,
            c.session_data_dirs@.len() == 0,
    {
        MukaeConfig::bare()
    }

    /// The prescription.
    pub fn prescribed() -> (c: Self)
        ensures
            c.is_prescribed(),
    {
        let mut path: Vec<String> = Vec::new();
        path.push("/run/wrappers/bin".to_owned());
        path.push("/etc/profiles/per-user/{user}/bin".to_owned());
        path.push("/run/current-system/sw/bin".to_owned());
        path.push("/usr/bin".to_owned());
        path.push("/bin".to_owned());
        let mut dirs: Vec<String> = Vec::new();
        dirs.push("{home}/.nix-profile/share".to_owned());
        dirs.push("{home}/.local/state/nix/profile/share".to_owned());
        dirs.push("/etc/profiles/per-user/{user}/share".to_owned());
        dirs.push("/nix/var/nix/profiles/default/share".to_owned());
        dirs.push("/run/current-system/sw/share".to_owned());
        proof {
            assert(text::texts(path@) =~= prescribed_path());
            assert(text::texts(dirs@) =~= prescribed_data_dirs());
        }
        MukaeConfig {
            greeter: None,
            greeter_user: None,
            vt: None,
            session_path: path,
            session_data_dirs: dirs,
        }
    }

    /// Whether this is the prescription.
    pub open spec fn is_prescribed(&self) -> bool {
        &&& self.greeter is None
        &&& self.greeter_user is None
        &&& self.vt is None
        &&& text::texts(self.session_path@) == prescribed_path()
        &&& text::texts(self.session_data_dirs@) == prescribed_data_dirs()
    }

    /// The data directories for an account. An entry whose placeholder cannot
    /// be filled in is left out.
    pub fn session_data_dirs_for(&self, user: Option<&str>, home: Option<&str>) -> (s: String)
        ensures
            s@ == data_dirs_for(text::texts(self.session_data_dirs@), opt_str(user), opt_str(home)),
    {
        let ghost f = |e: Seq<char>| data_entry(e, opt_str(user), opt_str(home));
        let ghost all = text::texts(self.session_data_dirs@);
        let mut out: Vec<String> = Vec::new();
        let mut i: usize = 0;
        proof {
            reveal_strlit("{user}");
            reveal_strlit("{home}");
            assert(text::texts(out@) =~= kept(all.take(0), f));
        }
        while i < self.session_data_dirs.len()
            invariant
                i <= self.session_data_dirs.len(),
                all == text::texts(self.session_data_dirs@),
                f == (|e: Seq<char>| data_entry(e, opt_str(user), opt_str(home))),
                text::texts(out@) == kept(all.take(i as int), f),
                "{user}"@.len() > 0,
                "{home}"@.len() > 0,
            decreases self.session_data_dirs.len() - i,
        {
            proof {
                assert(all.take(i + 1).drop_last() =~= all.take(i as int));
                assert(all.take(i + 1).last() == self.session_data_dirs@[i as int]@);
            }
            let ghost before = out@;
            if let Some(s) = fill(self.session_data_dirs[i].as_str(), USER_PLACEHOLDER, user) {
                if let Some(t) = fill(s.as_str(), HOME_PLACEHOLDER, home) {
                    out.push(t);
                    proof {
                        assert(text::texts(out@) =~= text::texts(before).push(t@));
                    }
                }
            }
            i = i + 1;
        }
        proof {
            assert(all.take(i as int) =~= all);
        }
        text::join(&out, ":")
    }

    /// The `PATH` for an account. An entry whose placeholder cannot be filled
    /// in is left out.
    pub fn session_path_for(&self, user: Option<&str>) -> (s: String)
        ensures
            s@ == path_for(text::texts(self.session_path@), opt_str(user)),
    {
        let ghost f = |e: Seq<char>| path_entry(e, opt_str(user));
        let ghost all = text::texts(self.session_path@);
        let mut out: Vec<String> = Vec::new();
        let mut i: usize = 0;
        proof {
            reveal_strlit("{user}");
            assert(text::texts(out@) =~= kept(all.take(0), f));
        }
        while i < self.session_path.len()
            invariant
                i <= self.session_path.len(),
                all == text::texts(self.session_path@),
                f == (|e: Seq<char>| path_entry(e, opt_str(user))),
                text::texts(out@) == kept(all.take(i as int), f),
                "{user}"@.len() > 0,
            decreases self.session_path.len() - i,
        {
            proof {
                assert(all.take(i + 1).drop_last() =~= all.take(i as int));
                assert(all.take(i + 1).last() == self.session_path@[i as int]@);
            }
            let ghost before = out@;
            if let Some(s) = fill(self.session_path[i].as_str(), USER_PLACEHOLDER, user) {
                out.push(s);
                proof {
                    assert(text::texts(out@) =~= text::texts(before).push(s@));
                }
            }
            i = i + 1;
        }
        proof {
            assert(all.take(i as int) =~= all);
        }
        text::join(&out, ":")
    }
}

impl Default for MukaeConfig {
    /// The prescription, and not the floor.
    fn default() -> (c: Self)
        ensures
            c.is_prescribed(),
    {
        MukaeConfig::prescribed()
    }
}

/// Where the running configuration came from.
#[derive(Debug, Clone, Copy, PartialEq, Eq, Structural)]
pub enum ConfigSource {
    /// There is no file; the prescription is a working login.
    Prescribed,
    /// A file was found and loaded.
    File,
    /// A file was found and refused; the prescription is in use.
    FileRejected,
}

impl ConfigSource {
    pub open spec fn word(self) -> Seq<char> {
        match self {
            ConfigSource::Prescribed => "prescribed"@,
            ConfigSource::File => "file"@,
            ConfigSource::FileRejected => "file-rejected"@,
        }
    }

    /// The name to publish it under.
    pub fn as_str(self) -> (s: &'static str)
        ensures
            s@ == self.word(),
    {
        match self {
            ConfigSource::Prescribed => "prescribed",
            ConfigSource::File => "file",
            ConfigSource::FileRejected => "file-rejected",
        }
    }
}

/// The configuration to run with, and where it came from: `discovered` says
/// whether a file was found, `loaded` is what loading it gave. There is always
/// one: a file that does not load is set aside for the prescription.
pub fn choose_config(discovered: bool, loaded: Option<MukaeConfig>) -> (r: (MukaeConfig, ConfigSource))
    ensures
        !discovered ==> r.0.is_prescribed() && r.1 == ConfigSource::Prescribed,
        discovered ==> match loaded {
            Some(c) => r.0 == c && r.1 == ConfigSource::File,
            None => r.0.is_prescribed() && r.1 == ConfigSource::FileRejected,
        },
{
    if !discovered {
        return (MukaeConfig::prescribed(), ConfigSource::Prescribed);
    }
    match loaded {
        Some(c) => (c, ConfigSource::File),
        None => (MukaeConfig::prescribed(), ConfigSource::FileRejected),
    }
}

/// With nobody known, no entry that has a placeholder is rendered: every one
/// that is, stands in the configuration as it is and has none.
pub proof fn unfilled_entries_are_dropped(entries: Seq<Seq<char>>, i: int)
    requires
        0 <= i < kept(entries, |e: Seq<char>| data_entry(e, None, None)).len(),
    ensures
        ({
            let k = kept(entries, |e: Seq<char>| data_entry(e, None, None));
            &&& entries.contains(k[i])
            &&& !text::has_text(k[i], "{user}"@)
            &&& !text::has_text(k[i], "{home}"@)
        }),
    decreases entries.len(),
{
    let f = |e: Seq<char>| data_entry(e, None, None);
    let rest = entries.drop_last();
    let k = kept(entries, f);
    if f(entries.last()) is Some && i == k.len() - 1 {
        assert(k[i] == entries.last());
        assert(entries[entries.len() - 1] == k[i]);
    } else {
        unfilled_entries_are_dropped(rest, i);
        assert(kept(rest, f)[i] == k[i]);
        let j = choose|j: int| 0 <= j < rest.len() && rest[j] == k[i];
        assert(entries[j] == k[i]);
    }
}

/// The same for the `PATH`, which has one placeholder.
pub proof fn unfilled_path_entries_are_dropped(entries: Seq<Seq<char>>, i: int)
    requires
        0 <= i < kept(entries, |e: Seq<char>| path_entry(e, None)).len(),
    ensures
        ({
            let k = kept(entries, |e: Seq<char>| path_entry(e, None));
            entries.contains(k[i]) && !text::has_text(k[i], "{user}"@)
        }),
    decreases entries.len(),
{
    let f = |e: Seq<char>| path_entry(e, None);
    let rest = entries.drop_last();
    let k = kept(entries, f);
    if f(entries.last()) is Some && i == k.len() - 1 {
        assert(k[i] == entries.last());
        assert(entries[entries.len() - 1] == k[i]);
    } else {
        unfilled_path_entries_are_dropped(rest, i);
        assert(kept(rest, f)[i] == k[i]);
        let j = choose|j: int| 0 <= j < rest.len() && rest[j] == k[i];
        assert(entries[j] == k[i]);
    }
}

proof fn lemma_kept_first(entries: Seq<Seq<char>>, f: spec_fn(Seq<char>) -> Option<Seq<char>>)
    requires
        entries.len() > 0,
        f(entries[0]) is Some,
    ensures
        kept(entries, f).len() > 0,
        kept(entries, f)[0] == f(entries[0])->0,
    decreases entries.len(),
{
    if entries.len() > 1 {
        lemma_kept_first(entries.drop_last(), f);
    } else {
        assert(kept(entries.drop_last(), f).len() == 0);
    }
}

proof fn lemma_joined_first(parts: Seq<Seq<char>>, sep: Seq<char>)
    requires
        parts.len() > 0,
    ensures
        text::begins(text::join_with(parts, sep), parts[0]),
    decreases parts.len(),
{
    if parts.len() > 1 {
        lemma_joined_first(parts.drop_last(), sep);
        let front = text::join_with(parts.drop_last(), sep);
        let n = parts[0].len() as int;
        assert((front + sep + parts.last()).take(n) =~= front.take(n));
    } else {
        assert(parts[0].take(parts[0].len() as int) =~= parts[0]);
    }
}

/// The order of the entries is kept at the front: a `PATH` whose first entry has
/// no placeholder begins with that entry, whoever logs in.
pub proof fn the_first_entry_stays_first(entries: Seq<Seq<char>>, user: Option<Seq<char>>)
    requires
        entries.len() > 0,
        !text::has_text(entries[0], "{user}"@),
    ensures
        text::begins(path_for(entries, user), entries[0]),
{
    let f = |e: Seq<char>| path_entry(e, user);
    lemma_kept_first(entries, f);
    lemma_joined_first(kept(entries, f), ":"@);
}

/// The prescribed `PATH` leads with the setuid wrappers, whoever logs in.
pub proof fn the_wrappers_lead_the_prescribed_path(user: Option<Seq<char>>)
    ensures
        text::begins(path_for(prescribed_path(), user), "/run/wrappers/bin"@),
{
    let first = "/run/wrappers/bin"@;
    reveal_strlit("/run/wrappers/bin");
    reveal_strlit("{user}");
    assert forall|i: int| 0 <= i <= first.len() implies !#[trigger] text::begins(
        first.skip(i),
        "{user}"@,
    ) by {
        if text::begins(first.skip(i), "{user}"@) {
            assert(first.skip(i).take(6)[0] == first[i]);
            assert(first[i] == '{');
        }
    }
    the_first_entry_stays_first(prescribed_path(), user);
}

/// Filling a placeholder in leaves no brace behind, where neither the value nor
/// the text around the placeholder has one: no placeholder survives.
pub proof fn filling_leaves_no_placeholder(s: Seq<char>, placeholder: Seq<char>, value: Seq<char>)
    requires
        placeholder.len() > 0,
        !text::replaced(s, placeholder, Seq::empty()).contains('{'),
        !value.contains('{'),
    ensures
        !text::replaced(s, placeholder, value).contains('{'),
    decreases s.len(),
{
    let empty = Seq::<char>::empty();
    if s.len() >= placeholder.len() {
        if text::begins(s, placeholder) {
            let rest = s.skip(placeholder.len() as int);
            assert(empty + text::replaced(rest, placeholder, empty) =~= text::replaced(
                rest,
                placeholder,
                empty,
            ));
            filling_leaves_no_placeholder(rest, placeholder, value);
            lemma_no_brace(value, text::replaced(rest, placeholder, value));
        } else {
            let rest = s.skip(1);
            let bare = text::replaced(rest, placeholder, empty);
            assert((seq![s[0]] + bare)[0] == s[0]);
            assert forall|i: int| 0 <= i < bare.len() implies bare[i] != '{' by {
                assert((seq![s[0]] + bare)[i + 1] == bare[i]);
            }
            filling_leaves_no_placeholder(rest, placeholder, value);
            lemma_no_brace(seq![s[0]], text::replaced(rest, placeholder, value));
        }
    }
}

proof fn lemma_no_brace(a: Seq<char>, b: Seq<char>)
    requires
        !a.contains('{'),
        !b.contains('{'),
    ensures
        !(a + b).contains('{'),
{
    assert forall|i: int| 0 <= i < (a + b).len() implies (a + b)[i] != '{' by {
        if i < a.len() {
            assert(a[i] != '{');
        } else {
            assert(b[i - a.len()] != '{');
        }
    }
}

/// The variable that names a file is not one that overrides a field.
pub proof fn the_discovery_variable_overrides_no_field()
    ensures
        !text::begins(DISCOVERY_VAR@, FIELD_ENV_PREFIX@),
{
    reveal_strlit("MUKAE_CONFIG");
    reveal_strlit("MUKAE_OPT_");
    assert(DISCOVERY_VAR@.take(10)[6] == 'C');
    assert(FIELD_ENV_PREFIX@[6] == 'O');
}

/// A placeholder between texts without a brace is written as its value, and they
/// stay.
proof fn lemma_filled_between(
    before: Seq<char>,
    placeholder: Seq<char>,
    behind: Seq<char>,
    value: Seq<char>,
)
    requires
        placeholder.len() > 0,
        placeholder[0] == '{',
        !before.contains('{'),
        !behind.contains('{'),
    ensures
        text::replaced(before + placeholder + behind, placeholder, value) == before + value + behind,
    decreases before.len(),
{
    let s = before + placeholder + behind;
    if before.len() == 0 {
        assert(s =~= placeholder + behind);
        text::replacing_leaves_the_rest(behind, placeholder, value);
        lemma_no_placeholder(behind, placeholder);
        assert(before + value + behind =~= value + behind);
    } else {
        assert(s[0] == before[0]);
        assert(before.contains(before[0]));
        assert(!text::begins(s, placeholder)) by {
            if text::begins(s, placeholder) {
                assert(s.take(placeholder.len() as int)[0] == s[0]);
            }
        }
        let rest = before.skip(1);
        assert(!rest.contains('{')) by {
            if rest.contains('{') {
                let i = choose|i: int| 0 <= i < rest.len() && rest[i] == '{';
                assert(before[i + 1] == '{');
            }
        }
        lemma_filled_between(rest, placeholder, behind, value);
        assert(s.skip(1) =~= rest + placeholder + behind);
        assert(seq![s[0]] + (rest + value + behind) =~= before + value + behind);
    }
}

/// A text without a brace has no placeholder.
proof fn lemma_no_placeholder(s: Seq<char>, placeholder: Seq<char>)
    requires
        placeholder.len() > 0,
        placeholder[0] == '{',
        !s.contains('{'),
    ensures
        !text::has_text(s, placeholder),
{
    if text::has_text(s, placeholder) {
        let i = choose|i: int| 0 <= i <= s.len() && #[trigger] text::begins(s.skip(i), placeholder);
        assert(s.skip(i).take(placeholder.len() as int)[0] == s[i]);
    }
}

/// An entry is filled in where its placeholder stands and nowhere else: the name of
/// the account, and for a data directory its home. Where the name or the home is
/// not known, the entry is left out.
pub proof fn an_entry_is_filled_in_where_its_placeholder_stands(
    before: Seq<char>,
    behind: Seq<char>,
    user: Seq<char>,
    home: Seq<char>,
)
    requires
        !before.contains('{'),
        !behind.contains('{'),
        !user.contains('{'),
    ensures
        path_entry(before + "{user}"@ + behind, Some(user)) == Some(before + user + behind),
        path_entry(before + "{user}"@ + behind, None) is None,
        path_entry(before, Some(user)) == Some(before),
        path_entry(before, None) == Some(before),
        data_entry(before + "{user}"@ + behind, Some(user), None) == Some(before + user + behind),
        data_entry(before + "{home}"@ + behind, None, Some(home)) == Some(before + home + behind),
        data_entry(before + "{user}"@ + behind, None, Some(home)) is None,
        data_entry(before + "{home}"@ + behind, Some(user), None) is None,
        data_entry(before, None, None) == Some(before),
{
    reveal_strlit("{user}");
    reveal_strlit("{home}");
    let u = "{user}"@;
    let h = "{home}"@;
    let s = before + user + behind;
    let t = before + h + behind;
    assert(u.len() == 6 && u[0] == '{' && u[1] == 'u');
    assert(h.len() == 6 && h[0] == '{' && h[1] == 'h' && h[2] == 'o' && h[3] == 'm' && h[4] == 'e'
        && h[5] == '}');
    lemma_brace_between(before, user, behind);
    lemma_no_home(before, behind);
    lemma_no_placeholder(s, h);
    lemma_no_placeholder(before, u);
    lemma_no_placeholder(before, h);
    text::a_part_stands_between(before, u, behind);
    text::a_part_stands_between(before, h, behind);
    lemma_filled_between(before, u, behind, user);
    lemma_filled_between(before, h, behind, home);
}

proof fn lemma_brace_between(before: Seq<char>, user: Seq<char>, behind: Seq<char>)
    requires
        !before.contains('{'),
        !behind.contains('{'),
        !user.contains('{'),
    ensures
        !(before + user + behind).contains('{'),
{
    let s = before + user + behind;
    assert(!s.contains('{')) by {
        if s.contains('{') {
            let i = choose|i: int| 0 <= i < s.len() && s[i] == '{';
            if i < before.len() {
                assert(before[i] == '{');
            } else if i < before.len() + user.len() {
                assert(user[i - before.len()] == '{');
            } else {
                assert(behind[i - before.len() - user.len()] == '{');
            }
        }
    }
}

proof fn lemma_no_home(before: Seq<char>, behind: Seq<char>)
    requires
        !before.contains('{'),
        !behind.contains('{'),
    ensures
        !text::has_text(before + "{home}"@ + behind, "{user}"@),
{
    reveal_strlit("{user}");
    reveal_strlit("{home}");
    let u = "{user}"@;
    let h = "{home}"@;
    let t = before + h + behind;
    assert(!text::has_text(t, u)) by {
        if text::has_text(t, u) {
            let i = choose|i: int| 0 <= i <= t.len() && #[trigger] text::begins(t.skip(i), u);
            assert(t.skip(i).take(6)[0] == t[i]);
            assert(t.skip(i).take(6)[1] == t[i + 1]);
            assert(t[i] == '{');
            if i < before.len() {
                assert(before[i] == '{');
            } else if i >= before.len() + 6 {
                assert(behind[i - before.len() - 6] == '{');
            } else {
                assert(t[i] == h[i - before.len()]);
            }
        }
    }
}

/// Entries of which each comes to something all stay, in their order.
proof fn lemma_all_kept(
    entries: Seq<Seq<char>>,
    f: spec_fn(Seq<char>) -> Option<Seq<char>>,
    all: Seq<Seq<char>>,
)
    requires
        all.len() == entries.len(),
        forall|i: int| 0 <= i < entries.len() ==> f(#[trigger] entries[i]) == Some(all[i]),
    ensures
        kept(entries, f) == all,
    decreases entries.len(),
{
    if entries.len() > 0 {
        let rest = entries.drop_last();
        assert forall|i: int| 0 <= i < rest.len() implies f(#[trigger] rest[i]) == Some(
            all.drop_last()[i],
        ) by {
            assert(rest[i] == entries[i]);
        }
        lemma_all_kept(rest, f, all.drop_last());
        assert(f(entries[entries.len() - 1]) == Some(all.last()));
        assert(all.drop_last().push(all.last()) =~= all);
    } else {
        assert(all =~= Seq::<Seq<char>>::empty());
    }
}

/// A search path lists every entry, in the order of the configuration, with a colon
/// between neighbours: entries without a brace or a colon are read back from it as
/// they were.
pub proof fn a_search_path_lists_every_entry(
    entries: Seq<Seq<char>>,
    user: Option<Seq<char>>,
    home: Option<Seq<char>>,
)
    requires
        entries.len() > 0,
        forall|i: int|
            0 <= i < entries.len() ==> !(#[trigger] entries[i]).contains('{') && !entries[i].contains(
                ':',
            ),
    ensures
        text::split_on(path_for(entries, user), ':') == entries,
        text::split_on(data_dirs_for(entries, user, home), ':') == entries,
{
    reveal_strlit("{user}");
    reveal_strlit("{home}");
    reveal_strlit(":");
    assert(":"@ =~= seq![':']);
    let f = |e: Seq<char>| path_entry(e, user);
    let g = |e: Seq<char>| data_entry(e, user, home);
    assert forall|i: int| 0 <= i < entries.len() implies f(#[trigger] entries[i]) == Some(entries[i])
        && g(entries[i]) == Some(entries[i]) by {
        lemma_no_placeholder(entries[i], "{user}"@);
        lemma_no_placeholder(entries[i], "{home}"@);
    }
    lemma_all_kept(entries, f, entries);
    lemma_all_kept(entries, g, entries);
    text::join_then_split(entries, ':');
}

/// The prescription is this, and asks for no greeter and no terminal.
pub proof fn the_prescription_is_this(c: MukaeConfig)
    requires
        c.is_prescribed(),
    ensures
        c.greeter is None && c.greeter_user is None && c.vt is None,
        c.session_path@.len() == 5,
        c.session_path@[0]@ == "/run/wrappers/bin"@,
        c.session_path@[1]@ == "/etc/profiles/per-user/{user}/bin"@,
        c.session_path@[2]@ == "/run/current-system/sw/bin"@,
        c.session_path@[3]@ == "/usr/bin"@,
        c.session_path@[4]@ == "/bin"@,
        c.session_data_dirs@.len() == 5,
        c.session_data_dirs@[0]@ == "{home}/.nix-profile/share"@,
        c.session_data_dirs@[1]@ == "{home}/.local/state/nix/profile/share"@,
        c.session_data_dirs@[2]@ == "/etc/profiles/per-user/{user}/share"@,
        c.session_data_dirs@[3]@ == "/nix/var/nix/profiles/default/share"@,
        c.session_data_dirs@[4]@ == "/run/current-system/sw/share"@,
{
    let p = text::texts(c.session_path@);
    let d = text::texts(c.session_data_dirs@);
    assert(p == prescribed_path());
    assert(d == prescribed_data_dirs());
    assert(p.len() == c.session_path@.len());
    assert(d.len() == c.session_data_dirs@.len());
    assert(forall|i: int| 0 <= i < 5 ==> #[trigger] c.session_path@[i]@ == p[i]);
    assert(forall|i: int| 0 <= i < 5 ==> #[trigger] c.session_data_dirs@[i]@ == d[i]);
}

/// Where a configuration came from is told apart.
pub proof fn each_source_has_its_word(a: ConfigSource)
    ensures
        a.word() == "prescribed"@ <==> a is Prescribed,
        a.word() == "file"@ <==> a is File,
        a.word() == "file-rejected"@ <==> a is FileRejected,
{
    reveal_strlit("prescribed");
    reveal_strlit("file");
    reveal_strlit("file-rejected");
    assert("prescribed"@.len() == 10 && "file"@.len() == 4 && "file-rejected"@.len() == 13);
}

} // verus!
