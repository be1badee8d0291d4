//! PHP: versions, their paths under Homebrew, and extensions.
//!
//! Version model: exactly one php-fpm runs at a time (the active version),
//! listening on a fixed unix socket, so switching version means restarting
//! php-fpm with another binary; the web server's configuration never changes.

use super::{available_php, available_php_versions, brew_bin, command, is_command, Command, State};
use crate::text::{
    cat, cat3, cat4, chars_lt, chars_of, ends_with, has_prefix, has_suffix, lemma_lex_le_transitive,
    lemma_lex_total, lex_lt, lines,
    lowercase, slice_of, split_lines, starts_with, str_eq, string_of, string_of_range, string_views,
    to_lower, trim, trim_chars, trimmed, utf8_len, utf8_longer_than, views,
};
use vstd::prelude::*;

verus! {

pub open spec fn spec_php_bin(prefix: Seq<char>, version: Seq<char>) -> Seq<char> {
    prefix + "/opt/php@"@ + version + "/bin/php"@
}

pub open spec fn spec_php_fpm_bin(prefix: Seq<char>, version: Seq<char>) -> Seq<char> {
    prefix + "/opt/php@"@ + version + "/sbin/php-fpm"@
}

pub open spec fn spec_php_ini_dir(prefix: Seq<char>, version: Seq<char>) -> Seq<char> {
    prefix + "/etc/php/"@ + version
}

pub open spec fn spec_conf_d(prefix: Seq<char>, version: Seq<char>) -> Seq<char> {
    spec_php_ini_dir(prefix, version) + "/conf.d"@
}

/// The `php` binary of a version under the Homebrew prefix.
pub fn php_bin(prefix: &str, version: &str) -> (r: String)
    ensures
        r@ == spec_php_bin(prefix@, version@),
{
    cat4(prefix, "/opt/php@", version, "/bin/php")
}

/// The `php-fpm` binary of a version.
pub fn php_fpm_bin(prefix: &str, version: &str) -> (r: String)
    ensures
        r@ == spec_php_fpm_bin(prefix@, version@),
{
    cat4(prefix, "/opt/php@", version, "/sbin/php-fpm")
}

/// The directory that holds a version's `php.ini`.
pub fn php_ini_dir(prefix: &str, version: &str) -> (r: String)
    ensures
        r@ == spec_php_ini_dir(prefix@, version@),
{
    cat3(prefix, "/etc/php/", version)
}

/// The `php.ini` of a version.
pub fn php_ini_path(prefix: &str, version: &str) -> (r: String)
    ensures
        r@ == spec_php_ini_dir(prefix@, version@) + "/php.ini"@,
{
    cat(php_ini_dir(prefix, version).as_str(), "/php.ini")
}

/// The `conf.d` directory of a version, where extension ini files live.
pub fn conf_d(prefix: &str, version: &str) -> (r: String)
    ensures
        r@ == spec_conf_d(prefix@, version@),
{
    cat(php_ini_dir(prefix, version).as_str(), "/conf.d")
}

/// The PECL binary of a version.
pub fn pecl_bin(prefix: &str, version: &str) -> (r: String)
    ensures
        r@ == prefix@ + "/opt/php@"@ + version@ + "/bin/pecl"@,
{
    cat4(prefix, "/opt/php@", version, "/bin/pecl")
}

/// A PHP version as the PHP tab lists it.
pub struct PhpVersion {
    pub version: String,
    pub installed: bool,
    pub active: bool,
    /// Full "8.3.33" if installed, else empty.
    pub full: String,
}

/// The full version from what `php -r 'echo PHP_VERSION;'` returned: its
/// trimmed output, or nothing when it failed.
pub open spec fn spec_full_version(output: Result<String, String>) -> Seq<char> {
    match output {
        Ok(s) => trim(s@),
        Err(_) => seq![],
    }
}

/// The full version (see `spec_full_version`).
pub fn full_version(output: &Result<String, String>) -> (r: String)
    ensures
        r@ == spec_full_version(*output),
{
    match output {
        Ok(s) => trimmed(s.as_str()),
        Err(_) => String::new(),
    }
}

/// The probe of the `i`-th known version: nothing when it is not installed,
/// else what asking it for its full version returned.
pub open spec fn probe_at(probes: Seq<Option<Result<String, String>>>, i: int) -> Option<Result<String, String>> {
    if 0 <= i < probes.len() {
        probes[i]
    } else {
        None
    }
}

/// The row of the `i`-th known version.
pub open spec fn is_version_row(
    r: PhpVersion,
    i: int,
    active: Seq<char>,
    probes: Seq<Option<Result<String, String>>>,
) -> bool {
    &&& r.version@ == available_php()[i]
    &&& r.installed == (probe_at(probes, i) is Some)
    &&& r.active == (available_php()[i] == active)
    &&& r.full@ == match probe_at(probes, i) {
        Some(out) => spec_full_version(out),
        None => seq![],
    }
}

/// Every version Tusk knows about, newest first, marked installed or active.
/// `probes[i]` is what was found for the `i`-th known version (see
/// `probe_at`); a missing probe counts as not installed.
pub fn list(active: &str, probes: &Vec<Option<Result<String, String>>>) -> (r: Vec<PhpVersion>)
    ensures
        r@.len() == available_php().len(),
        forall|i: int| 0 <= i < r@.len() ==> is_version_row(#[trigger] r@[i], i, active@, probes@),
{
    let known = available_php_versions();
    let mut r: Vec<PhpVersion> = Vec::new();
    let mut i: usize = 0;
    while i < known.len()
        invariant
            0 <= i <= known.len(),
            known@.map_values(|s: &str| s@) == available_php(),
            r@.len() == i,
            forall|j: int| 0 <= j < i ==> is_version_row(#[trigger] r@[j], j, active@, probes@),
        decreases known.len() - i,
    {
        assert(known@.map_values(|s: &str| s@)[i as int] == known@[i as int]@);
        let v = known[i];
        let probe = if i < probes.len() {
            &probes[i]
        } else {
            &None
        };
        let full = match probe {
            Some(out) => full_version(out),
            None => String::new(),
        };
        let row = PhpVersion {
            version: v.to_owned(),
            installed: probe.is_some(),
            active: str_eq(v, active),
            full,
        };
        r.push(row);
        i = i + 1;
    }
    r
}

/// Uninstalling a version: nothing to do when it is not installed (which is
/// reported as done); else `brew uninstall --ignore-dependencies php@<v>`.
/// The message is the result once the command (if any) succeeded.
pub fn uninstall(version: &str, installed: bool, prefix: &str) -> (r: (Option<Command>, String))
    ensures
        !installed ==> r.0 is None && r.1@ == "php@"@ + version@ + " not installed"@,
        installed ==> (r.0 matches Some(c) && is_command(
            c,
            prefix@ + "/bin/brew"@,
            seq!["uninstall"@, "--ignore-dependencies"@, "php@"@ + version@],
        )) && r.1@ == "php@"@ + version@ + " removed"@,
{
    if !installed {
        return (None, cat3("php@", version, " not installed"));
    }
    let args = vec!["uninstall".to_owned(), "--ignore-dependencies".to_owned(), cat("php@", version)];
    let c = command(brew_bin(prefix).as_str(), args);
    assert(string_views(c.args@) =~= seq!["uninstall"@, "--ignore-dependencies"@, "php@"@ + version@]);
    (Some(c), cat3("php@", version, " removed"))
}

/// Switching the active version: refused when it is not installed; else the
/// settings with that version active (nothing else changes) and the message.
/// Persisting, relinking the CLI and restarting php-fpm follow.
pub fn switch(state: &State, version: &str, installed: bool) -> (r: Result<(State, String), String>)
    ensures
        !installed ==> (r matches Err(e) && e@ == "php@"@ + version@ + " is not installed"@),
        installed ==> (r matches Ok((s, m)) && s.active_php@ == version@ && s.license_accepted
            == state.license_accepted && s.web_server@ == state.web_server@ && s.http_port
            == state.http_port && s.tld@ == state.tld@ && s.setup_done == state.setup_done && m@
            == "Active PHP -> "@ + version@
            + " (CLI + web)"@),
{
    if !installed {
        return Err(cat3("php@", version, " is not installed"));
    }
    Ok((state.set_active_php(version), cat3("Active PHP -> ", version, " (CLI + web)")))
}

/// `brew <verb> <args>` with the brew of `prefix`.
pub open spec fn is_brew(c: Command, prefix: Seq<char>, args: Seq<Seq<char>>) -> bool {
    is_command(c, prefix + "/bin/brew"@, args)
}

/// Pointing Homebrew's `php` (and phpize, php-config, pecl, pear) at the
/// active version: unlink `php` and every known `php@X.Y`, then force-link
/// the active one (keg-only, hence `--overwrite --force`). Each step is
/// best-effort.
pub fn relink_cli(prefix: &str, active: &str) -> (r: Vec<Command>)
    ensures
        r@.len() == available_php().len() + 2,
        is_brew(r@[0], prefix@, seq!["unlink"@, "php"@]),
        forall|i: int|
            0 <= i < available_php().len() ==> is_brew(
                #[trigger] r@[i + 1],
                prefix@,
                seq!["unlink"@, "php@"@ + available_php()[i]],
            ),
        is_brew(
            r@[available_php().len() as int + 1],
            prefix@,
            seq!["link"@, "--overwrite"@, "--force"@, "php@"@ + active@],
        ),
{
    let brew = brew_bin(prefix);
    let mut r: Vec<Command> = Vec::new();
    let c = command(brew.as_str(), vec!["unlink".to_owned(), "php".to_owned()]);
    assert(string_views(c.args@) =~= seq!["unlink"@, "php"@]);
    r.push(c);
    let known = available_php_versions();
    let mut i: usize = 0;
    while i < known.len()
        invariant
            0 <= i <= known.len(),
            known@.map_values(|s: &str| s@) == available_php(),
            brew@ == prefix@ + "/bin/brew"@,
            r@.len() == i + 1,
            is_brew(r@[0], prefix@, seq!["unlink"@, "php"@]),
            forall|j: int|
                0 <= j < i ==> is_brew(#[trigger] r@[j + 1], prefix@, seq!["unlink"@, "php@"@ + available_php()[j]]),
        decreases known.len() - i,
    {
        assert(known@.map_values(|s: &str| s@)[i as int] == known@[i as int]@);
        let c = command(brew.as_str(), vec!["unlink".to_owned(), cat("php@", known[i])]);
        assert(string_views(c.args@) =~= seq!["unlink"@, "php@"@ + available_php()[i as int]]);
        r.push(c);
        i = i + 1;
    }
    let c = command(
        brew.as_str(),
        vec!["link".to_owned(), "--overwrite".to_owned(), "--force".to_owned(), cat("php@", active)],
    );
    assert(string_views(c.args@) =~= seq!["link"@, "--overwrite"@, "--force"@, "php@"@ + active@]);
    r.push(c);
    r
}

/// At most one listed version is active: the known versions are distinct.
pub proof fn lemma_at_most_one_active(active: Seq<char>, probes: Seq<Option<Result<String, String>>>, rows: Seq<PhpVersion>)
    requires
        rows.len() == available_php().len(),
        forall|i: int| 0 <= i < rows.len() ==> is_version_row(#[trigger] rows[i], i, active, probes),
    ensures
        forall|i: int, j: int| 0 <= i < j < rows.len() && (#[trigger] rows[i]).active ==> !(#[trigger] rows[j]).active,
{
    reveal_strlit("8.4");
    reveal_strlit("8.3");
    reveal_strlit("8.2");
    reveal_strlit("8.1");
    reveal_strlit("8.0");
    reveal_strlit("7.4");
    assert forall|i: int, j: int| 0 <= i < j < rows.len() && (#[trigger] rows[i]).active implies !(#[trigger] rows[j]).active by {
        let a = available_php();
        assert(a[i] != a[j]) by {
            assert(a[i][0] != a[j][0] || a[i][2] != a[j][2]);
        }
    }
}

// ---------------------------------------------------------------------------
// Extensions
// ---------------------------------------------------------------------------

/// An extension as the Ext tab lists it.
pub struct Extension {
    pub name: String,
    pub enabled: bool,
    /// Compiled-in extensions cannot be disabled through an ini file.
    pub builtin: bool,
}

/// The name, enabled and builtin flags of an extension.
pub open spec fn ext_view(e: Extension) -> (Seq<char>, bool, bool) {
    (e.name@, e.enabled, e.builtin)
}

/// The views of a list of extensions.
pub open spec fn exts_view(v: Seq<Extension>) -> Seq<(Seq<char>, bool, bool)> {
    v.map_values(|e: Extension| ext_view(e))
}

/// Characters that never occur in a module name, only in warning text
/// (paths, parentheses, quotes, ...).
pub open spec fn is_stray_char(c: char) -> bool {
    c == '/' || c == '(' || c == ')' || c == '\'' || c == '"' || c == ':' || c == '<' || c == '>'
}

/// A trimmed line of `php -m` that names a module: not empty, not a section
/// header, at most 40 bytes, none of the stray characters, and not the start
/// of a warning or error.
pub open spec fn is_module_name(t: Seq<char>) -> bool {
    &&& t.len() > 0
    &&& t[0] != '['
    &&& utf8_len(t) <= 40
    &&& forall|i: int| 0 <= i < t.len() ==> !is_stray_char(#[trigger] t[i])
    &&& !starts_with(t, "Warning"@)
    &&& !starts_with(t, "Deprecated"@)
    &&& !starts_with(t, "Fatal"@)
    &&& !starts_with(t, "PHP "@)
}

/// The module names among the lines of `php -m`, in order.
pub open spec fn modules_of(ls: Seq<Seq<char>>) -> Seq<Seq<char>>
    decreases ls.len(),
{
    if ls.len() == 0 {
        seq![]
    } else {
        let t = trim(ls.last());
        modules_of(ls.drop_last()) + if is_module_name(t) {
            seq![t]
        } else {
            seq![]
        }
    }
}

/// `php -m` lists exactly its trimmed lines that name a module, in order: a
/// line counts when, trimmed, it is not empty, is not a `[section]`
/// header, takes at most 40 bytes, has none of `/ ( ) ' " : < >`, and does
/// not start a warning or error (`Warning`, `Deprecated`, `Fatal`, `PHP `).
pub proof fn lemma_modules_are_the_module_lines(ls: Seq<Seq<char>>)
    ensures
        modules_of(ls) == ls.map_values(|l: Seq<char>| trim(l)).filter(
            |t: Seq<char>|
                t.len() > 0 && t[0] != '[' && utf8_len(t) <= 40 && (forall|i: int|
                    0 <= i < t.len() ==> {
                        let c = #[trigger] t[i];
                        c != '/' && c != '(' && c != ')' && c != '\'' && c != '"' && c != ':' && c != '<'
                            && c != '>'
                    }) && !starts_with(t, "Warning"@) && !starts_with(t, "Deprecated"@) && !starts_with(
                    t,
                    "Fatal"@,
                ) && !starts_with(t, "PHP "@),
        ),
    decreases ls.len(),
{
    reveal(Seq::filter);
    let p = |t: Seq<char>|
        t.len() > 0 && t[0] != '[' && utf8_len(t) <= 40 && (forall|i: int|
            0 <= i < t.len() ==> {
                let c = #[trigger] t[i];
                c != '/' && c != '(' && c != ')' && c != '\'' && c != '"' && c != ':' && c != '<' && c != '>'
            }) && !starts_with(t, "Warning"@) && !starts_with(t, "Deprecated"@) && !starts_with(t, "Fatal"@)
            && !starts_with(t, "PHP "@);
    let m = ls.map_values(|l: Seq<char>| trim(l));
    if ls.len() == 0 {
        assert(m =~= Seq::<Seq<char>>::empty());
        assert(modules_of(ls) =~= m.filter(p));
    } else {
        lemma_modules_are_the_module_lines(ls.drop_last());
        assert(m.drop_last() =~= ls.drop_last().map_values(|l: Seq<char>| trim(l)));
        let t = trim(ls.last());
        assert(m.last() == t);
        assert(is_module_name(t) == p(t));
        if p(t) {
            assert(modules_of(ls) =~= modules_of(ls.drop_last()).push(t));
        } else {
            assert(modules_of(ls) =~= modules_of(ls.drop_last()));
        }
    }
}

fn is_module_line(t: &Vec<char>) -> (r: bool)
    ensures
        r == is_module_name(t@),
{
    if t.len() == 0 || t[0] == '[' || utf8_longer_than(t, 40) {
        return false;
    }
    let mut i: usize = 0;
    while i < t.len()
        invariant
            0 <= i <= t.len(),
            forall|j: int| 0 <= j < i ==> !is_stray_char(#[trigger] t@[j]),
        decreases t.len() - i,
    {
        let c = t[i];
        if c == '/' || c == '(' || c == ')' || c == '\'' || c == '"' || c == ':' || c == '<' || c == '>' {
            assert(is_stray_char(t@[i as int]));
            return false;
        }
        i = i + 1;
    }
    !(has_prefix(t, &chars_of("Warning")) || has_prefix(t, &chars_of("Deprecated")) || has_prefix(
        t,
        &chars_of("Fatal"),
    ) || has_prefix(t, &chars_of("PHP ")))
}

/// The names of the modules `php -m` printed (see `modules_of`); startup
/// warnings that leak into the list are dropped.
pub fn extension_modules(output: &str) -> (r: Vec<String>)
    ensures
        string_views(r@) == modules_of(lines(output@)),
{
    let v = chars_of(output);
    let ls = split_lines(&v);
    let mut r: Vec<String> = Vec::new();
    let mut i: usize = 0;
    while i < ls.len()
        invariant
            0 <= i <= ls.len(),
            views(ls@) == lines(output@),
            string_views(r@) == modules_of(lines(output@).take(i as int)),
        decreases ls.len() - i,
    {
        assert(lines(output@).take(i + 1).drop_last() =~= lines(output@).take(i as int));
        assert(views(ls@)[i as int] == ls@[i as int]@);
        let t = trim_chars(&ls[i]);
        if is_module_line(&t) {
            let ghost before = r@;
            r.push(string_of(&t));
            assert(string_views(r@) =~= string_views(before).push(t@));
        } else {
            assert(string_views(r@) =~= string_views(r@) + Seq::<Seq<char>>::empty());
        }
        i = i + 1;
    }
    assert(lines(output@).take(ls.len() as int) =~= lines(output@));
    r
}

/// The ini file Tusk owns for an extension, `<conf.d>/ext-<lowercase>.ini`.
pub open spec fn spec_ext_ini(conf_d: Seq<char>, name: Seq<char>) -> Seq<char> {
    conf_d + "/ext-"@ + lowercase(name) + ".ini"@
}

/// The ini file of an extension (see `spec_ext_ini`); a module is toggleable
/// (not builtin) exactly when this file exists.
pub fn ext_ini_path(conf_d: &str, name: &str) -> (r: String)
    ensures
        r@ == spec_ext_ini(conf_d@, name@),
{
    cat4(conf_d, "/ext-", to_lower(name).as_str(), ".ini")
}

/// The extension a file of `conf.d` parks: `ext-<name>.ini.disabled` names
/// `<name>`; other files name none.
pub open spec fn parked_name(f: Seq<char>) -> Option<Seq<char>> {
    if starts_with(f, "ext-"@) && ends_with(f.skip(4), ".ini.disabled"@) {
        Some(f.subrange(4, f.len() - 13))
    } else {
        None
    }
}

/// The parked extensions among the file names of `conf.d`, in order.
pub open spec fn parked_of(files: Seq<Seq<char>>) -> Seq<Seq<char>>
    decreases files.len(),
{
    if files.len() == 0 {
        seq![]
    } else {
        parked_of(files.drop_last()) + match parked_name(files.last()) {
            Some(n) => seq![n],
            None => seq![],
        }
    }
}

/// The parked extensions of `conf.d` are exactly its files named
/// `ext-<name>.ini.disabled`, in order, each giving its `<name>`.
pub proof fn lemma_parked_are_disabled_ini_files(files: Seq<Seq<char>>)
    ensures
        parked_of(files) == files.filter(
            |f: Seq<char>|
                f.len() >= 17 && f.subrange(0, 4) == "ext-"@ && f.subrange(f.len() - 13, f.len() as int)
                    == ".ini.disabled"@,
        ).map_values(|f: Seq<char>| f.subrange(4, f.len() - 13)),
    decreases files.len(),
{
    reveal(Seq::filter);
    reveal_strlit("ext-");
    reveal_strlit(".ini.disabled");
    let p = |f: Seq<char>|
        f.len() >= 17 && f.subrange(0, 4) == "ext-"@ && f.subrange(f.len() - 13, f.len() as int) == ".ini.disabled"@;
    let g = |f: Seq<char>| f.subrange(4, f.len() - 13);
    if files.len() == 0 {
        assert(parked_of(files) =~= files.filter(p).map_values(g));
    } else {
        let d = files.drop_last();
        lemma_parked_are_disabled_ini_files(d);
        let f = files.last();
        assert(parked_name(f) is Some <==> p(f)) by {
            if f.len() >= 17 {
                assert(f.skip(4).subrange(f.len() - 17, f.len() - 4) =~= f.subrange(f.len() - 13, f.len() as int));
            }
        }
        if p(f) {
            assert(files.filter(p) == d.filter(p).push(f));
            assert(files.filter(p).map_values(g) =~= d.filter(p).map_values(g).push(g(f)));
            assert(parked_of(files) =~= parked_of(d).push(g(f)));
        } else {
            assert(files.filter(p) == d.filter(p));
            assert(parked_of(files) =~= parked_of(d));
        }
    }
}

fn parked_extension(f: &str) -> (r: Option<String>)
    ensures
        match r {
            Some(n) => parked_name(f@) == Some(n@),
            None => parked_name(f@) is None,
        },
{
    let v = chars_of(f);
    let pre = chars_of("ext-");
    let suf = chars_of(".ini.disabled");
    proof {
        reveal_strlit("ext-");
        reveal_strlit(".ini.disabled");
    }
    if !has_prefix(&v, &pre) {
        return None;
    }
    let rest = slice_of(&v, 4, v.len());
    assert(rest@ =~= v@.skip(4));
    if !has_suffix(&rest, &suf) {
        return None;
    }
    Some(string_of_range(&v, 4, v.len() - 13))
}

/// The lowercased name an extension is sorted by.
pub open spec fn ext_key(e: (Seq<char>, bool, bool)) -> Seq<char> {
    lowercase(e.0)
}

/// `x` placed into `s` after every entry whose key is not after its own: the
/// step of a stable sort by key.
pub open spec fn insert_by_key(s: Seq<(Seq<char>, bool, bool)>, x: (Seq<char>, bool, bool)) -> Seq<
    (Seq<char>, bool, bool),
>
    decreases s.len(),
{
    if s.len() == 0 {
        seq![x]
    } else if lex_lt(ext_key(x), ext_key(s.last())) {
        insert_by_key(s.drop_last(), x).push(s.last())
    } else {
        s.push(x)
    }
}

/// `s` stably sorted by lowercased name.
pub open spec fn sort_by_key(s: Seq<(Seq<char>, bool, bool)>) -> Seq<(Seq<char>, bool, bool)>
    decreases s.len(),
{
    if s.len() == 0 {
        seq![]
    } else {
        insert_by_key(sort_by_key(s.drop_last()), s.last())
    }
}

/// The extension list before sorting: the loaded modules (enabled; builtin
/// unless Tusk owns their ini file), then the parked ones (disabled, not
/// builtin).
pub open spec fn unsorted_exts(
    modules: Seq<Seq<char>>,
    managed: Seq<bool>,
    parked: Seq<Seq<char>>,
) -> Seq<(Seq<char>, bool, bool)> {
    module_exts(modules, managed) + parked_exts(parked)
}

/// The loaded modules as extensions: enabled, and builtin unless
/// `managed[i]` says Tusk owns the ini file of the `i`-th.
pub open spec fn module_exts(modules: Seq<Seq<char>>, managed: Seq<bool>) -> Seq<(Seq<char>, bool, bool)>
    decreases modules.len(),
{
    if modules.len() == 0 {
        seq![]
    } else {
        let i = modules.len() - 1;
        module_exts(modules.drop_last(), managed).push(
            (modules.last(), true, !(i < managed.len() && managed[i])),
        )
    }
}

/// The parked extensions: disabled, not builtin.
pub open spec fn parked_exts(parked: Seq<Seq<char>>) -> Seq<(Seq<char>, bool, bool)>
    decreases parked.len(),
{
    if parked.len() == 0 {
        seq![]
    } else {
        parked_exts(parked.drop_last()).push((parked.last(), false, false))
    }
}

/// Extensions paired with the keys they are sorted by: `s[i]` with `keys[i]`.
pub open spec fn keyed(s: Seq<(Seq<char>, bool, bool)>, keys: Seq<Seq<char>>) -> Seq<
    ((Seq<char>, bool, bool), Seq<char>),
> {
    Seq::new(s.len(), |i: int| (s[i], keys[i]))
}

/// The extensions of keyed pairs, keys dropped.
pub open spec fn unkeyed(t: Seq<((Seq<char>, bool, bool), Seq<char>)>) -> Seq<(Seq<char>, bool, bool)> {
    Seq::new(t.len(), |i: int| t[i].0)
}

/// `x` placed into `s` after every pair whose key is not after its own: the
/// step of a stable sort by the given keys.
pub open spec fn insert_keyed(
    s: Seq<((Seq<char>, bool, bool), Seq<char>)>,
    x: ((Seq<char>, bool, bool), Seq<char>),
) -> Seq<((Seq<char>, bool, bool), Seq<char>)>
    decreases s.len(),
{
    if s.len() == 0 {
        seq![x]
    } else if lex_lt(x.1, s.last().1) {
        insert_keyed(s.drop_last(), x).push(s.last())
    } else {
        s.push(x)
    }
}

/// `s` stably sorted by its keys.
pub open spec fn sort_keyed(s: Seq<((Seq<char>, bool, bool), Seq<char>)>) -> Seq<
    ((Seq<char>, bool, bool), Seq<char>),
>
    decreases s.len(),
{
    if s.len() == 0 {
        seq![]
    } else {
        insert_keyed(sort_keyed(s.drop_last()), s.last())
    }
}

/// The extensions `s` stably sorted by `keys`, `keys[i]` being the key of
/// `s[i]`.
pub open spec fn sort_by_keys(s: Seq<(Seq<char>, bool, bool)>, keys: Seq<Seq<char>>) -> Seq<
    (Seq<char>, bool, bool),
> {
    unkeyed(sort_keyed(keyed(s, keys)))
}

/// Every pair's key is its extension's lowercased name.
pub open spec fn keys_lowercase(t: Seq<((Seq<char>, bool, bool), Seq<char>)>) -> bool {
    forall|i: int| 0 <= i < t.len() ==> (#[trigger] t[i]).1 == ext_key(t[i].0)
}

/// `insert_keyed` as an index: `x` goes at `j` when every pair from `j` on
/// sorts after it and the one before `j` does not.
proof fn lemma_insert_keyed_at(
    s: Seq<((Seq<char>, bool, bool), Seq<char>)>,
    x: ((Seq<char>, bool, bool), Seq<char>),
    j: int,
)
    requires
        0 <= j <= s.len(),
        forall|k: int| j <= k < s.len() ==> lex_lt(x.1, (#[trigger] s[k]).1),
        j == 0 || !lex_lt(x.1, s[j - 1].1),
    ensures
        insert_keyed(s, x) == s.insert(j, x),
    decreases s.len(),
{
    if s.len() == 0 {
        assert(s.insert(j, x) =~= seq![x]);
    } else if j == s.len() {
        assert(s.insert(j, x) =~= s.push(x));
    } else {
        assert(lex_lt(x.1, s[s.len() - 1].1));
        lemma_insert_keyed_at(s.drop_last(), x, j);
        assert(s.drop_last().insert(j, x).push(s.last()) =~= s.insert(j, x));
    }
}

/// With lowercased names as keys, inserting by key is inserting by
/// lowercased name.
proof fn lemma_insert_keyed_lowercase(s: Seq<((Seq<char>, bool, bool), Seq<char>)>, x: ((Seq<char>, bool, bool), Seq<char>))
    requires
        keys_lowercase(s),
        x.1 == ext_key(x.0),
    ensures
        keys_lowercase(insert_keyed(s, x)),
        unkeyed(insert_keyed(s, x)) == insert_by_key(unkeyed(s), x.0),
    decreases s.len(),
{
    if s.len() == 0 {
        assert(unkeyed(seq![x]) =~= seq![x.0]);
    } else {
        let d = s.drop_last();
        assert(unkeyed(s).drop_last() =~= unkeyed(d));
        assert(unkeyed(s).last() == s.last().0);
        assert(s.last().1 == ext_key(s.last().0)) by {
            assert(s[s.len() - 1] == s.last());
        }
        if lex_lt(x.1, s.last().1) {
            assert(keys_lowercase(d)) by {
                assert forall|i: int| 0 <= i < d.len() implies (#[trigger] d[i]).1 == ext_key(d[i].0) by {
                    assert(d[i] == s[i]);
                }
            }
            lemma_insert_keyed_lowercase(d, x);
            let t = insert_keyed(d, x);
            assert(unkeyed(t.push(s.last())) =~= unkeyed(t).push(s.last().0));
            assert forall|i: int| 0 <= i < t.push(s.last()).len() implies (#[trigger] t.push(s.last())[i]).1
                == ext_key(t.push(s.last())[i].0) by {
                if i < t.len() {
                    assert(t.push(s.last())[i] == t[i]);
                }
            }
        } else {
            assert(unkeyed(s.push(x)) =~= unkeyed(s).push(x.0));
            assert forall|i: int| 0 <= i < s.push(x).len() implies (#[trigger] s.push(x)[i]).1 == ext_key(
                s.push(x)[i].0,
            ) by {
                if i < s.len() {
                    assert(s.push(x)[i] == s[i]);
                }
            }
        }
    }
}

/// With lowercased names as keys, sorting by key is sorting by lowercased
/// name.
proof fn lemma_sort_keyed_lowercase(t: Seq<((Seq<char>, bool, bool), Seq<char>)>)
    requires
        keys_lowercase(t),
    ensures
        keys_lowercase(sort_keyed(t)),
        unkeyed(sort_keyed(t)) == sort_by_key(unkeyed(t)),
    decreases t.len(),
{
    if t.len() == 0 {
        assert(unkeyed(t) =~= Seq::<(Seq<char>, bool, bool)>::empty());
        assert(unkeyed(sort_keyed(t)) =~= Seq::<(Seq<char>, bool, bool)>::empty());
    } else {
        let d = t.drop_last();
        assert(keys_lowercase(d)) by {
            assert forall|i: int| 0 <= i < d.len() implies (#[trigger] d[i]).1 == ext_key(d[i].0) by {
                assert(d[i] == t[i]);
            }
        }
        lemma_sort_keyed_lowercase(d);
        assert(t.last().1 == ext_key(t.last().0)) by {
            assert(t[t.len() - 1] == t.last());
        }
        lemma_insert_keyed_lowercase(sort_keyed(d), t.last());
        assert(unkeyed(t).drop_last() =~= unkeyed(d));
        assert(unkeyed(t).last() == t.last().0);
    }
}

/// The extensions `exts` stably sorted by `keys`, `keys[i]` being the key of
/// `exts[i]` (the extension list sorts by lowercased names).
pub fn sort_extensions(exts: &Vec<Extension>, keys: &Vec<String>) -> (r: Vec<Extension>)
    requires
        keys.len() == exts.len(),
    ensures
        exts_view(r@) == sort_by_keys(exts_view(exts@), string_views(keys@)),
{
    let ghost input = keyed(exts_view(exts@), string_views(keys@));
    let mut sorted: Vec<Extension> = Vec::new();
    let mut skeys: Vec<Vec<char>> = Vec::new();
    let ghost mut cur: Seq<((Seq<char>, bool, bool), Seq<char>)> = seq![];
    let mut i: usize = 0;
    while i < exts.len()
        invariant
            0 <= i <= exts.len(),
            keys.len() == exts.len(),
            input == keyed(exts_view(exts@), string_views(keys@)),
            cur == sort_keyed(input.take(i as int)),
            cur.len() == sorted@.len(),
            skeys@.len() == sorted@.len(),
            forall|k: int| 0 <= k < cur.len() ==> (#[trigger] cur[k]).0 == ext_view(sorted@[k]) && cur[k].1 == skeys@[k]@,
        decreases exts.len() - i,
    {
        let ghost xv = input[i as int];
        assert(xv == (ext_view(exts@[i as int]), keys@[i as int]@));
        assert(input.take(i + 1).drop_last() =~= input.take(i as int));
        assert(input.take(i + 1).last() == xv);
        let key = chars_of(keys[i].as_str());
        let mut j = sorted.len();
        while j > 0 && chars_lt(&key, &skeys[j - 1])
            invariant
                0 <= j <= sorted@.len(),
                cur.len() == sorted@.len(),
                skeys@.len() == sorted@.len(),
                forall|k: int| 0 <= k < cur.len() ==> (#[trigger] cur[k]).1 == skeys@[k]@,
                key@ == xv.1,
                forall|k: int| j <= k < cur.len() ==> lex_lt(xv.1, (#[trigger] cur[k]).1),
            decreases j,
        {
            j = j - 1;
        }
        proof {
            if j > 0 {
                assert(cur[j - 1].1 == skeys@[j - 1]@);
            }
            lemma_insert_keyed_at(cur, xv, j as int);
        }
        let e = Extension { name: exts[i].name.clone(), enabled: exts[i].enabled, builtin: exts[i].builtin };
        assert(ext_view(e) == xv.0);
        let ghost before = sorted@;
        let ghost before_keys = skeys@;
        let ghost old_cur = cur;
        sorted.insert(j, e);
        skeys.insert(j, key);
        proof {
            cur = old_cur.insert(j as int, xv);
            assert forall|k: int| 0 <= k < cur.len() implies (#[trigger] cur[k]).0 == ext_view(sorted@[k]) && cur[k].1
                == skeys@[k]@ by {
                if k < j {
                    assert(sorted@[k] == before[k] && skeys@[k] == before_keys[k] && cur[k] == old_cur[k]);
                } else if k > j {
                    assert(sorted@[k] == before[k - 1] && skeys@[k] == before_keys[k - 1] && cur[k] == old_cur[k - 1]);
                }
            }
        }
        i = i + 1;
    }
    assert(input.take(exts.len() as int) =~= input);
    assert(exts_view(sorted@) =~= unkeyed(cur));
    sorted
}

/// The extensions of `version`: refused when it is not installed (then
/// `php -m` is not run and `conf.d` not read, see `extensions_query`, and
/// the other arguments do not matter); otherwise sorted by lowercased name
/// (stable), `modules` as `extension_modules` found them with `managed[i]`
/// telling whether Tusk owns the ini file of `modules[i]`, then the parked
/// extensions among the file names of `conf.d`.
pub fn extensions(
    version: &str,
    installed: bool,
    modules: &Vec<String>,
    managed: &Vec<bool>,
    conf_d_files: &Vec<String>,
) -> (r: Result<Vec<Extension>, String>)
    ensures
        !installed ==> (r matches Err(e) && e@ == "php@"@ + version@ + " is not installed"@),
        installed ==> (r matches Ok(v) && exts_view(v@) == sort_by_key(
            unsorted_exts(string_views(modules@), managed@, parked_of(string_views(conf_d_files@))),
        )),
{
    if !installed {
        return Err(not_installed_error(version));
    }
    Ok(collect_extensions(modules, managed, conf_d_files))
}

/// The extensions of an installed version (see `extensions`).
fn collect_extensions(modules: &Vec<String>, managed: &Vec<bool>, conf_d_files: &Vec<String>) -> (r: Vec<Extension>)
    ensures
        exts_view(r@) == sort_by_key(
            unsorted_exts(string_views(modules@), managed@, parked_of(string_views(conf_d_files@))),
        ),
{
    // Gather: loaded modules first, then parked ones.
    let ghost mods = string_views(modules@);
    let mut all: Vec<Extension> = Vec::new();
    let mut i: usize = 0;
    while i < modules.len()
        invariant
            0 <= i <= modules.len(),
            mods == string_views(modules@),
            exts_view(all@) == module_exts(mods.take(i as int), managed@),
        decreases modules.len() - i,
    {
        assert(exts_view(all@).len() == all@.len());
        assert(mods.take(i + 1).drop_last() =~= mods.take(i as int));
        assert(mods[i as int] == modules@[i as int]@);
        let builtin = !(i < managed.len() && managed[i]);
        let e = Extension { name: modules[i].clone(), enabled: true, builtin };
        let ghost ev = ext_view(e);
        let ghost before = all@;
        all.push(e);
        assert(exts_view(all@) =~= exts_view(before).push(ev)) by {
            assert forall|k: int| 0 <= k < before.len() implies exts_view(all@)[k] == exts_view(before)[k] by {
                assert(all@[k] == before[k]);
            }
        }
        i = i + 1;
    }
    assert(mods.take(modules.len() as int) =~= mods);
    let ghost files = string_views(conf_d_files@);
    let mut j: usize = 0;
    let ghost mut parked: Seq<Seq<char>> = seq![];
    while j < conf_d_files.len()
        invariant
            0 <= j <= conf_d_files.len(),
            files == string_views(conf_d_files@),
            parked == parked_of(files.take(j as int)),
            exts_view(all@) == module_exts(mods, managed@) + parked_exts(parked),
        decreases conf_d_files.len() - j,
    {
        assert(files.take(j + 1).drop_last() =~= files.take(j as int));
        assert(exts_view(all@).len() == all@.len());
        assert(files[j as int] == conf_d_files@[j as int]@);
        match parked_extension(conf_d_files[j].as_str()) {
            Some(n) => {
                let ghost nv = n@;
                let ghost before = all@;
                let e = Extension { name: n, enabled: false, builtin: false };
                let ghost ev = ext_view(e);
                all.push(e);
                proof {
                    let old_parked = parked;
                    parked = parked.push(nv);
                    assert(parked.drop_last() =~= old_parked);
                    assert(exts_view(all@) =~= exts_view(before).push(ev)) by {
                        assert forall|k: int| 0 <= k < before.len() implies exts_view(all@)[k] == exts_view(before)[k] by {
                            assert(all@[k] == before[k]);
                        }
                    }
                    assert(exts_view(all@) =~= module_exts(mods, managed@) + parked_exts(parked));
                }
            },
            None => {},
        }
        j = j + 1;
    }
    assert(files.take(conf_d_files.len() as int) =~= files);
    let ghost input = exts_view(all@);
    assert(input =~= unsorted_exts(string_views(modules@), managed@, parked_of(files)));
    // Sort by lowercased name (stable).
    let mut keys: Vec<String> = Vec::new();
    let mut k: usize = 0;
    while k < all.len()
        invariant
            0 <= k <= all.len(),
            keys@.len() == k,
            forall|m: int| 0 <= m < k ==> (#[trigger] keys@[m])@ == lowercase(all@[m].name@),
        decreases all.len() - k,
    {
        keys.push(to_lower(all[k].name.as_str()));
        k = k + 1;
    }
    let sorted = sort_extensions(&all, &keys);
    proof {
        let t = keyed(input, string_views(keys@));
        assert forall|m: int| 0 <= m < t.len() implies (#[trigger] t[m]).1 == ext_key(t[m].0) by {
            assert(keys@[m]@ == lowercase(all@[m].name@));
        }
        lemma_sort_keyed_lowercase(t);
        assert(unkeyed(t) =~= input);
    }
    sorted
}

/// Keys never decrease along `s`.
pub open spec fn sorted_by_key(s: Seq<(Seq<char>, bool, bool)>) -> bool {
    forall|i: int, j: int| 0 <= i < j < s.len() ==> !lex_lt(ext_key(#[trigger] s[j]), ext_key(#[trigger] s[i]))
}

/// Inserting adds exactly the one entry.
proof fn lemma_insert_multiset(s: Seq<(Seq<char>, bool, bool)>, x: (Seq<char>, bool, bool))
    ensures
        insert_by_key(s, x).to_multiset() == s.to_multiset().insert(x),
        insert_by_key(s, x).len() == s.len() + 1,
    decreases s.len(),
{
    broadcast use vstd::seq_lib::group_to_multiset_ensures;

    if s.len() > 0 {
        assert(s.drop_last().push(s.last()) =~= s);
        if lex_lt(ext_key(x), ext_key(s.last())) {
            lemma_insert_multiset(s.drop_last(), x);
            assert(insert_by_key(s.drop_last(), x).push(s.last()).to_multiset() =~= s.to_multiset().insert(x));
        }
    } else {
        assert(seq![x] =~= Seq::<(Seq<char>, bool, bool)>::empty().push(x));
    }
}

/// Every entry of `s` is no later than `bound`, then so is every entry that
/// inserting `x` (itself before `bound`) gives.
proof fn lemma_insert_bounded(s: Seq<(Seq<char>, bool, bool)>, x: (Seq<char>, bool, bool), bound: Seq<char>)
    requires
        forall|i: int| 0 <= i < s.len() ==> !lex_lt(bound, ext_key(#[trigger] s[i])),
        !lex_lt(bound, ext_key(x)),
    ensures
        forall|i: int| 0 <= i < insert_by_key(s, x).len() ==> !lex_lt(bound, ext_key(#[trigger] insert_by_key(s, x)[i])),
    decreases s.len(),
{
    lemma_insert_multiset(s, x);
    if s.len() > 0 {
        if lex_lt(ext_key(x), ext_key(s.last())) {
            lemma_insert_bounded(s.drop_last(), x, bound);
            let t = insert_by_key(s.drop_last(), x);
            assert forall|i: int| 0 <= i < insert_by_key(s, x).len() implies !lex_lt(bound, ext_key(#[trigger] insert_by_key(s, x)[i])) by {
                if i < t.len() {
                    assert(insert_by_key(s, x)[i] == t[i]);
                } else {
                    assert(insert_by_key(s, x)[i] == s[s.len() - 1]);
                }
            }
        } else {
            assert forall|i: int| 0 <= i < insert_by_key(s, x).len() implies !lex_lt(bound, ext_key(#[trigger] insert_by_key(s, x)[i])) by {
                if i < s.len() {
                    assert(insert_by_key(s, x)[i] == s[i]);
                }
            }
        }
    }
}

/// Inserting into a sorted list keeps it sorted.
proof fn lemma_insert_sorted(s: Seq<(Seq<char>, bool, bool)>, x: (Seq<char>, bool, bool))
    requires
        sorted_by_key(s),
    ensures
        sorted_by_key(insert_by_key(s, x)),
    decreases s.len(),
{
    lemma_insert_multiset(s, x);
    if s.len() > 0 {
        let last = s.last();
        let r = insert_by_key(s, x);
        if lex_lt(ext_key(x), ext_key(last)) {
            let d = s.drop_last();
            assert(sorted_by_key(d)) by {
                assert forall|i: int, j: int| 0 <= i < j < d.len() implies !lex_lt(ext_key(#[trigger] d[j]), ext_key(#[trigger] d[i])) by {
                    assert(d[i] == s[i] && d[j] == s[j]);
                }
            }
            lemma_insert_sorted(d, x);
            assert forall|i: int| 0 <= i < d.len() implies !lex_lt(ext_key(last), ext_key(#[trigger] d[i])) by {
                assert(d[i] == s[i] && last == s[s.len() - 1]);
            }
            crate::text::lemma_lex_irreflexive(ext_key(x));
            assert(!lex_lt(ext_key(last), ext_key(x))) by {
                if lex_lt(ext_key(last), ext_key(x)) {
                    crate::text::lemma_lex_transitive(ext_key(x), ext_key(last), ext_key(x));
                }
            }
            lemma_insert_bounded(d, x, ext_key(last));
            let t = insert_by_key(d, x);
            assert forall|i: int, j: int| 0 <= i < j < r.len() implies !lex_lt(ext_key(#[trigger] r[j]), ext_key(#[trigger] r[i])) by {
                if j < t.len() {
                    assert(r[i] == t[i] && r[j] == t[j]);
                } else {
                    assert(r[j] == last && r[i] == t[i]);
                }
            }
        } else {
            assert forall|i: int, j: int| 0 <= i < j < r.len() implies !lex_lt(ext_key(#[trigger] r[j]), ext_key(#[trigger] r[i])) by {
                if j < s.len() {
                    assert(r[i] == s[i] && r[j] == s[j]);
                } else {
                    assert(r[j] == x && r[i] == s[i]);
                    if i < s.len() - 1 {
                        assert(!lex_lt(ext_key(s[s.len() - 1]), ext_key(s[i])));
                    } else {
                        crate::text::lemma_lex_irreflexive(ext_key(last));
                    }
                    lemma_lex_total(ext_key(x), ext_key(last));
                    lemma_lex_le_transitive(ext_key(s[i]), ext_key(last), ext_key(x));
                }
            }
        }
    }
}

/// The extension list comes out sorted by lowercased name, and holds exactly
/// the entries it was given (a permutation of them).
pub proof fn lemma_sort_by_key(s: Seq<(Seq<char>, bool, bool)>)
    ensures
        sorted_by_key(sort_by_key(s)),
        sort_by_key(s).to_multiset() == s.to_multiset(),
        sort_by_key(s).len() == s.len(),
    decreases s.len(),
{
    broadcast use vstd::seq_lib::group_to_multiset_ensures;

    if s.len() > 0 {
        lemma_sort_by_key(s.drop_last());
        lemma_insert_sorted(sort_by_key(s.drop_last()), s.last());
        lemma_insert_multiset(sort_by_key(s.drop_last()), s.last());
        assert(s.drop_last().push(s.last()) =~= s);
    } else {
        assert(sort_by_key(s).to_multiset() =~= s.to_multiset());
    }
}

// ---------------------------------------------------------------------------
// Enabling and disabling extensions
// ---------------------------------------------------------------------------

/// Asking a version for its `extension_dir`, errors silenced.
pub fn extension_dir_query(prefix: &str, version: &str) -> (r: Command)
    ensures
        is_command(
            r,
            spec_php_bin(prefix@, version@),
            seq!["-d"@, "error_reporting=0"@, "-r"@, "echo ini_get('extension_dir');"@],
        ),
{
    let args = vec![
        "-d".to_owned(),
        "error_reporting=0".to_owned(),
        "-r".to_owned(),
        "echo ini_get('extension_dir');".to_owned(),
    ];
    let c = command(php_bin(prefix, version).as_str(), args);
    assert(string_views(c.args@) =~= seq!["-d"@, "error_reporting=0"@, "-r"@, "echo ini_get('extension_dir');"@]);
    c
}

/// The shared object a PECL build of `name` leaves in the version's
/// `extension_dir` (the trimmed answer of the query; empty when it failed).
pub open spec fn spec_built_extension(ext_dir: Result<String, String>, name: Seq<char>) -> Seq<char> {
    let dir = match ext_dir {
        Ok(s) => trim(s@),
        Err(_) => seq![],
    };
    dir + "/"@ + lowercase(name) + ".so"@
}

/// The path of the built extension (see `spec_built_extension`).
pub fn built_extension(ext_dir: &Result<String, String>, name: &str) -> (r: String)
    ensures
        r@ == spec_built_extension(*ext_dir, name@),
{
    let dir = match ext_dir {
        Ok(s) => trimmed(s.as_str()),
        Err(_) => String::new(),
    };
    cat4(dir.as_str(), "/", to_lower(name).as_str(), ".so")
}

/// Why nothing was enabled when the build left no shared object.
pub fn build_failed_message(name: &str) -> (r: String)
    ensures
        r@ == "Build failed: "@ + lowercase(name@)
            + ".so was not created. It likely needs a system library (e.g. imagick needs ImageMagick). Nothing was enabled."@,
{
    cat3(
        "Build failed: ",
        to_lower(name).as_str(),
        ".so was not created. It likely needs a system library (e.g. imagick needs ImageMagick). Nothing was enabled.",
    )
}

/// A `php.ini` line that loads the extension `lower` itself (as PECL
/// sometimes appends): lowercased and trimmed, it mentions `lower` and starts
/// with `extension=` or `zend_extension=`.
pub open spec fn loads_extension(line: Seq<char>, lower: Seq<char>) -> bool {
    let t = lowercase(trim(line));
    crate::text::contains(t, lower) && (starts_with(t, "extension="@) || starts_with(
        t,
        "zend_extension="@,
    ))
}

/// The lines of `ls` that do not load `lower`, in order.
pub open spec fn kept_ini_lines(ls: Seq<Seq<char>>, lower: Seq<char>) -> Seq<Seq<char>>
    decreases ls.len(),
{
    if ls.len() == 0 {
        seq![]
    } else {
        kept_ini_lines(ls.drop_last(), lower) + if loads_extension(ls.last(), lower) {
            seq![]
        } else {
            seq![ls.last()]
        }
    }
}

/// Lines joined with `'\n'` between them.
pub open spec fn join_lines(ls: Seq<Seq<char>>) -> Seq<char>
    decreases ls.len(),
{
    if ls.len() == 0 {
        seq![]
    } else if ls.len() == 1 {
        ls[0]
    } else {
        join_lines(ls.drop_last()) + "\n"@ + ls.last()
    }
}

/// `php.ini` without the lines that load `lower` (so Tusk's own conf.d file
/// is not a duplicate that PHP reports as "already loaded").
pub open spec fn cleaned_ini(ini: Seq<char>, lower: Seq<char>) -> Seq<char> {
    join_lines(kept_ini_lines(lines(ini), lower))
}

/// The lines kept by `kept_ini_lines` are exactly those that, trimmed and
/// lowercased, do not both mention `lower` and start with `extension=` or
/// `zend_extension=`, in order.
proof fn lemma_kept_ini_lines_filter(ls: Seq<Seq<char>>, lower: Seq<char>)
    ensures
        kept_ini_lines(ls, lower) == ls.filter(
            |l: Seq<char>|
                !(crate::text::contains(lowercase(trim(l)), lower) && (starts_with(
                    lowercase(trim(l)),
                    "extension="@,
                ) || starts_with(lowercase(trim(l)), "zend_extension="@))),
        ),
    decreases ls.len(),
{
    reveal(Seq::filter);
    let p = |l: Seq<char>|
        !(crate::text::contains(lowercase(trim(l)), lower) && (starts_with(lowercase(trim(l)), "extension="@)
            || starts_with(lowercase(trim(l)), "zend_extension="@)));
    if ls.len() == 0 {
        assert(kept_ini_lines(ls, lower) =~= ls.filter(p));
    } else {
        lemma_kept_ini_lines_filter(ls.drop_last(), lower);
        if p(ls.last()) {
            assert(kept_ini_lines(ls, lower) =~= kept_ini_lines(ls.drop_last(), lower).push(ls.last()));
        } else {
            assert(kept_ini_lines(ls, lower) =~= kept_ini_lines(ls.drop_last(), lower));
        }
    }
}

/// Cleaning `php.ini` for the extension `lower` drops exactly the lines that
/// load it under either directive: those that, trimmed and lowercased,
/// mention `lower` and start with `extension=` or `zend_extension=`. Every
/// other line stays, in order, and no line that loads it is left.
pub proof fn lemma_clean_drops_exactly_loading_lines(ini: Seq<char>, lower: Seq<char>)
    ensures
        cleaned_ini(ini, lower) == join_lines(
            lines(ini).filter(
                |l: Seq<char>|
                    !(crate::text::contains(lowercase(trim(l)), lower) && (starts_with(
                        lowercase(trim(l)),
                        "extension="@,
                    ) || starts_with(lowercase(trim(l)), "zend_extension="@))),
            ),
        ),
        forall|i: int|
            0 <= i < kept_ini_lines(lines(ini), lower).len() ==> {
                let t = lowercase(trim(#[trigger] kept_ini_lines(lines(ini), lower)[i]));
                !(crate::text::contains(t, lower) && (starts_with(t, "extension="@) || starts_with(
                    t,
                    "zend_extension="@,
                )))
            },
{
    lemma_kept_ini_lines_filter(lines(ini), lower);
    let p = |l: Seq<char>|
        !(crate::text::contains(lowercase(trim(l)), lower) && (starts_with(lowercase(trim(l)), "extension="@)
            || starts_with(lowercase(trim(l)), "zend_extension="@)));
    lines(ini).lemma_filter_len(p);
    broadcast use vstd::seq_lib::group_filter_ensures;
    assert forall|i: int| 0 <= i < kept_ini_lines(lines(ini), lower).len() implies p(
        #[trigger] kept_ini_lines(lines(ini), lower)[i],
    ) by {
        assert(p(lines(ini).filter(p)[i]));
    }
}

/// What to write back into `php.ini`: the cleaned text and a final newline,
/// or nothing when cleaning changes nothing.
pub fn clean_php_ini(ini: &str, lower: &str) -> (r: Option<String>)
    ensures
        cleaned_ini(ini@, lower@) == ini@ ==> r is None,
        cleaned_ini(ini@, lower@) != ini@ ==> (r matches Some(t) && t@ == cleaned_ini(ini@, lower@) + "\n"@),
{
    let v = chars_of(ini);
    let ls = split_lines(&v);
    let low = chars_of(lower);
    let pre1 = chars_of("extension=");
    let pre2 = chars_of("zend_extension=");
    let mut out: Vec<char> = Vec::new();
    let mut kept: usize = 0;
    let mut i: usize = 0;
    let ghost all = lines(ini@);
    while i < ls.len()
        invariant
            0 <= i <= ls.len(),
            views(ls@) == all,
            low@ == lower@,
            pre1@ == "extension="@,
            pre2@ == "zend_extension="@,
            kept == kept_ini_lines(all.take(i as int), lower@).len(),
            out@ == join_lines(kept_ini_lines(all.take(i as int), lower@)),
            kept <= i,
        decreases ls.len() - i,
    {
        assert(all.take(i + 1).drop_last() =~= all.take(i as int));
        assert(views(ls@)[i as int] == ls@[i as int]@);
        let line = &ls[i];
        let t = chars_of(to_lower(string_of(&trim_chars(line)).as_str()).as_str());
        let loads = crate::text::has_substring(&t, &low) && (has_prefix(&t, &pre1) || has_prefix(&t, &pre2));
        if !loads {
            let ghost before = out@;
            let ghost prev = kept_ini_lines(all.take(i as int), lower@);
            if kept > 0 {
                out.push('\n');
            }
            let mut k: usize = 0;
            while k < line.len()
                invariant
                    0 <= k <= line.len(),
                    out@ == (if kept > 0 { before + seq!['\n'] } else { before }) + line@.take(k as int),
                decreases line.len() - k,
            {
                out.push(line[k]);
                k = k + 1;
                assert(out@ =~= (if kept > 0 { before + seq!['\n'] } else { before }) + line@.take(k as int));
            }
            proof {
                reveal_strlit("\n");
                let next = prev + seq![line@];
                assert(kept_ini_lines(all.take(i + 1), lower@) =~= next);
                assert(line@.take(line@.len() as int) =~= line@);
                if kept == 0 {
                    assert(next =~= seq![line@]);
                } else {
                    assert(next.drop_last() =~= prev);
                }
                assert(out@ =~= join_lines(next));
            }
            kept = kept + 1;
        } else {
            assert(kept_ini_lines(all.take(i + 1), lower@) =~= kept_ini_lines(all.take(i as int), lower@) + Seq::<Seq<char>>::empty());
        }
        i = i + 1;
    }
    assert(all.take(ls.len() as int) =~= all);
    if crate::text::chars_eq(&out, &v) {
        None
    } else {
        proof {
            reveal_strlit("\n");
        }
        let mut r = string_of(&out);
        r.append("\n");
        Some(r)
    }
}

/// How an extension is loaded: `xdebug` and `opcache` as Zend extensions,
/// everything else as a plain extension.
pub open spec fn ext_directive(lower: Seq<char>) -> Seq<char> {
    if lower == "xdebug"@ || lower == "opcache"@ {
        "zend_extension"@
    } else {
        "extension"@
    }
}

/// The conf.d entry that enables a freshly built extension: its path
/// (`<conf.d>/ext-<lower>.ini`) and its `<directive>=<lower>` line.
pub fn built_extension_ini(conf_d: &str, name: &str) -> (r: (String, String))
    ensures
        r.0@ == spec_ext_ini(conf_d@, name@),
        r.1@ == ext_directive(lowercase(name@)) + "="@ + lowercase(name@) + "\n"@,
{
    let lower = to_lower(name);
    let directive = if str_eq(lower.as_str(), "xdebug") || str_eq(lower.as_str(), "opcache") {
        "zend_extension"
    } else {
        "extension"
    };
    (cat4(conf_d, "/ext-", lower.as_str(), ".ini"), cat4(directive, "=", lower.as_str(), "\n"))
}

/// The message once a built extension is enabled.
pub fn extension_installed_message(name: &str, version: &str) -> (r: String)
    ensures
        r@ == name@ + " installed & enabled for php@"@ + version@,
{
    cat3(name, " installed & enabled for php@", version)
}

/// Enabling a freshly built extension: the conf.d entry to write (see
/// `built_extension_ini`), whether php-fpm restarts to load it, and the
/// message.
pub struct BuiltExtension {
    pub ini_path: String,
    pub ini_body: String,
    pub restart: bool,
    pub message: String,
}

/// Enabling the extension `name` that a PECL build made for `version`, once it
/// is known whether its shared object exists: refused when the build left
/// none (nothing is enabled then); otherwise its conf.d entry, a php-fpm
/// restart exactly when `version` is the active one, and the message.
pub fn enable_built_extension(
    conf_d: &str,
    version: &str,
    name: &str,
    so_exists: bool,
    active_php: &str,
) -> (r: Result<BuiltExtension, String>)
    ensures
        !so_exists ==> (r matches Err(e) && e@ == "Build failed: "@ + lowercase(name@)
            + ".so was not created. It likely needs a system library (e.g. imagick needs ImageMagick). Nothing was enabled."@),
        so_exists ==> (r matches Ok(b) && b.ini_path@ == spec_ext_ini(conf_d@, name@) && b.ini_body@ == ext_directive(
            lowercase(name@),
        ) + "="@ + lowercase(name@) + "\n"@ && b.restart == (active_php@ == version@) && b.message@ == name@
            + " installed & enabled for php@"@ + version@),
{
    if !so_exists {
        return Err(build_failed_message(name));
    }
    let (ini_path, ini_body) = built_extension_ini(conf_d, name);
    Ok(BuiltExtension {
        ini_path,
        ini_body,
        restart: str_eq(active_php, version),
        message: extension_installed_message(name, version),
    })
}

/// What toggling an extension does to its conf.d files.
pub enum IniChange {
    /// Write `body` to `path`, and remove the parked copy `parked` if any.
    Enable { path: String, body: String, parked: String },
    /// Park the active file: rename `from` to `to`.
    Park { from: String, to: String },
}

/// Enabling or disabling a loadable extension by managing its conf.d file:
/// enabling writes `extension=<name>` to `ext-<lower>.ini` and drops the
/// parked `ext-<lower>.ini.disabled`; disabling parks the active file, which
/// must exist (an extension compiled into PHP cannot be disabled this way).
/// A change applies live: php-fpm restarts exactly when `version` is the
/// active one.
pub open spec fn spec_set_extension(
    conf_d: Seq<char>,
    version: Seq<char>,
    name: Seq<char>,
    enable: bool,
    active_ini_exists: bool,
    active_php: Seq<char>,
    r: Result<(IniChange, bool, String), String>,
) -> bool {
    let active = spec_ext_ini(conf_d, name);
    let parked = active + ".disabled"@;
    if enable {
        r matches Ok((IniChange::Enable { path, body, parked: p }, restart, m)) && path@ == active && body@
            == "extension="@ + name + "\n"@ && p@ == parked && restart == (active_php == version) && m@ == name
            + " enabled"@
    } else if active_ini_exists {
        r matches Ok((IniChange::Park { from, to }, restart, m)) && from@ == active && to@ == parked && restart == (
        active_php == version) && m@ == name + " disabled"@
    } else {
        r matches Err(e) && e@ == "'"@ + name + "' is compiled into php@"@ + version
            + " and can't be disabled via ini."@
    }
}

/// Toggling an extension (see `spec_set_extension`).
pub fn set_extension(
    conf_d: &str,
    version: &str,
    name: &str,
    enable: bool,
    active_ini_exists: bool,
    active_php: &str,
) -> (r: Result<(IniChange, bool, String), String>)
    ensures
        spec_set_extension(conf_d@, version@, name@, enable, active_ini_exists, active_php@, r),
{
    let active = ext_ini_path(conf_d, name);
    let parked = cat(active.as_str(), ".disabled");
    let restart = str_eq(active_php, version);
    if enable {
        let body = cat3("extension=", name, "\n");
        Ok((IniChange::Enable { path: active, body, parked }, restart, cat(name, " enabled")))
    } else if active_ini_exists {
        Ok((IniChange::Park { from: active, to: parked }, restart, cat(name, " disabled")))
    } else {
        let mut e = cat3("'", name, "' is compiled into php@");
        e.append(version);
        e.append(" and can't be disabled via ini.");
        Err(e)
    }
}

/// The message of a version that is not installed, for the Ext tab.
pub fn not_installed_error(version: &str) -> (r: String)
    ensures
        r@ == "php@"@ + version@ + " is not installed"@,
{
    cat3("php@", version, " is not installed")
}

/// The arguments of `php -m` with startup errors silenced, so a broken
/// extension cannot leak warning text into the module list.
pub open spec fn modules_args() -> Seq<Seq<char>> {
    seq![
        "-d"@,
        "display_errors=0"@,
        "-d"@,
        "display_startup_errors=0"@,
        "-d"@,
        "error_reporting=0"@,
        "-m"@,
    ]
}

/// Listing a version's modules with `php -m` (see `modules_args`).
pub fn modules_query(prefix: &str, version: &str) -> (r: Command)
    ensures
        is_command(r, spec_php_bin(prefix@, version@), modules_args()),
{
    let args = vec![
        "-d".to_owned(),
        "display_errors=0".to_owned(),
        "-d".to_owned(),
        "display_startup_errors=0".to_owned(),
        "-d".to_owned(),
        "error_reporting=0".to_owned(),
        "-m".to_owned(),
    ];
    let c = command(php_bin(prefix, version).as_str(), args);
    assert(string_views(c.args@) =~= modules_args());
    c
}

/// How listing the extensions of `version` starts: refused when the version
/// is not installed (nothing is run or read then), otherwise by asking its
/// `php -m` for the loaded modules.
pub fn extensions_query(prefix: &str, version: &str, installed: bool) -> (r: Result<Command, String>)
    ensures
        !installed ==> (r matches Err(e) && e@ == "php@"@ + version@ + " is not installed"@),
        installed ==> (r matches Ok(c) && is_command(c, spec_php_bin(prefix@, version@), modules_args())),
{
    if !installed {
        return Err(not_installed_error(version));
    }
    Ok(modules_query(prefix, version))
}

/// Asking a version for its full version number.
pub fn full_version_query(prefix: &str, version: &str) -> (r: Command)
    ensures
        is_command(r, spec_php_bin(prefix@, version@), seq!["-r"@, "echo PHP_VERSION;"@]),
{
    let c = command(php_bin(prefix, version).as_str(), vec!["-r".to_owned(), "echo PHP_VERSION;".to_owned()]);
    assert(string_views(c.args@) =~= seq!["-r"@, "echo PHP_VERSION;"@]);
    c
}

} // verus!
