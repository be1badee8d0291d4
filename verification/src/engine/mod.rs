//! The engine: where Tusk keeps its files, the persisted settings, and what
//! Homebrew and the processes it runs report back.
//!
//! Everything user-configurable is persisted in `~/.chowk/desktop-state.json`;
//! components are orchestrated over Homebrew, and anything that binds a
//! privileged port (< 1024) runs through a macOS administrator prompt.

pub mod php;
pub mod services;
pub mod sites;

use crate::text::{
    cat, chars_of, contains, has_prefix, has_substring, lines, split_lines, split_tokens, starts_with,
    decimal, decimal_string, rview, signed_decimal, str_eq, string_of, string_views,
    tokens, trim, trimmed, views,
};
use vstd::prelude::*;

verus! {

/// PHP versions Tusk knows how to install via Homebrew, newest first.
pub open spec fn available_php() -> Seq<Seq<char>> {
    seq!["8.4"@, "8.3"@, "8.2"@, "8.1"@, "8.0"@, "7.4"@]
}

/// The PHP versions Tusk knows how to install via Homebrew, newest first.
pub fn available_php_versions() -> (v: Vec<&'static str>)
    ensures
        v@.map_values(|s: &str| s@) == available_php(),
{
    let v = vec!["8.4", "8.3", "8.2", "8.1", "8.0", "7.4"];
    assert(v@.map_values(|s: &str| s@) =~= available_php());
    v
}

// ---------------------------------------------------------------------------
// Paths
// ---------------------------------------------------------------------------

/// `base` joined with `part` as a path: an absolute `part` (one that starts
/// with `'/'`) replaces `base`; otherwise `part` follows `base`, with one `'/'`
/// between them unless `base` is empty or already ends with one.
pub open spec fn join(base: Seq<char>, part: Seq<char>) -> Seq<char> {
    if part.len() > 0 && part[0] == '/' {
        part
    } else if base.len() == 0 || base.last() == '/' {
        base + part
    } else {
        base + seq!['/'] + part
    }
}

/// Joins `part` onto the path `base` (see `join`).
pub fn join_path(base: &str, part: &str) -> (r: String)
    ensures
        r@ == join(base@, part@),
{
    let p = chars_of(part);
    if p.len() > 0 && p[0] == '/' {
        return string_of(&p);
    }
    let b = chars_of(base);
    if b.len() == 0 || b[b.len() - 1] == '/' {
        cat(base, part)
    } else {
        let with_sep = cat(base, "/");
        proof {
            reveal_strlit("/");
        }
        cat(with_sep.as_str(), part)
    }
}

pub open spec fn spec_chowk_home(home: Seq<char>) -> Seq<char> {
    join(home, ".chowk"@)
}

pub open spec fn spec_etc_dir(home: Seq<char>) -> Seq<char> {
    join(spec_chowk_home(home), "etc"@)
}

pub open spec fn spec_logs_dir(home: Seq<char>) -> Seq<char> {
    join(spec_chowk_home(home), "logs"@)
}

pub open spec fn spec_run_dir(home: Seq<char>) -> Seq<char> {
    join(spec_chowk_home(home), "run"@)
}

pub open spec fn spec_apps_dir(home: Seq<char>) -> Seq<char> {
    join(spec_chowk_home(home), "apps"@)
}

pub open spec fn spec_www_dir(home: Seq<char>) -> Seq<char> {
    join(home, "Sites"@)
}

/// Tusk's home, `~/.chowk`, shared with the `chowk` command-line tool.
pub fn chowk_home(home: &str) -> (r: String)
    ensures
        r@ == spec_chowk_home(home@),
{
    join_path(home, ".chowk")
}

/// Configuration directory, `~/.chowk/etc`.
pub fn etc_dir(home: &str) -> (r: String)
    ensures
        r@ == spec_etc_dir(home@),
{
    join_path(chowk_home(home).as_str(), "etc")
}

/// Log directory, `~/.chowk/logs`.
pub fn logs_dir(home: &str) -> (r: String)
    ensures
        r@ == spec_logs_dir(home@),
{
    join_path(chowk_home(home).as_str(), "logs")
}

/// Pid files and sockets, `~/.chowk/run`.
pub fn run_dir(home: &str) -> (r: String)
    ensures
        r@ == spec_run_dir(home@),
{
    join_path(chowk_home(home).as_str(), "run")
}

/// Bundled web apps (dashboard, phpMyAdmin), `~/.chowk/apps`.
pub fn apps_dir(home: &str) -> (r: String)
    ensures
        r@ == spec_apps_dir(home@),
{
    join_path(chowk_home(home).as_str(), "apps")
}

/// The persisted site list, `~/.chowk/etc/sites.json`.
pub fn sites_json(home: &str) -> (r: String)
    ensures
        r@ == join(spec_etc_dir(home@), "sites.json"@),
{
    join_path(etc_dir(home).as_str(), "sites.json")
}

/// The persisted settings, `~/.chowk/desktop-state.json`.
pub fn state_file(home: &str) -> (r: String)
    ensures
        r@ == join(spec_chowk_home(home@), "desktop-state.json"@),
{
    join_path(chowk_home(home).as_str(), "desktop-state.json")
}

/// Default parent folder for new site document roots, `~/Sites`.
pub fn www_dir(home: &str) -> (r: String)
    ensures
        r@ == spec_www_dir(home@),
{
    join_path(home, "Sites")
}

/// The directories that must exist before anything is written, in the
/// order they are created.
pub fn required_dirs(home: &str) -> (r: Vec<String>)
    ensures
        string_views(r@) == seq![
            spec_etc_dir(home@),
            spec_logs_dir(home@),
            spec_run_dir(home@),
            spec_apps_dir(home@),
            spec_www_dir(home@),
        ],
{
    let r = vec![etc_dir(home), logs_dir(home), run_dir(home), apps_dir(home), www_dir(home)];
    assert(string_views(r@) =~= seq![
        spec_etc_dir(home@),
        spec_logs_dir(home@),
        spec_run_dir(home@),
        spec_apps_dir(home@),
        spec_www_dir(home@),
    ]);
    r
}


// ---------------------------------------------------------------------------
// Persistent state
// ---------------------------------------------------------------------------

/// The persisted settings.
pub struct State {
    /// Has the user accepted the licenses/terms on first run?
    pub license_accepted: bool,
    /// Which web server to run: "nginx" or "apache".
    pub web_server: String,
    /// HTTP port for the web server (80 = pretty URLs, needs admin once).
    pub http_port: u16,
    /// Currently active PHP version, e.g. "8.3".
    pub active_php: String,
    /// TLD used for local sites (e.g. "test" -> myapp.test).
    pub tld: String,
    /// Has the one-click first run completed? The app then opens straight
    /// on the dashboard.
    pub setup_done: bool,
}

/// The settings of a first run.
pub open spec fn is_default_state(s: State) -> bool {
    &&& !s.license_accepted
    &&& s.web_server@ == "nginx"@
    &&& s.http_port == 80
    &&& s.active_php@ == "8.2"@
    &&& s.tld@ == "test"@
    &&& !s.setup_done
}

/// Two states hold the same settings.
pub open spec fn same_state(a: State, b: State) -> bool {
    &&& a.license_accepted == b.license_accepted
    &&& a.web_server@ == b.web_server@
    &&& a.http_port == b.http_port
    &&& a.active_php@ == b.active_php@
    &&& a.tld@ == b.tld@
    &&& a.setup_done == b.setup_done
}

impl Default for State {
    fn default() -> (s: State)
        ensures
            is_default_state(s),
    {
        State {
            license_accepted: false,
            web_server: "nginx".to_owned(),
            http_port: 80,
            active_php: "8.2".to_owned(),
            tld: "test".to_owned(),
            setup_done: false,
        }
    }
}

impl State {
    /// A copy of these settings.
    pub fn duplicate(&self) -> (r: State)
        ensures
            same_state(r, *self),
    {
        State {
            license_accepted: self.license_accepted,
            web_server: self.web_server.clone(),
            http_port: self.http_port,
            active_php: self.active_php.clone(),
            tld: self.tld.clone(),
            setup_done: self.setup_done,
        }
    }

    /// The settings once the user has accepted the licenses.
    pub fn accept_license(&self) -> (r: State)
        ensures
            r.license_accepted,
            r.web_server@ == self.web_server@,
            r.http_port == self.http_port,
            r.active_php@ == self.active_php@,
            r.tld@ == self.tld@,
            r.setup_done == self.setup_done,
    {
        let mut r = self.duplicate();
        r.license_accepted = true;
        r
    }

    /// The settings with another HTTP port.
    pub fn set_port(&self, port: u16) -> (r: State)
        ensures
            r.http_port == port,
            r.license_accepted == self.license_accepted,
            r.web_server@ == self.web_server@,
            r.active_php@ == self.active_php@,
            r.tld@ == self.tld@,
            r.setup_done == self.setup_done,
    {
        let mut r = self.duplicate();
        r.http_port = port;
        r
    }

    /// The settings with another active PHP version.
    pub fn set_active_php(&self, version: &str) -> (r: State)
        ensures
            r.active_php@ == version@,
            r.license_accepted == self.license_accepted,
            r.web_server@ == self.web_server@,
            r.http_port == self.http_port,
            r.tld@ == self.tld@,
            r.setup_done == self.setup_done,
    {
        let mut r = self.duplicate();
        r.active_php = version.to_owned();
        r
    }

    /// The settings once the first run has completed.
    pub fn mark_setup_done(&self) -> (r: State)
        ensures
            r.setup_done,
            r.license_accepted == self.license_accepted,
            r.web_server@ == self.web_server@,
            r.http_port == self.http_port,
            r.active_php@ == self.active_php@,
            r.tld@ == self.tld@,
    {
        let mut r = self.duplicate();
        r.setup_done = true;
        r
    }

    /// The settings with another web server. Only "nginx" and "apache" are
    /// accepted, and not while the current web server runs.
    pub fn set_web_server(&self, server: &str, running: bool) -> (r: Result<State, String>)
        ensures
            !(server@ == "nginx"@ || server@ == "apache"@) ==> (r matches Err(e) && e@
                == "server must be 'nginx' or 'apache'"@),
            (server@ == "nginx"@ || server@ == "apache"@) && running ==> (r matches Err(e) && e@
                == "Stop the web server before switching (Services \u{2192} power off)."@),
            (server@ == "nginx"@ || server@ == "apache"@) && !running ==> (r matches Ok(s)
                && s.web_server@ == server@ && s.license_accepted == self.license_accepted
                && s.http_port == self.http_port && s.active_php@ == self.active_php@ && s.tld@
                == self.tld@ && s.setup_done == self.setup_done),
    {
        if !(str_eq(server, "nginx") || str_eq(server, "apache")) {
            return Err("server must be 'nginx' or 'apache'".to_owned());
        }
        if running {
            return Err("Stop the web server before switching (Services \u{2192} power off).".to_owned());
        }
        let mut r = self.duplicate();
        r.web_server = server.to_owned();
        Ok(r)
    }

    /// Whether the configured web server is Apache (anything else runs Nginx).
    pub fn uses_apache(&self) -> (r: bool)
        ensures
            r == (self.web_server@ == "apache"@),
    {
        str_eq(self.web_server.as_str(), "apache")
    }
}


// ---------------------------------------------------------------------------
// Homebrew
// ---------------------------------------------------------------------------

/// The Homebrew prefix from the output of `brew --prefix`: the trimmed
/// output, or `/opt/homebrew` when the command failed.
pub open spec fn spec_brew_prefix(output: Result<String, String>) -> Seq<char> {
    match output {
        Ok(s) => trim(s@),
        Err(_) => "/opt/homebrew"@,
    }
}

/// Resolves the Homebrew prefix (/opt/homebrew on Apple Silicon, /usr/local
/// on Intel) from what `brew --prefix` returned.
pub fn brew_prefix(output: &Result<String, String>) -> (r: String)
    ensures
        r@ == spec_brew_prefix(*output),
{
    match output {
        Ok(s) => trimmed(s.as_str()),
        Err(_) => "/opt/homebrew".to_owned(),
    }
}

/// The `brew` executable under a Homebrew prefix.
pub fn brew_bin(prefix: &str) -> (r: String)
    ensures
        r@ == prefix@ + "/bin/brew"@,
{
    cat(prefix, "/bin/brew")
}

/// The second whitespace-separated word of the output of
/// `brew list --versions <formula>` (the installed version), or nothing.
pub open spec fn spec_brew_version(output: Result<String, String>) -> Seq<char> {
    match output {
        Ok(s) => if tokens(s@).len() > 1 {
            tokens(s@)[1]
        } else {
            seq![]
        },
        Err(_) => seq![],
    }
}

/// Installed version of a Homebrew formula, e.g. "1.27.3" (empty if absent),
/// from what `brew list --versions <formula>` returned.
pub fn brew_version(output: &Result<String, String>) -> (r: String)
    ensures
        r@ == spec_brew_version(*output),
{
    match output {
        Ok(s) => {
            let v = chars_of(s.as_str());
            let t = split_tokens(&v);
            proof {
                assert(views(t@).len() == t@.len());
            }
            if t.len() > 1 {
                assert(views(t@)[1] == t@[1]@);
                string_of(&t[1])
            } else {
                String::new()
            }
        },
        Err(_) => String::new(),
    }
}

/// A line of `brew services list` that reports `name` as started.
pub open spec fn reports_started(line: Seq<char>, name: Seq<char>) -> bool {
    starts_with(line, name) && contains(line, "started"@)
}

/// Whether one of the lines `ls` reports `name` started.
pub open spec fn has_started_line(ls: Seq<Seq<char>>, name: Seq<char>) -> bool {
    exists|i: int| 0 <= i < ls.len() && #[trigger] reports_started(ls[i], name)
}

/// Whether the output of `brew services list` has a line that starts with
/// `name` and says "started".
pub open spec fn spec_service_running(name: Seq<char>, output: Result<String, String>) -> bool {
    match output {
        Ok(s) => has_started_line(lines(s@), name),
        Err(_) => false,
    }
}

/// Is a brew *service* currently started, according to what
/// `brew services list` returned?
pub fn brew_service_running(name: &str, output: &Result<String, String>) -> (r: bool)
    ensures
        r == spec_service_running(name@, *output),
{
    match output {
        Ok(s) => {
            let v = chars_of(s.as_str());
            let ls = split_lines(&v);
            let n = chars_of(name);
            let started = chars_of("started");
            let mut i: usize = 0;
            while i < ls.len()
                invariant
                    0 <= i <= ls.len(),
                    views(ls@) == lines((*s)@),
                    n@ == name@,
                    started@ == "started"@,
                    *output == Ok::<String, String>(*s),
                    forall|j: int| 0 <= j < i ==> !reports_started(#[trigger] lines((*s)@)[j], name@),
                decreases ls.len() - i,
            {
                assert(views(ls@)[i as int] == ls@[i as int]@);
                if has_prefix(&ls[i], &n) && has_substring(&ls[i], &started) {
                    assert(lines((*s)@).len() == ls@.len());
                    assert(reports_started(lines((*s)@)[i as int], name@));
                    assert(has_started_line(lines((*s)@), name@));
                    return true;
                }
                i = i + 1;
            }
            false
        },
        Err(_) => false,
    }
}

/// The formula and version a line of `brew list --versions` names: its first
/// word, and its second word (or nothing); a blank line names nothing.
pub open spec fn version_entry(line: Seq<char>) -> Option<(Seq<char>, Seq<char>)> {
    let t = tokens(line);
    if t.len() == 0 {
        None
    } else {
        Some((t[0], if t.len() > 1 { t[1] } else { seq![] }))
    }
}

/// The formula-to-version map of the lines of `brew list --versions`; a
/// formula named twice keeps its last version.
pub open spec fn versions_of(ls: Seq<Seq<char>>) -> Map<Seq<char>, Seq<char>>
    decreases ls.len(),
{
    if ls.len() == 0 {
        Map::empty()
    } else {
        let m = versions_of(ls.drop_last());
        match version_entry(ls.last()) {
            Some(e) => m.insert(e.0, e.1),
            None => m,
        }
    }
}

/// The map that inserting `entries` in order builds.
pub open spec fn assoc(entries: Seq<(String, String)>) -> Map<Seq<char>, Seq<char>>
    decreases entries.len(),
{
    if entries.len() == 0 {
        Map::empty()
    } else {
        assoc(entries.drop_last()).insert(entries.last().0@, entries.last().1@)
    }
}

/// The later of two entries for one key wins.
proof fn lemma_assoc_last(entries: Seq<(String, String)>, k: Seq<char>, i: int)
    requires
        0 <= i < entries.len(),
        entries[i].0@ == k,
        forall|j: int| i < j < entries.len() ==> entries[j].0@ != k,
    ensures
        assoc(entries).contains_key(k),
        assoc(entries)[k] == entries[i].1@,
    decreases entries.len(),
{
    if i < entries.len() - 1 {
        lemma_assoc_last(entries.drop_last(), k, i);
    }
}

/// A key that no entry has is not in the map.
proof fn lemma_assoc_absent(entries: Seq<(String, String)>, k: Seq<char>)
    requires
        forall|j: int| 0 <= j < entries.len() ==> entries[j].0@ != k,
    ensures
        !assoc(entries).contains_key(k),
    decreases entries.len(),
{
    if entries.len() > 0 {
        lemma_assoc_absent(entries.drop_last(), k);
    }
}

/// Installed formulae and their versions, as one `brew list --versions`
/// reported them.
pub struct FormulaVersions {
    entries: Vec<(String, String)>,
}

impl View for FormulaVersions {
    type V = Map<Seq<char>, Seq<char>>;

    closed spec fn view(&self) -> Map<Seq<char>, Seq<char>> {
        assoc(self.entries@)
    }
}

impl FormulaVersions {
    /// No formula at all.
    pub fn empty() -> (r: FormulaVersions)
        ensures
            r@ == Map::<Seq<char>, Seq<char>>::empty(),
    {
        FormulaVersions { entries: Vec::new() }
    }

    /// Records `formula` at `version`, replacing what was recorded for it.
    pub fn insert(&mut self, formula: String, version: String)
        ensures
            final(self)@ == old(self)@.insert(formula@, version@),
    {
        let ghost old_entries = self.entries@;
        self.entries.push((formula, version));
        assert(self.entries@.drop_last() =~= old_entries);
    }

    fn find(&self, formula: &str) -> (r: Option<usize>)
        ensures
            r matches Some(i) ==> i < self.entries@.len() && self@.contains_key(formula@)
                && self@[formula@] == self.entries@[i as int].1@,
            r is None ==> !self@.contains_key(formula@),
    {
        let mut i = self.entries.len();
        while i > 0
            invariant
                i <= self.entries@.len(),
                forall|j: int| i <= j < self.entries@.len() ==> self.entries@[j].0@ != formula@,
            decreases i,
        {
            i = i - 1;
            if str_eq(self.entries[i].0.as_str(), formula) {
                proof {
                    lemma_assoc_last(self.entries@, formula@, i as int);
                }
                return Some(i);
            }
        }
        proof {
            lemma_assoc_absent(self.entries@, formula@);
        }
        None
    }

    /// Whether `formula` is installed.
    pub fn installed(&self, formula: &str) -> (r: bool)
        ensures
            r == self@.contains_key(formula@),
    {
        self.find(formula).is_some()
    }

    /// The installed version of `formula`, or nothing when it is not installed.
    pub fn version(&self, formula: &str) -> (r: String)
        ensures
            self@.contains_key(formula@) ==> r@ == self@[formula@],
            !self@.contains_key(formula@) ==> r@ == Seq::<char>::empty(),
    {
        match self.find(formula) {
            Some(i) => self.entries[i].1.clone(),
            None => String::new(),
        }
    }
}

/// The map of what `brew list --versions` reported (nothing when it failed).
pub open spec fn spec_brew_versions(output: Result<String, String>) -> Map<Seq<char>, Seq<char>> {
    match output {
        Ok(s) => versions_of(lines(s@)),
        Err(_) => Map::empty(),
    }
}

/// ONE `brew list --versions` -> map of installed formula -> version, so
/// callers need not spawn a brew process per formula.
pub fn brew_versions_map(output: &Result<String, String>) -> (m: FormulaVersions)
    ensures
        m@ == spec_brew_versions(*output),
{
    let mut m = FormulaVersions::empty();
    match output {
        Ok(s) => {
            let v = chars_of(s.as_str());
            let ls = split_lines(&v);
            let mut i: usize = 0;
            while i < ls.len()
                invariant
                    0 <= i <= ls.len(),
                    views(ls@) == lines(s@),
                    m@ == versions_of(lines(s@).take(i as int)),
                decreases ls.len() - i,
            {
                assert(lines(s@).take(i + 1).drop_last() =~= lines(s@).take(i as int));
                assert(views(ls@)[i as int] == ls@[i as int]@);
                let t = split_tokens(&ls[i]);
                proof {
                    assert(views(t@).len() == t@.len());
                }
                if t.len() > 0 {
                    let name = string_of(&t[0]);
                    let version = if t.len() > 1 {
                        string_of(&t[1])
                    } else {
                        String::new()
                    };
                    proof {
                        assert(views(t@)[0] == t@[0]@);
                        if t.len() > 1 {
                            assert(views(t@)[1] == t@[1]@);
                        }
                    }
                    m.insert(name, version);
                }
                i = i + 1;
            }
            assert(lines(s@).take(ls.len() as int) =~= lines(s@));
        },
        Err(_) => {},
    }
    m
}

/// The set that `names` holds.
pub open spec fn name_set(names: Seq<String>) -> Set<Seq<char>>
    decreases names.len(),
{
    if names.len() == 0 {
        Set::empty()
    } else {
        name_set(names.drop_last()).insert(names.last()@)
    }
}

proof fn lemma_name_set(names: Seq<String>, k: Seq<char>)
    ensures
        name_set(names).contains(k) <==> exists|j: int| 0 <= j < names.len() && #[trigger] names[j]@ == k,
    decreases names.len(),
{
    if names.len() > 0 {
        lemma_name_set(names.drop_last(), k);
        if exists|j: int| 0 <= j < names.len() && #[trigger] names[j]@ == k {
            let j = choose|j: int| 0 <= j < names.len() && #[trigger] names[j]@ == k;
            if j < names.len() - 1 {
                assert(names.drop_last()[j]@ == k);
            }
        }
        if exists|j: int| 0 <= j < names.len() - 1 && #[trigger] names.drop_last()[j]@ == k {
            let j = choose|j: int| 0 <= j < names.len() - 1 && #[trigger] names.drop_last()[j]@ == k;
            assert(names[j]@ == k);
        }
    }
}

/// Names of the services that one `brew services list` reported started.
pub struct ServiceSet {
    names: Vec<String>,
}

impl View for ServiceSet {
    type V = Set<Seq<char>>;

    closed spec fn view(&self) -> Set<Seq<char>> {
        name_set(self.names@)
    }
}

impl ServiceSet {
    /// No service at all.
    pub fn empty() -> (r: ServiceSet)
        ensures
            r@ == Set::<Seq<char>>::empty(),
    {
        ServiceSet { names: Vec::new() }
    }

    /// Adds `name`.
    pub fn insert(&mut self, name: String)
        ensures
            final(self)@ == old(self)@.insert(name@),
    {
        let ghost old_names = self.names@;
        self.names.push(name);
        assert(self.names@.drop_last() =~= old_names);
    }

    /// Whether `name` is in the set.
    pub fn contains(&self, name: &str) -> (r: bool)
        ensures
            r == self@.contains(name@),
    {
        proof {
            lemma_name_set(self.names@, name@);
        }
        let mut i: usize = 0;
        while i < self.names.len()
            invariant
                0 <= i <= self.names@.len(),
                forall|j: int| 0 <= j < i ==> self.names@[j]@ != name@,
            decreases self.names@.len() - i,
        {
            if str_eq(self.names[i].as_str(), name) {
                assert(self.names@[i as int]@ == name@);
                proof {
                    lemma_name_set(self.names@, name@);
                }
                return true;
            }
            i = i + 1;
        }
        false
    }
}

/// The first words of the lines of `brew services list` that say "started".
pub open spec fn started_of(ls: Seq<Seq<char>>) -> Set<Seq<char>>
    decreases ls.len(),
{
    if ls.len() == 0 {
        Set::empty()
    } else {
        let rest = started_of(ls.drop_last());
        if contains(ls.last(), "started"@) && tokens(ls.last()).len() > 0 {
            rest.insert(tokens(ls.last())[0])
        } else {
            rest
        }
    }
}

/// The started services of what `brew services list` reported (none when it
/// failed).
pub open spec fn spec_brew_started(output: Result<String, String>) -> Set<Seq<char>> {
    match output {
        Ok(s) => started_of(lines(s@)),
        Err(_) => Set::empty(),
    }
}

/// ONE `brew services list` -> set of started service names.
pub fn brew_started_set(output: &Result<String, String>) -> (r: ServiceSet)
    ensures
        r@ == spec_brew_started(*output),
{
    let mut r = ServiceSet::empty();
    match output {
        Ok(s) => {
            let v = chars_of(s.as_str());
            let ls = split_lines(&v);
            let started = chars_of("started");
            let mut i: usize = 0;
            while i < ls.len()
                invariant
                    0 <= i <= ls.len(),
                    views(ls@) == lines(s@),
                    started@ == "started"@,
                    r@ == started_of(lines(s@).take(i as int)),
                decreases ls.len() - i,
            {
                assert(lines(s@).take(i + 1).drop_last() =~= lines(s@).take(i as int));
                assert(views(ls@)[i as int] == ls@[i as int]@);
                if has_substring(&ls[i], &started) {
                    let t = split_tokens(&ls[i]);
                    proof {
                        assert(views(t@).len() == t@.len());
                    }
                    if t.len() > 0 {
                        assert(views(t@)[0] == t@[0]@);
                        r.insert(string_of(&t[0]));
                    }
                }
                i = i + 1;
            }
            assert(lines(s@).take(ls.len() as int) =~= lines(s@));
        },
        Err(_) => {},
    }
    r
}

// ---------------------------------------------------------------------------
// Processes
// ---------------------------------------------------------------------------

/// A process to run: the program and its arguments.
pub struct Command {
    pub program: String,
    pub args: Vec<String>,
}

/// `c` runs `program` with `args`.
pub open spec fn is_command(c: Command, program: Seq<char>, args: Seq<Seq<char>>) -> bool {
    c.program@ == program && string_views(c.args@) == args
}

/// A command from a program and its arguments.
pub fn command(program: &str, args: Vec<String>) -> (c: Command)
    ensures
        c.program@ == program@,
        c.args@ == args@,
{
    Command { program: program.to_owned(), args }
}

/// What a finished process left: whether it exited successfully, and its
/// standard output and error as text.
pub struct ProcessOutput {
    pub success: bool,
    pub stdout: String,
    pub stderr: String,
}

/// The result of running `cmd`: its output on success; on failure a message
/// that names the command and holds its trimmed error and output; when it
/// could not be spawned, a message with the reason.
pub open spec fn spec_run_result(cmd: Seq<char>, out: Result<ProcessOutput, String>) -> Result<
    Seq<char>,
    Seq<char>,
> {
    match out {
        Err(e) => Err("failed to spawn "@ + cmd + ": "@ + e@),
        Ok(o) => if o.success {
            Ok(o.stdout@)
        } else {
            Err(cmd + " failed: "@ + trim(o.stderr@) + trim(o.stdout@))
        },
    }
}

/// Runs' outcome: stdout on success or a stderr-based error string.
pub fn run_result(cmd: &str, out: &Result<ProcessOutput, String>) -> (r: Result<String, String>)
    ensures
        rview(r) == spec_run_result(cmd@, *out),
{
    match out {
        Err(e) => {
            let m = cat("failed to spawn ", cmd);
            let m = cat(m.as_str(), ": ");
            Err(cat(m.as_str(), e.as_str()))
        },
        Ok(o) => {
            if o.success {
                Ok(o.stdout.clone())
            } else {
                let m = cat(cmd, " failed: ");
                let m = cat(m.as_str(), trimmed(o.stderr.as_str()).as_str());
                Err(cat(m.as_str(), trimmed(o.stdout.as_str()).as_str()))
            }
        },
    }
}

/// How one character of a shell script is written inside an AppleScript
/// string literal: backslashes and double quotes get a backslash before them.
pub open spec fn escape_char(c: char) -> Seq<char> {
    if c == '\\' {
        seq!['\\', '\\']
    } else if c == '"' {
        seq!['\\', '"']
    } else {
        seq![c]
    }
}

/// `s` escaped for an AppleScript string literal.
pub open spec fn escape_applescript(s: Seq<char>) -> Seq<char>
    decreases s.len(),
{
    if s.len() == 0 {
        seq![]
    } else {
        escape_char(s[0]) + escape_applescript(s.drop_first())
    }
}

/// What an AppleScript string literal's body stands for: a backslash takes
/// the next character literally.
pub open spec fn unescape_applescript(t: Seq<char>) -> Seq<char>
    decreases t.len(),
{
    if t.len() == 0 {
        seq![]
    } else if t[0] == '\\' && t.len() >= 2 {
        seq![t[1]] + unescape_applescript(t.subrange(2, t.len() as int))
    } else {
        seq![t[0]] + unescape_applescript(t.drop_first())
    }
}

/// The AppleScript that runs `script` with administrator privileges.
pub open spec fn spec_applescript(script: Seq<char>) -> Seq<char> {
    "do shell script \""@ + escape_applescript(script) + "\" with administrator privileges"@
}

/// The AppleScript program (for `osascript -e`) that runs the shell command
/// line `script` behind a native macOS administrator prompt.
pub fn privileged_script(script: &str) -> (r: String)
    ensures
        r@ == spec_applescript(script@),
{
    let s = chars_of(script);
    let mut body: Vec<char> = Vec::new();
    let mut i: usize = 0;
    assert(s@.skip(0) =~= s@);
    assert(body@ + escape_applescript(s@) =~= escape_applescript(s@));
    while i < s.len()
        invariant
            0 <= i <= s.len(),
            body@ + escape_applescript(s@.skip(i as int)) == escape_applescript(s@),
        decreases s.len() - i,
    {
        assert(s@.skip(i as int).drop_first() =~= s@.skip(i + 1));
        let c = s[i];
        let ghost before = body@;
        if c == '\\' {
            body.push('\\');
            body.push('\\');
        } else if c == '"' {
            body.push('\\');
            body.push('"');
        } else {
            body.push(c);
        }
        assert(body@ =~= before + escape_char(c));
        assert(body@ + escape_applescript(s@.skip(i + 1)) =~= before + escape_applescript(s@.skip(i as int)));
        i = i + 1;
    }
    assert(s@.skip(s.len() as int) =~= Seq::<char>::empty());
    assert(body@ =~= escape_applescript(s@)) by {
        assert(body@ + Seq::<char>::empty() =~= body@);
    }
    let head = cat("do shell script \"", string_of(&body).as_str());
    cat(head.as_str(), "\" with administrator privileges")
}

/// Escaping for AppleScript loses nothing: the literal stands for exactly the
/// script that was escaped.
pub proof fn lemma_applescript_roundtrip(s: Seq<char>)
    ensures
        unescape_applescript(escape_applescript(s)) == s,
    decreases s.len(),
{
    if s.len() > 0 {
        lemma_applescript_roundtrip(s.drop_first());
        let rest = escape_applescript(s.drop_first());
        let t = escape_char(s[0]) + rest;
        assert(escape_applescript(s) == t);
        if s[0] == '\\' || s[0] == '"' {
            assert(t.subrange(2, t.len() as int) =~= rest);
        } else {
            assert(t.drop_first() =~= rest);
        }
        assert(seq![s[0]] + s.drop_first() =~= s);
    }
}

/// The outcome of the `osascript` run: its output on success, its error
/// output otherwise, and the reason when it could not be spawned.
pub open spec fn spec_privileged_result(out: Result<ProcessOutput, String>) -> Result<
    Seq<char>,
    Seq<char>,
> {
    match out {
        Err(e) => Err("osascript spawn failed: "@ + e@),
        Ok(o) => if o.success {
            Ok(o.stdout@)
        } else {
            Err(o.stderr@)
        },
    }
}

/// The result of a privileged run from what `osascript` left.
pub fn privileged_result(out: &Result<ProcessOutput, String>) -> (r: Result<String, String>)
    ensures
        rview(r) == spec_privileged_result(*out),
{
    match out {
        Err(e) => Err(cat("osascript spawn failed: ", e.as_str())),
        Ok(o) => if o.success {
            Ok(o.stdout.clone())
        } else {
            Err(o.stderr.clone())
        },
    }
}

// ---------------------------------------------------------------------------
// Pid files
// ---------------------------------------------------------------------------

/// An ASCII decimal digit.
pub open spec fn is_digit(c: char) -> bool {
    '0' <= c && c <= '9'
}

/// The value of a string of decimal digits.
pub open spec fn digits_value(s: Seq<char>) -> int
    decreases s.len(),
{
    if s.len() == 0 {
        0
    } else {
        digits_value(s.drop_last()) * 10 + (s.last() as int - '0' as int)
    }
}

/// A string of decimal digits has a non-negative value that grows with it.
proof fn lemma_digits_value_grows(s: Seq<char>, k: int)
    requires
        0 <= k <= s.len(),
        forall|i: int| 0 <= i < s.len() ==> is_digit(#[trigger] s[i]),
    ensures
        0 <= digits_value(s.take(k)) <= digits_value(s),
    decreases s.len(),
{
    if s.len() > 0 {
        if k == s.len() {
            assert(s.take(k) =~= s);
            lemma_digits_value_grows(s.drop_last(), k - 1);
            assert(s.drop_last().take(k - 1) =~= s.drop_last());
        } else {
            lemma_digits_value_grows(s.drop_last(), k);
            assert(s.drop_last().take(k) =~= s.take(k));
            lemma_digits_value_grows(s.drop_last(), s.len() - 1);
            assert(s.drop_last().take(s.len() - 1) =~= s.drop_last());
        }
    } else {
        assert(s.take(k) =~= s);
    }
}

/// The sign character a number starts with, if any.
pub open spec fn has_sign(s: Seq<char>) -> bool {
    s.len() > 0 && (s[0] == '-' || s[0] == '+')
}

/// The digits after an optional sign.
pub open spec fn unsigned_part(s: Seq<char>) -> Seq<char> {
    if has_sign(s) {
        s.drop_first()
    } else {
        s
    }
}

/// Decimal parsing of an `i32`: an optional `+` or `-`, then at least one
/// ASCII digit and nothing else, and a value within the range of `i32`.
pub open spec fn parse_i32(s: Seq<char>) -> Option<int> {
    let body = unsigned_part(s);
    if body.len() == 0 || !(forall|i: int| 0 <= i < body.len() ==> is_digit(#[trigger] body[i])) {
        None
    } else {
        let v = if s[0] == '-' {
            -digits_value(body)
        } else {
            digits_value(body)
        };
        if i32::MIN <= v <= i32::MAX {
            Some(v)
        } else {
            None
        }
    }
}

/// Parses a decimal `i32` (see `parse_i32`).
pub fn parse_int32(s: &Vec<char>) -> (r: Option<i32>)
    ensures
        r matches Some(v) ==> parse_i32(s@) == Some(v as int),
        r is None ==> parse_i32(s@) is None,
{
    let mut start: usize = 0;
    let mut neg = false;
    if s.len() > 0 && (s[0] == '-' || s[0] == '+') {
        neg = s[0] == '-';
        start = 1;
    }
    let ghost body = unsigned_part(s@);
    assert(body =~= s@.skip(start as int));
    if start == s.len() {
        return None;
    }
    let mut acc: i64 = 0;
    let mut over = false;
    let mut i = start;
    while i < s.len()
        invariant
            start <= i <= s.len(),
            body == s@.skip(start as int),
            body == unsigned_part(s@),
            start == 0 || start == 1,
            start == 1 <==> has_sign(s@),
            neg == (s@.len() > 0 && s@[0] == '-'),
            forall|j: int| 0 <= j < i - start ==> is_digit(#[trigger] body[j]),
            !over ==> acc == digits_value(body.take(i - start)) && 0 <= acc <= 2147483648,
            over ==> digits_value(body.take(i - start)) > 2147483648,
        decreases s.len() - i,
    {
        let c = s[i];
        if !('0' <= c && c <= '9') {
            assert(!is_digit(body[i - start]));
            return None;
        }
        let ghost k = (i - start) as int;
        assert(body.take(k + 1).drop_last() =~= body.take(k));
        proof {
            if over {
                lemma_digits_value_grows(body.take(k + 1), k);
                assert(body.take(k + 1).take(k) =~= body.take(k));
            }
        }
        if !over {
            let d = (c as u32 - '0' as u32) as i64;
            let next = acc * 10 + d;
            if next > 2147483648 {
                over = true;
            } else {
                acc = next;
            }
        }
        i = i + 1;
    }
    assert(body.take(body.len() as int) =~= body);
    if over {
        return None;
    }
    let v: i64 = if neg { -acc } else { acc };
    if v < -2147483648 || v > 2147483647 {
        None
    } else {
        Some(v as i32)
    }
}

/// The decimal text of a signed number.
pub fn signed_decimal_string(n: i32) -> (r: String)
    ensures
        r@ == signed_decimal(n as int),
{
    if n < 0 {
        let m = (0 - (n as i64)) as u64;
        proof {
            reveal_strlit("-");
        }
        cat("-", decimal_string(m).as_str())
    } else {
        decimal_string(n as u64)
    }
}

/// The pid that a pid file's contents name, in its canonical decimal form.
pub open spec fn spec_pid_text(contents: Seq<char>) -> Option<Seq<char>> {
    match parse_i32(trim(contents)) {
        Some(v) => Some(signed_decimal(v)),
        None => None,
    }
}

/// The `ps -p <pid> -o pid=` check that tells whether the process a pid file
/// names is alive (it also sees root-owned processes started through the
/// admin prompt); none when the file does not hold a pid.
pub fn pid_alive_command(contents: &str) -> (r: Option<Command>)
    ensures
        spec_pid_text(contents@) is None ==> r is None,
        spec_pid_text(contents@) matches Some(p) ==> (r matches Some(c) && is_command(
            c,
            "ps"@,
            seq!["-p"@, p, "-o"@, "pid="@],
        )),
{
    let t = chars_of(trimmed(contents).as_str());
    match parse_int32(&t) {
        Some(pid) => {
            let args = vec!["-p".to_owned(), signed_decimal_string(pid), "-o".to_owned(), "pid=".to_owned()];
            let c = command("ps", args);
            assert(string_views(c.args@) =~= seq!["-p"@, signed_decimal(pid as int), "-o"@, "pid="@]);
            Some(c)
        },
        None => None,
    }
}

// ---------------------------------------------------------------------------
// phpMyAdmin
// ---------------------------------------------------------------------------

/// Where Tusk keeps its own phpMyAdmin, `~/.chowk/apps/phpmyadmin`.
pub fn phpmyadmin_local_dir(home: &str) -> (r: String)
    ensures
        r@ == join(spec_apps_dir(home@), "phpmyadmin"@),
{
    join_path(apps_dir(home).as_str(), "phpmyadmin")
}

/// Where phpMyAdmin lives, if installed: Tusk's own copy (when its
/// `index.php` exists) takes precedence, else a Homebrew install.
pub open spec fn spec_phpmyadmin_docroot(
    home: Seq<char>,
    local_index_exists: bool,
    brew_has_phpmyadmin: bool,
    prefix: Seq<char>,
) -> Option<Seq<char>> {
    if local_index_exists {
        Some(join(spec_apps_dir(home), "phpmyadmin"@))
    } else if brew_has_phpmyadmin {
        Some(prefix + "/share/phpmyadmin"@)
    } else {
        None
    }
}

/// The document root of phpMyAdmin (see `spec_phpmyadmin_docroot`).
pub fn phpmyadmin_docroot(
    home: &str,
    local_index_exists: bool,
    brew_has_phpmyadmin: bool,
    prefix: &str,
) -> (r: Option<String>)
    ensures
        match r {
            Some(d) => spec_phpmyadmin_docroot(home@, local_index_exists, brew_has_phpmyadmin, prefix@)
                == Some(d@),
            None => spec_phpmyadmin_docroot(home@, local_index_exists, brew_has_phpmyadmin, prefix@) is None,
        },
{
    if local_index_exists {
        Some(phpmyadmin_local_dir(home))
    } else if brew_has_phpmyadmin {
        Some(cat(prefix, "/share/phpmyadmin"))
    } else {
        None
    }
}

// ---------------------------------------------------------------------------
// Homebrew queries
// ---------------------------------------------------------------------------

/// `brew --prefix`, run through `brew` on the PATH.
pub fn brew_prefix_query() -> (r: Command)
    ensures
        is_command(r, "brew"@, seq!["--prefix"@]),
{
    let c = command("brew", vec!["--prefix".to_owned()]);
    assert(string_views(c.args@) =~= seq!["--prefix"@]);
    c
}

/// `brew list <formula>`, which succeeds exactly when the formula is installed.
pub fn brew_installed_query(prefix: &str, formula: &str) -> (r: Command)
    ensures
        is_command(r, prefix@ + "/bin/brew"@, seq!["list"@, formula@]),
{
    let c = command(brew_bin(prefix).as_str(), vec!["list".to_owned(), formula.to_owned()]);
    assert(string_views(c.args@) =~= seq!["list"@, formula@]);
    c
}

/// `brew list --versions`, for one formula or (with none) for all.
pub fn brew_versions_query(prefix: &str, formula: Option<&str>) -> (r: Command)
    ensures
        formula is None ==> is_command(r, prefix@ + "/bin/brew"@, seq!["list"@, "--versions"@]),
        formula matches Some(f) ==> is_command(r, prefix@ + "/bin/brew"@, seq!["list"@, "--versions"@, f@]),
{
    let mut args = vec!["list".to_owned(), "--versions".to_owned()];
    match formula {
        Some(f) => {
            args.push(f.to_owned());
        },
        None => {},
    }
    let c = command(brew_bin(prefix).as_str(), args);
    assert(formula is None ==> string_views(c.args@) =~= seq!["list"@, "--versions"@]);
    assert(formula matches Some(f) ==> string_views(c.args@) =~= seq!["list"@, "--versions"@, f@]);
    c
}

/// `brew services list`.
pub fn brew_services_query(prefix: &str) -> (r: Command)
    ensures
        is_command(r, prefix@ + "/bin/brew"@, seq!["services"@, "list"@]),
{
    let c = command(brew_bin(prefix).as_str(), vec!["services".to_owned(), "list".to_owned()]);
    assert(string_views(c.args@) =~= seq!["services"@, "list"@]);
    c
}

// ---------------------------------------------------------------------------
// Laws of the Homebrew snapshots
// ---------------------------------------------------------------------------

/// The line's first word is `k`.
pub open spec fn names_formula(line: Seq<char>, k: Seq<char>) -> bool {
    tokens(line).len() > 0 && tokens(line)[0] == k
}

/// The line's first word is `k` and it says "started".
pub open spec fn reports_started_formula(line: Seq<char>, k: Seq<char>) -> bool {
    contains(line, "started"@) && names_formula(line, k)
}

proof fn lemma_versions_of_last_wins(ls: Seq<Seq<char>>, k: Seq<char>)
    ensures
        versions_of(ls).contains_key(k) <==> exists|i: int| 0 <= i < ls.len() && #[trigger] names_formula(ls[i], k),
        versions_of(ls).contains_key(k) ==> exists|i: int|
            0 <= i < ls.len() && #[trigger] names_formula(ls[i], k) && versions_of(ls)[k] == (if tokens(
                ls[i],
            ).len() > 1 {
                tokens(ls[i])[1]
            } else {
                seq![]
            }) && forall|j: int| i < j < ls.len() ==> !names_formula(#[trigger] ls[j], k),
    decreases ls.len(),
{
    if ls.len() > 0 {
        let d = ls.drop_last();
        let last = ls.len() - 1;
        lemma_versions_of_last_wins(d, k);
        assert(ls[last] == ls.last());
        if names_formula(ls.last(), k) {
            assert(versions_of(ls).contains_key(k));
            assert(names_formula(ls[last], k));
        } else {
            assert(versions_of(ls).contains_key(k) == versions_of(d).contains_key(k));
            assert(versions_of(ls).contains_key(k) ==> versions_of(ls)[k] == versions_of(d)[k]);
            assert forall|i: int| 0 <= i < d.len() implies d[i] == ls[i] by {}
            if exists|i: int| 0 <= i < ls.len() && #[trigger] names_formula(ls[i], k) {
                let i = choose|i: int| 0 <= i < ls.len() && #[trigger] names_formula(ls[i], k);
                assert(i < last);
                assert(names_formula(d[i], k));
            }
            if versions_of(ls).contains_key(k) {
                let i = choose|i: int|
                    0 <= i < d.len() && #[trigger] names_formula(d[i], k) && versions_of(d)[k] == (if tokens(d[i]).len()
                        > 1 {
                        tokens(d[i])[1]
                    } else {
                        seq![]
                    }) && forall|j: int| i < j < d.len() ==> !names_formula(#[trigger] d[j], k);
                assert(names_formula(ls[i], k));
                assert forall|j: int| i < j < ls.len() implies !names_formula(#[trigger] ls[j], k) by {
                    if j < last {
                        assert(ls[j] == d[j]);
                    }
                }
            }
        }
    }
}

/// `brew list --versions` gives a formula exactly when some line names it
/// first, and its version is the second word of the last such line (nothing
/// when that line has one word); a failed listing gives no formula.
pub proof fn lemma_brew_versions_last_line_wins(output: Result<String, String>, k: Seq<char>)
    ensures
        output is Err ==> !spec_brew_versions(output).contains_key(k),
        output matches Ok(s) ==> {
            let ls = lines(s@);
            &&& spec_brew_versions(output).contains_key(k) <==> exists|i: int|
                0 <= i < ls.len() && #[trigger] names_formula(ls[i], k)
            &&& spec_brew_versions(output).contains_key(k) ==> exists|i: int|
                0 <= i < ls.len() && #[trigger] names_formula(ls[i], k) && spec_brew_versions(output)[k] == (if tokens(
                    ls[i],
                ).len() > 1 {
                    tokens(ls[i])[1]
                } else {
                    seq![]
                }) && forall|j: int| i < j < ls.len() ==> !names_formula(#[trigger] ls[j], k)
        },
{
    if let Ok(s) = output {
        lemma_versions_of_last_wins(lines(s@), k);
    }
}

proof fn lemma_started_of_lines(ls: Seq<Seq<char>>, k: Seq<char>)
    ensures
        started_of(ls).contains(k) <==> exists|i: int| 0 <= i < ls.len() && #[trigger] reports_started_formula(ls[i], k),
    decreases ls.len(),
{
    if ls.len() > 0 {
        let d = ls.drop_last();
        let last = ls.len() - 1;
        lemma_started_of_lines(d, k);
        assert(ls[last] == ls.last());
        if reports_started_formula(ls.last(), k) {
            assert(started_of(ls).contains(k));
        } else {
            assert(started_of(ls).contains(k) == started_of(d).contains(k));
        }
        if exists|i: int| 0 <= i < ls.len() && #[trigger] reports_started_formula(ls[i], k) {
            let i = choose|i: int| 0 <= i < ls.len() && #[trigger] reports_started_formula(ls[i], k);
            if i < last {
                assert(reports_started_formula(d[i], k));
            }
        }
        if exists|i: int| 0 <= i < d.len() && #[trigger] reports_started_formula(d[i], k) {
            let i = choose|i: int| 0 <= i < d.len() && #[trigger] reports_started_formula(d[i], k);
            assert(reports_started_formula(ls[i], k));
        }
    }
}

/// `brew services list` reports a service started exactly when some line
/// names it first and says "started"; a failed listing reports none.
pub proof fn lemma_brew_started_lines(output: Result<String, String>, k: Seq<char>)
    ensures
        output is Err ==> !spec_brew_started(output).contains(k),
        output matches Ok(s) ==> (spec_brew_started(output).contains(k) <==> exists|i: int|
            0 <= i < lines(s@).len() && #[trigger] reports_started_formula(lines(s@)[i], k)),
{
    if let Ok(s) = output {
        lemma_started_of_lines(lines(s@), k);
    }
}

} // verus!
