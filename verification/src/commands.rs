//! What the desktop commands decide and say: which formula a service needs,
//! progress and result messages, the shell lines they run, and the
//! phpMyAdmin and DNS setup texts. The desktop shell performs the work.

use crate::engine::services::{base_missing_formulae, lemma_base_never_apache, spec_base_missing};
use crate::engine::{logs_dir, spec_logs_dir, State};
use crate::text::{cat, cat3, cat4, chars_of, decimal, decimal_string, has_prefix, lowercase, starts_with, str_eq, string_of, string_views, to_lower};
use vstd::prelude::*;
use vstd::string::StringExecFns;

verus! {

/// Where long installs log their output, `~/.chowk/logs/install.log`.
pub fn install_log_path(home: &str) -> (r: String)
    ensures
        r@ == spec_logs_dir(home@) + "/install.log"@,
{
    cat(logs_dir(home).as_str(), "/install.log")
}

/// The shell line that runs `cmd` with all its output appended to `log`,
/// after a `$ <cmd>` header: memory stays bounded however much it prints.
pub fn logged_command(cmd: &str, log: &str) -> (r: String)
    ensures
        r@ == "printf '\\n$ %s\\n' \""@ + cmd@ + "\" >> '"@ + log@ + "'; "@ + cmd@ + " >> '"@ + log@
            + "' 2>&1"@,
{
    let mut r = cat3("printf '\\n$ %s\\n' \"", cmd, "\" >> '");
    r.append(log);
    r.append("'; ");
    r.append(cmd);
    r.append(" >> '");
    r.append(log);
    r.append("' 2>&1");
    r
}

/// The error of a logged command that failed.
pub fn logged_failure(log: &str) -> (r: String)
    ensures
        r@ == "command failed \u{2014} see log: "@ + log@,
{
    cat("command failed \u{2014} see log: ", log)
}

/// The Homebrew formula that installs a service: the configured web server
/// (httpd for Apache, nginx otherwise), MariaDB, Redis, Mailpit, or the active
/// PHP version; no installer for any other key.
pub open spec fn spec_service_formula(key: Seq<char>, state: State) -> Result<Seq<char>, Seq<char>> {
    if key == "web"@ {
        Ok(if state.web_server@ == "apache"@ { "httpd"@ } else { "nginx"@ })
    } else if key == "mariadb"@ || key == "redis"@ || key == "mailpit"@ {
        Ok(key)
    } else if key == "php"@ {
        Ok("php@"@ + state.active_php@)
    } else {
        Err("no installer for "@ + key)
    }
}

/// The formula of a service (see `spec_service_formula`).
pub fn service_formula(key: &str, state: &State) -> (r: Result<String, String>)
    ensures
        crate::text::rview(r) == spec_service_formula(key@, *state),
{
    if str_eq(key, "web") {
        if state.uses_apache() {
            Ok("httpd".to_owned())
        } else {
            Ok("nginx".to_owned())
        }
    } else if str_eq(key, "mariadb") || str_eq(key, "redis") || str_eq(key, "mailpit") {
        Ok(key.to_owned())
    } else if str_eq(key, "php") {
        Ok(cat("php@", state.active_php.as_str()))
    } else {
        Err(cat("no installer for ", key))
    }
}

/// `brew install <formula>` as a shell line.
pub fn brew_install_line(brew: &str, formula: &str) -> (r: String)
    ensures
        r@ == brew@ + " install "@ + formula@,
{
    cat3(brew, " install ", formula)
}

/// "<what> already installed".
pub fn already_installed_message(what: &str) -> (r: String)
    ensures
        r@ == what@ + " already installed"@,
{
    cat(what, " already installed")
}

/// "<what> installed".
pub fn installed_message(what: &str) -> (r: String)
    ensures
        r@ == what@ + " installed"@,
{
    cat(what, " installed")
}

/// The one coarse status line shown while installing `what`.
pub fn installing_message(what: &str) -> (r: String)
    ensures
        r@ == "Installing "@ + what@ + "\u{2026}"@,
{
    cat3("Installing ", what, "\u{2026}")
}

/// The Homebrew formula of a PHP version, `php@<version>`.
pub fn php_formula(version: &str) -> (r: String)
    ensures
        r@ == "php@"@ + version@,
{
    cat("php@", version)
}

/// The status line while downloading `what`.
pub fn downloading_message(what: &str) -> (r: String)
    ensures
        r@ == "Downloading "@ + what@ + "\u{2026}"@,
{
    cat3("Downloading ", what, "\u{2026}")
}

/// The status line while installing a PECL extension's system dependency.
pub fn dependency_message(formula: &str) -> (r: String)
    ensures
        r@ == "Installing dependency "@ + formula@ + "\u{2026}"@,
{
    cat3("Installing dependency ", formula, "\u{2026}")
}

/// The status line while PECL builds an extension.
pub fn building_message(name: &str) -> (r: String)
    ensures
        r@ == "Building "@ + name@ + " (PECL)\u{2026}"@,
{
    cat3("Building ", name, " (PECL)\u{2026}")
}

/// The status line of the `step`-th of `total` installs: "Installing <f> —
/// <step>/<total>…", with "step " before the numbers when `with_word` holds.
pub open spec fn spec_install_step(formula: Seq<char>, step: nat, total: nat, with_word: bool) -> Seq<char> {
    "Installing "@ + formula + " \u{2014} "@ + (if with_word { "step "@ } else { seq![] }) + decimal(step) + "/"@
        + decimal(total) + "\u{2026}"@
}

/// The status line of one install (see `spec_install_step`).
pub fn install_step_message(formula: &str, step: u64, total: u64, with_word: bool) -> (r: String)
    ensures
        r@ == spec_install_step(formula@, step as nat, total as nat, with_word),
{
    let mut r = cat3("Installing ", formula, " \u{2014} ");
    if with_word {
        r.append("step ");
    }
    r.append(decimal_string(step).as_str());
    r.append("/");
    r.append(decimal_string(total).as_str());
    r.append("\u{2026}");
    r
}

/// The status line of setting up phpMyAdmin as the last of `total` steps.
pub fn phpmyadmin_step_message(total: u64) -> (r: String)
    ensures
        r@ == "Setting up phpMyAdmin \u{2014} "@ + decimal(total as nat) + "/"@ + decimal(total as nat)
            + "\u{2026}"@,
{
    let t = decimal_string(total);
    let mut r = cat3("Setting up phpMyAdmin \u{2014} ", t.as_str(), "/");
    r.append(t.as_str());
    r.append("\u{2026}");
    r
}

/// The system libraries some PECL extensions need first: ImageMagick for
/// imagick, OpenSSL 3 for mongodb (both through pkg-config).
pub open spec fn spec_pecl_dependencies(name: Seq<char>) -> Seq<Seq<char>> {
    if lowercase(name) == "imagick"@ {
        seq!["pkg-config"@, "imagemagick"@]
    } else if lowercase(name) == "mongodb"@ {
        seq!["pkg-config"@, "openssl@3"@]
    } else {
        seq![]
    }
}

/// The formulae to install before building `name` with PECL.
pub fn pecl_dependencies(name: &str) -> (r: Vec<String>)
    ensures
        string_views(r@) == spec_pecl_dependencies(name@),
{
    let lower = to_lower(name);
    let r = if str_eq(lower.as_str(), "imagick") {
        vec!["pkg-config".to_owned(), "imagemagick".to_owned()]
    } else if str_eq(lower.as_str(), "mongodb") {
        vec!["pkg-config".to_owned(), "openssl@3".to_owned()]
    } else {
        Vec::new()
    };
    assert(string_views(r@) =~= spec_pecl_dependencies(name@));
    r
}

/// The shell line that builds `name` with PECL, answering every prompt with
/// the default.
pub fn pecl_install_line(pecl: &str, name: &str) -> (r: String)
    ensures
        r@ == "yes '' | '"@ + pecl@ + "' install '"@ + name@ + "'"@,
{
    let mut r = cat3("yes '' | '", pecl, "' install '");
    r.append(name);
    r.append("'");
    r
}

/// The one privileged script that makes `*.<tld>` resolve to this machine:
/// a dnsmasq mapping (added once), a dnsmasq restart, and a resolver file.
pub open spec fn spec_dns_script(tld: Seq<char>, prefix: Seq<char>) -> Seq<char> {
    "grep -q 'address=/."@ + tld + "/127.0.0.1' "@ + prefix + "/etc/dnsmasq.conf || echo 'address=/."@
        + tld + "/127.0.0.1' >> "@ + prefix + "/etc/dnsmasq.conf; "@ + prefix
        + "/bin/brew services restart dnsmasq; mkdir -p /etc/resolver; echo 'nameserver 127.0.0.1' > /etc/resolver/"@
        + tld
}

/// The DNS setup script (see `spec_dns_script`).
pub fn dns_script(tld: &str, prefix: &str) -> (r: String)
    ensures
        r@ == spec_dns_script(tld@, prefix@),
{
    let mut r = cat3("grep -q 'address=/.", tld, "/127.0.0.1' ");
    r.append(prefix);
    r.append("/etc/dnsmasq.conf || echo 'address=/.");
    r.append(tld);
    r.append("/127.0.0.1' >> ");
    r.append(prefix);
    r.append("/etc/dnsmasq.conf; ");
    r.append(prefix);
    r.append("/bin/brew services restart dnsmasq; mkdir -p /etc/resolver; echo 'nameserver 127.0.0.1' > /etc/resolver/");
    r.append(tld);
    r
}

/// The message once `*.<tld>` resolves locally.
pub fn dns_ready_message(tld: &str) -> (r: String)
    ensures
        r@ == "*."@ + tld@ + " now resolves to 127.0.0.1"@,
{
    cat3("*.", tld, " now resolves to 127.0.0.1")
}

/// The lowercase hexadecimal digit of `d < 16`.
pub open spec fn hex_digit(d: nat) -> char {
    if d < 10 {
        crate::text::digit(d)
    } else if d == 10 {
        'a'
    } else if d == 11 {
        'b'
    } else if d == 12 {
        'c'
    } else if d == 13 {
        'd'
    } else if d == 14 {
        'e'
    } else {
        'f'
    }
}

/// Bytes as lowercase hexadecimal, two digits each.
pub open spec fn hex_of(bytes: Seq<u8>) -> Seq<char>
    decreases bytes.len(),
{
    if bytes.len() == 0 {
        seq![]
    } else {
        hex_of(bytes.drop_last()) + seq![hex_digit((bytes.last() / 16) as nat), hex_digit((bytes.last() % 16) as nat)]
    }
}

fn hex_char(d: u8) -> (c: char)
    requires
        d < 16,
    ensures
        c == hex_digit(d as nat),
{
    if d == 0 { '0' }
    else if d == 1 { '1' }
    else if d == 2 { '2' }
    else if d == 3 { '3' }
    else if d == 4 { '4' }
    else if d == 5 { '5' }
    else if d == 6 { '6' }
    else if d == 7 { '7' }
    else if d == 8 { '8' }
    else if d == 9 { '9' }
    else if d == 10 { 'a' }
    else if d == 11 { 'b' }
    else if d == 12 { 'c' }
    else if d == 13 { 'd' }
    else if d == 14 { 'e' }
    else { 'f' }
}

/// The bytes as lowercase hexadecimal (see `hex_of`); used for the
/// phpMyAdmin cookie secret.
pub fn hex_string(bytes: &Vec<u8>) -> (r: String)
    ensures
        r@ == hex_of(bytes@),
{
    let mut v: Vec<char> = Vec::new();
    let mut i: usize = 0;
    while i < bytes.len()
        invariant
            0 <= i <= bytes.len(),
            v@ == hex_of(bytes@.take(i as int)),
        decreases bytes.len() - i,
    {
        assert(bytes@.take(i + 1).drop_last() =~= bytes@.take(i as int));
        let b = bytes[i];
        v.push(hex_char(b / 16));
        v.push(hex_char(b % 16));
        assert(v@ =~= hex_of(bytes@.take(i + 1)));
        i = i + 1;
    }
    assert(bytes@.take(bytes.len() as int) =~= bytes@);
    string_of(&v)
}

/// The hexadecimal secret is two lowercase hex digits per byte.
pub proof fn lemma_hex_shape(bytes: Seq<u8>)
    ensures
        hex_of(bytes).len() == 2 * bytes.len(),
        forall|i: int|
            0 <= i < hex_of(bytes).len() ==> ('0' <= #[trigger] hex_of(bytes)[i] <= '9') || ('a' <= hex_of(
                bytes,
            )[i] <= 'f'),
    decreases bytes.len(),
{
    if bytes.len() > 0 {
        lemma_hex_shape(bytes.drop_last());
        let h = hex_of(bytes);
        let p = hex_of(bytes.drop_last());
        assert forall|i: int| 0 <= i < h.len() implies ('0' <= #[trigger] h[i] <= '9') || ('a' <= h[i] <= 'f') by {
            if i < p.len() {
                assert(h[i] == p[i]);
            }
        }
    }
}

/// phpMyAdmin's development configuration: the cookie secret, MariaDB over
/// TCP on 127.0.0.1:3306, and login without a password allowed (the dev root
/// has a blank one).
pub open spec fn spec_phpmyadmin_config(secret: Seq<char>) -> Seq<char> {
    "<?php\n$cfg['blowfish_secret'] = '"@ + secret
        + "';\n$i = 0;\n$i++;\n$cfg['Servers'][$i]['auth_type'] = 'cookie';\n$cfg['Servers'][$i]['host'] = '127.0.0.1';\n$cfg['Servers'][$i]['port'] = '3306';\n$cfg['Servers'][$i]['compress'] = false;\n$cfg['Servers'][$i]['AllowNoPassword'] = true;\n$cfg['UploadDir'] = '';\n$cfg['SaveDir'] = '';\n"@
}

/// The `config.inc.php` of phpMyAdmin (see `spec_phpmyadmin_config`).
pub fn phpmyadmin_config(secret: &str) -> (r: String)
    ensures
        r@ == spec_phpmyadmin_config(secret@),
{
    cat3(
        "<?php\n$cfg['blowfish_secret'] = '",
        secret,
        "';\n$i = 0;\n$i++;\n$cfg['Servers'][$i]['auth_type'] = 'cookie';\n$cfg['Servers'][$i]['host'] = '127.0.0.1';\n$cfg['Servers'][$i]['port'] = '3306';\n$cfg['Servers'][$i]['compress'] = false;\n$cfg['Servers'][$i]['AllowNoPassword'] = true;\n$cfg['UploadDir'] = '';\n$cfg['SaveDir'] = '';\n",
    )
}

/// The shell line that downloads phpMyAdmin's official package to `tmp`.
pub fn phpmyadmin_download_line(tmp: &str) -> (r: String)
    ensures
        r@ == "curl -fL --retry 3 --retry-delay 2 --connect-timeout 20 -o '"@ + tmp@
            + "' 'https://www.phpmyadmin.net/downloads/phpMyAdmin-latest-english.tar.xz'"@,
{
    cat3(
        "curl -fL --retry 3 --retry-delay 2 --connect-timeout 20 -o '",
        tmp,
        "' 'https://www.phpmyadmin.net/downloads/phpMyAdmin-latest-english.tar.xz'",
    )
}

/// The shell line that unpacks `archive` into `stage`.
pub fn extract_line(archive: &str, stage: &str) -> (r: String)
    ensures
        r@ == "tar -xf '"@ + archive@ + "' -C '"@ + stage@ + "'"@,
{
    let mut r = cat4("tar -xf '", archive, "' -C '", stage);
    r.append("'");
    r
}

/// An entry of the unpacking directory: its file name, and whether it is a
/// directory.
pub struct DirEntry {
    pub name: String,
    pub is_dir: bool,
}

/// An entry that is phpMyAdmin's top directory.
pub open spec fn is_phpmyadmin_dir(e: DirEntry) -> bool {
    e.is_dir && starts_with(e.name@, "phpMyAdmin"@)
}

/// The index of the unpacked phpMyAdmin directory among `entries`.
pub fn extracted_dir(entries: &Vec<DirEntry>) -> (r: Result<usize, String>)
    ensures
        match r {
            Ok(i) => i < entries@.len() && is_phpmyadmin_dir(entries@[i as int]) && forall|j: int|
                0 <= j < i ==> !is_phpmyadmin_dir(#[trigger] entries@[j]),
            Err(e) => e@ == "phpMyAdmin folder not found in archive"@ && forall|j: int|
                0 <= j < entries@.len() ==> !is_phpmyadmin_dir(#[trigger] entries@[j]),
        },
{
    let p = chars_of("phpMyAdmin");
    let mut i: usize = 0;
    while i < entries.len()
        invariant
            0 <= i <= entries.len(),
            p@ == "phpMyAdmin"@,
            forall|j: int| 0 <= j < i ==> !is_phpmyadmin_dir(#[trigger] entries@[j]),
        decreases entries.len() - i,
    {
        if entries[i].is_dir && has_prefix(&chars_of(entries[i].name.as_str()), &p) {
            return Ok(i);
        }
        i = i + 1;
    }
    Err("phpMyAdmin folder not found in archive".to_owned())
}

/// The AppleScript that opens Terminal in `path` (single quotes, which
/// would end the quoted path, are dropped from it).
pub open spec fn spec_terminal_script(path: Seq<char>) -> Seq<char> {
    "tell application \"Terminal\"\nactivate\ndo script \"cd '"@ + path.filter(|c: char| c != '\'')
        + "'\"\nend tell"@
}

/// The Terminal script (see `spec_terminal_script`).
pub fn terminal_script(path: &str) -> (r: String)
    ensures
        r@ == spec_terminal_script(path@),
{
    let v = chars_of(path);
    let mut kept: Vec<char> = Vec::new();
    let mut i: usize = 0;
    while i < v.len()
        invariant
            0 <= i <= v.len(),
            kept@ == v@.take(i as int).filter(|c: char| c != '\''),
        decreases v.len() - i,
    {
        proof {
            reveal(Seq::filter);
            assert(v@.take(i + 1).drop_last() =~= v@.take(i as int));
        }
        if v[i] != '\'' {
            kept.push(v[i]);
        }
        i = i + 1;
    }
    assert(v@.take(v.len() as int) =~= v@);
    cat3("tell application \"Terminal\"\nactivate\ndo script \"cd '", string_of(&kept).as_str(), "'\"\nend tell")
}

// ---------------------------------------------------------------------------
// First run
// ---------------------------------------------------------------------------

/// One thing the first-run setup does.
pub enum SetupAction {
    /// Show the line in the status bar.
    Say(String),
    /// Install the Homebrew formula, with the output logged.
    Install(String),
    /// Download and configure phpMyAdmin.
    PhpMyAdmin,
    /// Run the script behind the administrator prompt.
    Privileged(String),
    /// Start every service.
    StartAll,
    /// Give MariaDB's root a blank password over TCP, for development.
    DevResetRoot,
    /// Record in the saved settings that setup is done (see
    /// `State::mark_setup_done`), so the app opens on the dashboard next time.
    RecordSetupDone,
}

/// A step of the first-run setup: its action, and whether its failure ends
/// the setup with that error (otherwise the failure is ignored).
pub struct SetupStep {
    pub action: SetupAction,
    pub required: bool,
}

/// `s` shows the status line `m` (which cannot fail).
pub open spec fn step_says(s: SetupStep, m: Seq<char>) -> bool {
    !s.required && (s.action matches SetupAction::Say(x) && x@ == m)
}

/// `s` installs the formula `f`, and the setup stops if that fails.
pub open spec fn step_installs(s: SetupStep, f: Seq<char>) -> bool {
    s.required && (s.action matches SetupAction::Install(x) && x@ == f)
}

/// Steps `2k` and `2k + 1` announce and install the `k`-th missing formula,
/// the `k + 1`-th of `total` steps (see `spec_install_step` for `with_word`).
pub open spec fn install_pair(
    steps: Seq<SetupStep>,
    missing: Seq<Seq<char>>,
    total: nat,
    with_word: bool,
    k: int,
) -> bool {
    step_says(steps[2 * k], spec_install_step(missing[k], (k + 1) as nat, total, with_word)) && step_installs(
        steps[2 * k + 1],
        missing[k],
    )
}

/// The first-run steps, in order: each missing base formula, announced and
/// installed (required); phpMyAdmin (required); the `.test` domains, which
/// install dnsmasq when it is missing (required) and run the DNS script
/// `dns` behind the administrator prompt (best-effort); starting every
/// service (required); the development root of MariaDB (best-effort); and
/// recording that setup is done (required).
pub open spec fn is_first_run_steps(
    steps: Seq<SetupStep>,
    missing: Seq<Seq<char>>,
    dnsmasq_installed: bool,
    dns: Seq<char>,
) -> bool {
    let m = missing.len();
    let b: int = 2 * (m as int);
    let d: int = if dnsmasq_installed { 0 } else { 1 };
    &&& steps.len() == b + 9 + d
    &&& forall|k: int| 0 <= k < m ==> #[trigger] install_pair(steps, missing, (m + 3) as nat, true, k)
    &&& step_says(steps[b], "Setting up phpMyAdmin\u{2026}"@)
    &&& steps[b + 1].required && steps[b + 1].action is PhpMyAdmin
    &&& step_says(steps[b + 2], "Setting up .test domains (enter your Mac password)\u{2026}"@)
    &&& !dnsmasq_installed ==> step_installs(steps[b + 3], "dnsmasq"@)
    &&& !steps[b + 3 + d].required && (steps[b + 3 + d].action matches SetupAction::Privileged(x) && x@ == dns)
    &&& step_says(steps[b + 4 + d], "Starting services (enter your Mac password)\u{2026}"@)
    &&& steps[b + 5 + d].required && steps[b + 5 + d].action is StartAll
    &&& step_says(steps[b + 6 + d], "Configuring database\u{2026}"@)
    &&& !steps[b + 7 + d].required && steps[b + 7 + d].action is DevResetRoot
    &&& steps[b + 8 + d].required && steps[b + 8 + d].action is RecordSetupDone
}

fn say(m: &str) -> (s: SetupStep)
    ensures
        step_says(s, m@),
{
    SetupStep { action: SetupAction::Say(m.to_owned()), required: false }
}

/// Announcing and installing each of `missing` in turn, as the steps
/// `1..=missing.len()` of `total`.
fn install_steps(missing: &Vec<String>, total: u64, with_word: bool) -> (steps: Vec<SetupStep>)
    requires
        missing@.len() <= 4,
    ensures
        steps@.len() == 2 * missing@.len(),
        forall|k: int|
            0 <= k < missing@.len() ==> #[trigger] install_pair(steps@, string_views(missing@), total as nat, with_word, k),
{
    let ghost mv = string_views(missing@);
    let mut steps: Vec<SetupStep> = Vec::new();
    let mut i: usize = 0;
    while i < missing.len()
        invariant
            0 <= i <= missing.len(),
            missing@.len() <= 4,
            mv == string_views(missing@),
            steps@.len() == 2 * i,
            forall|k: int| 0 <= k < i ==> #[trigger] install_pair(steps@, mv, total as nat, with_word, k),
        decreases missing.len() - i,
    {
        let ghost before = steps@;
        let msg = install_step_message(missing[i].as_str(), i as u64 + 1, total, with_word);
        steps.push(SetupStep { action: SetupAction::Say(msg), required: false });
        steps.push(SetupStep { action: SetupAction::Install(missing[i].clone()), required: true });
        assert(mv[i as int] == missing@[i as int]@);
        assert forall|k: int| 0 <= k <= i implies #[trigger] install_pair(steps@, mv, total as nat, with_word, k) by {
            if k < i {
                assert(install_pair(before, mv, total as nat, with_word, k));
                assert(steps@[2 * k] == before[2 * k] && steps@[2 * k + 1] == before[2 * k + 1]);
            } else {
                assert(steps@[2 * k] == steps@[2 * i]);
            }
        }
        i = i + 1;
    }
    steps
}

/// The one-click first run for the PHP `version`: refused without Homebrew;
/// otherwise the settings with `version` active, the steps (see
/// `is_first_run_steps`, the missing formulae being those of the base stack
/// for `version`, the DNS script the one for the settings' TLD) and the
/// message once they are done.
pub fn first_run_plan(
    state: &State,
    version: &str,
    brew_present: bool,
    php_installed: bool,
    mariadb_installed: bool,
    nginx_installed: bool,
    dnsmasq_installed: bool,
    prefix: &str,
) -> (r: Result<(State, Vec<SetupStep>, String), String>)
    ensures
        !brew_present ==> (r matches Err(e) && e@
            == "Homebrew is required. Install it first from https://brew.sh, then reopen Tusk."@),
        brew_present ==> (r matches Ok((st, steps, msg)) && st.active_php@ == version@ && st.license_accepted
            == state.license_accepted && st.web_server@ == state.web_server@ && st.http_port == state.http_port
            && st.tld@ == state.tld@ && st.setup_done == state.setup_done && is_first_run_steps(
            steps@,
            spec_base_missing(version@, php_installed, mariadb_installed, nginx_installed),
            dnsmasq_installed,
            spec_dns_script(state.tld@, prefix@),
        ) && msg@ == "Setup complete \u{2014} http://localhost and http://pma.test are ready."@),
{
    if !brew_present {
        return Err("Homebrew is required. Install it first from https://brew.sh, then reopen Tusk.".to_owned());
    }
    let st = state.set_active_php(version);
    let missing = base_missing_formulae(version, php_installed, mariadb_installed, nginx_installed);
    let ghost mv = string_views(missing@);
    let m = missing.len();
    assert(mv.len() == m);
    assert(m <= 3);
    let total: u64 = m as u64 + 3;
    let mut steps = install_steps(&missing, total, true);
    let ghost b = steps@.len() as int;
    let ghost pre = steps@;
    steps.push(say("Setting up phpMyAdmin\u{2026}"));
    steps.push(SetupStep { action: SetupAction::PhpMyAdmin, required: true });
    steps.push(say("Setting up .test domains (enter your Mac password)\u{2026}"));
    if !dnsmasq_installed {
        steps.push(SetupStep { action: SetupAction::Install("dnsmasq".to_owned()), required: true });
    }
    steps.push(SetupStep { action: SetupAction::Privileged(dns_script(state.tld.as_str(), prefix)), required: false });
    steps.push(say("Starting services (enter your Mac password)\u{2026}"));
    steps.push(SetupStep { action: SetupAction::StartAll, required: true });
    steps.push(say("Configuring database\u{2026}"));
    steps.push(SetupStep { action: SetupAction::DevResetRoot, required: false });
    steps.push(SetupStep { action: SetupAction::RecordSetupDone, required: true });
    assert(steps@.subrange(0, b) =~= pre);
    assert forall|k: int| 0 <= k < m implies #[trigger] install_pair(steps@, mv, total as nat, true, k) by {
        assert(install_pair(pre, mv, total as nat, true, k));
        assert(steps@[2 * k] == steps@.subrange(0, b)[2 * k]);
        assert(steps@[2 * k + 1] == steps@.subrange(0, b)[2 * k + 1]);
    }
    Ok((st, steps, "Setup complete \u{2014} http://localhost and http://pma.test are ready.".to_owned()))
}


// ---------------------------------------------------------------------------
// Install everything
// ---------------------------------------------------------------------------

/// What "Install everything" still needs: the base stack's missing formulae
/// (see `spec_base_missing`), then Apache (`httpd`) when it is missing.
pub open spec fn spec_everything_missing(
    active_php: Seq<char>,
    php_installed: bool,
    mariadb_installed: bool,
    nginx_installed: bool,
    httpd_installed: bool,
) -> Seq<Seq<char>> {
    spec_base_missing(active_php, php_installed, mariadb_installed, nginx_installed) + (if httpd_installed {
        seq![]
    } else {
        seq!["httpd"@]
    })
}

/// The steps of "Install everything": each of `missing`, announced as the
/// `k + 1`-th of `total` and installed (required), then phpMyAdmin,
/// announced as the last of `total` (required); `total` counts the formulae
/// and phpMyAdmin.
pub open spec fn is_install_everything_steps(steps: Seq<SetupStep>, missing: Seq<Seq<char>>) -> bool {
    let m = missing.len();
    let b: int = 2 * (m as int);
    let total: nat = m + 1;
    &&& steps.len() == b + 2
    &&& forall|k: int| 0 <= k < m ==> #[trigger] install_pair(steps, missing, total, false, k)
    &&& step_says(
        steps[b],
        "Setting up phpMyAdmin \u{2014} "@ + decimal(total) + "/"@ + decimal(total) + "\u{2026}"@,
    )
    &&& steps[b + 1].required && steps[b + 1].action is PhpMyAdmin
}

/// "Install everything": PHP (the active version), MariaDB, Nginx and Apache
/// where missing, then phpMyAdmin (see `is_install_everything_steps`), and
/// the message once done.
pub fn install_everything_plan(
    active_php: &str,
    php_installed: bool,
    mariadb_installed: bool,
    nginx_installed: bool,
    httpd_installed: bool,
) -> (r: (Vec<SetupStep>, String))
    ensures
        is_install_everything_steps(
            r.0@,
            spec_everything_missing(active_php@, php_installed, mariadb_installed, nginx_installed, httpd_installed),
        ),
        r.1@ == "Installed PHP + MariaDB + Nginx + Apache + phpMyAdmin"@,
{
    let mut missing = base_missing_formulae(active_php, php_installed, mariadb_installed, nginx_installed);
    let ghost base = string_views(missing@);
    if !httpd_installed {
        missing.push("httpd".to_owned());
    }
    let ghost mv = string_views(missing@);
    assert(mv =~= spec_everything_missing(active_php@, php_installed, mariadb_installed, nginx_installed, httpd_installed));
    let m = missing.len();
    assert(mv.len() == m);
    assert(m <= 4);
    let total: u64 = m as u64 + 1;
    let mut steps = install_steps(&missing, total, false);
    let ghost b = steps@.len() as int;
    let ghost pre = steps@;
    steps.push(SetupStep { action: SetupAction::Say(phpmyadmin_step_message(total)), required: false });
    steps.push(SetupStep { action: SetupAction::PhpMyAdmin, required: true });
    assert(steps@.subrange(0, b) =~= pre);
    assert forall|k: int| 0 <= k < m implies #[trigger] install_pair(steps@, mv, total as nat, false, k) by {
        assert(install_pair(pre, mv, total as nat, false, k));
        assert(steps@[2 * k] == steps@.subrange(0, b)[2 * k]);
        assert(steps@[2 * k + 1] == steps@.subrange(0, b)[2 * k + 1]);
    }
    (steps, "Installed PHP + MariaDB + Nginx + Apache + phpMyAdmin".to_owned())
}

/// "Install everything" asks for Apache exactly when it is missing, and only
/// as its last formula (the base stack never holds it).
pub proof fn lemma_everything_apache(
    active_php: Seq<char>,
    php_installed: bool,
    mariadb_installed: bool,
    nginx_installed: bool,
    httpd_installed: bool,
)
    ensures
        ({
            let m = spec_everything_missing(active_php, php_installed, mariadb_installed, nginx_installed, httpd_installed);
            &&& m.contains("httpd"@) <==> !httpd_installed
            &&& !httpd_installed ==> m.last() == "httpd"@
        }),
{
    let base = spec_base_missing(active_php, php_installed, mariadb_installed, nginx_installed);
    let m = spec_everything_missing(active_php, php_installed, mariadb_installed, nginx_installed, httpd_installed);
    lemma_base_never_apache(active_php, php_installed, mariadb_installed, nginx_installed);
    if httpd_installed {
        assert(m =~= base);
    } else {
        assert(m[m.len() - 1] == "httpd"@);
    }
}

} // verus!
