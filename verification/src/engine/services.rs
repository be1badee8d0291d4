//! Service orchestration: php-fpm, the chosen web server (Nginx or Apache),
//! MariaDB, Redis and Mailpit. Privileged ports (< 1024) are started through a
//! macOS administrator prompt.

use super::{
    apps_dir, brew_bin, command, digits_value, etc_dir, is_command, is_digit, join, join_path, logs_dir, run_dir,
    spec_apps_dir, spec_etc_dir, spec_logs_dir, spec_run_dir, Command, FormulaVersions, ServiceSet,
    State,
};
use super::php::{php_fpm_bin, php_ini_dir, spec_php_fpm_bin, spec_php_ini_dir};
use crate::text::{cat, cat3, decimal, decimal_string, digit, rview, string_views};
use vstd::prelude::*;
use vstd::string::StringExecFns;

verus! {

pub open spec fn spec_php_sock(home: Seq<char>) -> Seq<char> {
    spec_run_dir(home) + "/php.sock"@
}

/// The unix socket php-fpm listens on, `~/.chowk/run/php.sock`.
pub fn php_sock(home: &str) -> (r: String)
    ensures
        r@ == spec_php_sock(home@),
{
    cat(run_dir(home).as_str(), "/php.sock")
}

/// The user the services run as: `$USER`, or `nobody` when it is unset.
pub fn service_user(env_user: Option<&str>) -> (r: String)
    ensures
        r@ == match env_user {
            Some(u) => u@,
            None => "nobody"@,
        },
{
    match env_user {
        Some(u) => u.to_owned(),
        None => "nobody".to_owned(),
    }
}

/// The state of the stack shown on the dashboard.
pub struct Status {
    pub php_fpm: bool,
    pub php_version: String,
    pub web_server: String,
    pub web_running: bool,
    pub mariadb: bool,
    pub http_port: u16,
}

/// The status from the settings and what the probes found.
pub fn status(state: &State, php_fpm_alive: bool, web_running: bool, mariadb_running: bool) -> (r: Status)
    ensures
        r.php_fpm == php_fpm_alive,
        r.php_version@ == state.active_php@,
        r.web_server@ == state.web_server@,
        r.web_running == web_running,
        r.mariadb == mariadb_running,
        r.http_port == state.http_port,
{
    Status {
        php_fpm: php_fpm_alive,
        php_version: state.active_php.clone(),
        web_server: state.web_server.clone(),
        web_running,
        mariadb: mariadb_running,
        http_port: state.http_port,
    }
}

// ---------------------------------------------------------------------------
// php-fpm
// ---------------------------------------------------------------------------

/// The pid file of php-fpm, `~/.chowk/run/php-fpm.pid`.
pub fn php_fpm_pid_file(home: &str) -> (r: String)
    ensures
        r@ == join(spec_run_dir(home@), "php-fpm.pid"@),
{
    join_path(run_dir(home).as_str(), "php-fpm.pid")
}

/// Where the php-fpm configuration is written, `~/.chowk/etc/php-fpm.conf`.
pub fn php_fpm_conf_path(home: &str) -> (r: String)
    ensures
        r@ == join(spec_etc_dir(home@), "php-fpm.conf"@),
{
    join_path(etc_dir(home).as_str(), "php-fpm.conf")
}

/// The self-contained php-fpm configuration: one pool on the shared socket.
pub open spec fn spec_php_fpm_conf(home: Seq<char>, user: Seq<char>) -> Seq<char> {
    "[global]\npid = "@ + spec_run_dir(home) + "/php-fpm.pid\nerror_log = "@ + spec_logs_dir(home)
        + "/php-fpm.log\ndaemonize = yes\n\n[www]\nuser = "@ + user
        + "\ngroup = staff\nlisten = "@ + spec_php_sock(home) + "\nlisten.owner = "@ + user
        + "\nlisten.group = staff\nlisten.mode = 0660\npm = dynamic\npm.max_children = 10\npm.start_servers = 2\npm.min_spare_servers = 1\npm.max_spare_servers = 3\npm.max_requests = 500\n"@
}

/// The php-fpm configuration text (see `spec_php_fpm_conf`).
pub fn php_fpm_conf(home: &str, user: &str) -> (r: String)
    ensures
        r@ == spec_php_fpm_conf(home@, user@),
{
    let mut r = "[global]\npid = ".to_owned();
    r.append(run_dir(home).as_str());
    r.append("/php-fpm.pid\nerror_log = ");
    r.append(logs_dir(home).as_str());
    r.append("/php-fpm.log\ndaemonize = yes\n\n[www]\nuser = ");
    r.append(user);
    r.append("\ngroup = staff\nlisten = ");
    r.append(php_sock(home).as_str());
    r.append("\nlisten.owner = ");
    r.append(user);
    r.append(
        "\nlisten.group = staff\nlisten.mode = 0660\npm = dynamic\npm.max_children = 10\npm.start_servers = 2\npm.min_spare_servers = 1\npm.max_spare_servers = 3\npm.max_requests = 500\n",
    );
    r
}

/// The message of a version that is not installed.
pub open spec fn not_installed_message(version: Seq<char>) -> Seq<char> {
    "php@"@ + version + " not installed"@
}

/// Restarting php-fpm for `version`: the command that starts it with Tusk's
/// configuration (`-y`) and the version's `php.ini` directory (`-c`), and the
/// message on success; an error when the version is not installed.
pub fn restart_php_fpm(version: &str, installed: bool, prefix: &str, conf: &str) -> (r: Result<
    (Command, String),
    String,
>)
    ensures
        !installed ==> (r matches Err(e) && e@ == not_installed_message(version@)),
        installed ==> (r matches Ok((c, m)) && is_command(
            c,
            spec_php_fpm_bin(prefix@, version@),
            seq!["-y"@, conf@, "-c"@, spec_php_ini_dir(prefix@, version@)],
        ) && m@ == "php-fpm running (php@"@ + version@ + ")"@),
{
    if !installed {
        return Err(cat3("php@", version, " not installed"));
    }
    let args = vec!["-y".to_owned(), conf.to_owned(), "-c".to_owned(), php_ini_dir(prefix, version)];
    let c = command(php_fpm_bin(prefix, version).as_str(), args);
    assert(string_views(c.args@) =~= seq!["-y"@, conf@, "-c"@, spec_php_ini_dir(prefix@, version@)]);
    Ok((c, cat3("php-fpm running (php@", version, ")")))
}

/// Stopping php-fpm: `kill` with what its pid file holds, trimmed.
pub fn stop_php_fpm_command(pid_file_contents: &str) -> (r: Command)
    ensures
        is_command(r, "kill"@, seq![crate::text::trim(pid_file_contents@)]),
{
    let args = vec![crate::text::trimmed(pid_file_contents)];
    let c = command("kill", args);
    assert(string_views(c.args@) =~= seq![crate::text::trim(pid_file_contents@)]);
    c
}

// ---------------------------------------------------------------------------
// MariaDB (user-level via brew services, no sudo)
// ---------------------------------------------------------------------------

/// Whether `brew services list` reports MariaDB started.
pub fn mariadb_running(output: &Result<String, String>) -> (r: bool)
    ensures
        r == super::spec_service_running("mariadb"@, *output),
{
    super::brew_service_running("mariadb", output)
}

/// `brew services <action> <name>`.
pub fn brew_service_command(prefix: &str, action: &str, name: &str) -> (r: Command)
    ensures
        is_command(r, prefix@ + "/bin/brew"@, seq!["services"@, action@, name@]),
{
    let args = vec!["services".to_owned(), action.to_owned(), name.to_owned()];
    let c = command(brew_bin(prefix).as_str(), args);
    assert(string_views(c.args@) =~= seq!["services"@, action@, name@]);
    c
}

/// Starts MariaDB as a brew service.
pub fn start_mariadb(prefix: &str) -> (r: Command)
    ensures
        is_command(r, prefix@ + "/bin/brew"@, seq!["services"@, "start"@, "mariadb"@]),
{
    brew_service_command(prefix, "start", "mariadb")
}

/// Stops the MariaDB brew service.
pub fn stop_mariadb(prefix: &str) -> (r: Command)
    ensures
        is_command(r, prefix@ + "/bin/brew"@, seq!["services"@, "stop"@, "mariadb"@]),
{
    brew_service_command(prefix, "stop", "mariadb")
}

// ---------------------------------------------------------------------------
// Web server: nginx / apache
// ---------------------------------------------------------------------------

pub open spec fn spec_nginx_conf_path(home: Seq<char>) -> Seq<char> {
    join(spec_etc_dir(home), "nginx.conf"@)
}

pub open spec fn spec_httpd_conf_path(home: Seq<char>) -> Seq<char> {
    join(spec_etc_dir(home), "httpd.conf"@)
}

/// Nginx's configuration, `~/.chowk/etc/nginx.conf`.
pub fn nginx_conf_path(home: &str) -> (r: String)
    ensures
        r@ == spec_nginx_conf_path(home@),
{
    join_path(etc_dir(home).as_str(), "nginx.conf")
}

/// Apache's configuration, `~/.chowk/etc/httpd.conf`.
pub fn httpd_conf_path(home: &str) -> (r: String)
    ensures
        r@ == spec_httpd_conf_path(home@),
{
    join_path(etc_dir(home).as_str(), "httpd.conf")
}

/// How to tell whether a web server runs: its pid file names a live process,
/// or a live process matches `pgrep -f <binary>.*<our config path>` (so it
/// still works when the pid file was lost).
pub struct WebProbe {
    pub pid_file: String,
    pub pgrep: Command,
}

/// The probe for `server` ("apache" means httpd; anything else nginx).
pub fn web_running(server: &str, home: &str) -> (r: WebProbe)
    ensures
        server@ == "apache"@ ==> r.pid_file@ == join(spec_run_dir(home@), "httpd.pid"@) && is_command(
            r.pgrep,
            "pgrep"@,
            seq!["-f"@, "httpd"@ + ".*"@ + spec_httpd_conf_path(home@)],
        ),
        server@ != "apache"@ ==> r.pid_file@ == join(spec_run_dir(home@), "nginx.pid"@) && is_command(
            r.pgrep,
            "pgrep"@,
            seq!["-f"@, "nginx"@ + ".*"@ + spec_nginx_conf_path(home@)],
        ),
{
    if crate::text::str_eq(server, "apache") {
        let pattern = cat3("httpd", ".*", httpd_conf_path(home).as_str());
        let c = command("pgrep", vec!["-f".to_owned(), pattern]);
        assert(string_views(c.args@) =~= seq!["-f"@, "httpd"@ + ".*"@ + spec_httpd_conf_path(home@)]);
        WebProbe { pid_file: join_path(run_dir(home).as_str(), "httpd.pid"), pgrep: c }
    } else {
        let pattern = cat3("nginx", ".*", nginx_conf_path(home).as_str());
        let c = command("pgrep", vec!["-f".to_owned(), pattern]);
        assert(string_views(c.args@) =~= seq!["-f"@, "nginx"@ + ".*"@ + spec_nginx_conf_path(home@)]);
        WebProbe { pid_file: join_path(run_dir(home).as_str(), "nginx.pid"), pgrep: c }
    }
}

/// The line that pins Nginx workers to the real user on a privileged port
/// (they would otherwise drop to `nobody`, which cannot enter the user's home).
pub open spec fn nginx_user_line(port: u16, user: Seq<char>) -> Seq<char> {
    if port < 1024 {
        "user "@ + user + " staff;\n"@
    } else {
        seq![]
    }
}

/// The main Nginx configuration: the dashboard as default server, and the
/// per-site files under `~/.chowk/etc/nginx-sites`.
pub open spec fn spec_nginx_conf(home: Seq<char>, prefix: Seq<char>, port: u16, user: Seq<char>) -> Seq<
    char,
> {
    nginx_user_line(port, user) + "worker_processes auto;\npid "@ + spec_run_dir(home)
        + "/nginx.pid;\nerror_log "@ + spec_logs_dir(home)
        + "/nginx-error.log;\nevents { worker_connections 1024; }\nhttp {\n  include "@ + prefix
        + "/etc/nginx/mime.types;\n  default_type application/octet-stream;\n  sendfile on;\n  keepalive_timeout 65;\n  client_max_body_size 128M;\n  access_log "@
        + spec_logs_dir(home) + "/nginx-access.log;\n  include "@ + spec_etc_dir(home)
        + "/nginx-sites/*.conf;\n  server {\n    listen "@ + decimal(port as nat)
        + " default_server;\n    server_name localhost;\n    root "@ + spec_apps_dir(home)
        + "/dashboard;\n    index index.html index.php;\n    location / { try_files $uri $uri/ =404; }\n    location ~ \\.php$ { fastcgi_pass unix:"@
        + spec_php_sock(home) + "; include "@ + prefix
        + "/etc/nginx/fastcgi_params; fastcgi_param SCRIPT_FILENAME $document_root$fastcgi_script_name; }\n  }\n}\n"@
}

/// The main Nginx configuration text (see `spec_nginx_conf`).
pub fn nginx_conf(home: &str, prefix: &str, port: u16, user: &str) -> (r: String)
    ensures
        r@ == spec_nginx_conf(home@, prefix@, port, user@),
{
    let mut r = String::new();
    if port < 1024 {
        r.append("user ");
        r.append(user);
        r.append(" staff;\n");
    }
    let logs = logs_dir(home);
    r.append("worker_processes auto;\npid ");
    r.append(run_dir(home).as_str());
    r.append("/nginx.pid;\nerror_log ");
    r.append(logs.as_str());
    r.append("/nginx-error.log;\nevents { worker_connections 1024; }\nhttp {\n  include ");
    r.append(prefix);
    r.append(
        "/etc/nginx/mime.types;\n  default_type application/octet-stream;\n  sendfile on;\n  keepalive_timeout 65;\n  client_max_body_size 128M;\n  access_log ",
    );
    r.append(logs.as_str());
    r.append("/nginx-access.log;\n  include ");
    r.append(etc_dir(home).as_str());
    r.append("/nginx-sites/*.conf;\n  server {\n    listen ");
    r.append(decimal_string(port as u64).as_str());
    r.append(" default_server;\n    server_name localhost;\n    root ");
    r.append(apps_dir(home).as_str());
    r.append(
        "/dashboard;\n    index index.html index.php;\n    location / { try_files $uri $uri/ =404; }\n    location ~ \\.php$ { fastcgi_pass unix:",
    );
    r.append(php_sock(home).as_str());
    r.append("; include ");
    r.append(prefix);
    r.append(
        "/etc/nginx/fastcgi_params; fastcgi_param SCRIPT_FILENAME $document_root$fastcgi_script_name; }\n  }\n}\n",
    );
    assert(r@ =~= spec_nginx_conf(home@, prefix@, port, user@));
    r
}

/// The Apache modules Tusk loads, relative to Homebrew's httpd.
pub open spec fn apache_modules() -> Seq<Seq<char>> {
    seq![
        "mpm_event_module lib/httpd/modules/mod_mpm_event.so"@,
        "authz_core_module lib/httpd/modules/mod_authz_core.so"@,
        "authz_host_module lib/httpd/modules/mod_authz_host.so"@,
        "dir_module lib/httpd/modules/mod_dir.so"@,
        "mime_module lib/httpd/modules/mod_mime.so"@,
        "log_config_module lib/httpd/modules/mod_log_config.so"@,
        "unixd_module lib/httpd/modules/mod_unixd.so"@,
        "proxy_module lib/httpd/modules/mod_proxy.so"@,
        "proxy_fcgi_module lib/httpd/modules/mod_proxy_fcgi.so"@,
        "rewrite_module lib/httpd/modules/mod_rewrite.so"@,
        "headers_module lib/httpd/modules/mod_headers.so"@,
    ]
}

/// One `LoadModule` line per module, in order.
pub open spec fn load_lines(mods: Seq<Seq<char>>) -> Seq<char>
    decreases mods.len(),
{
    if mods.len() == 0 {
        seq![]
    } else {
        load_lines(mods.drop_last()) + "LoadModule "@ + mods.last() + "\n"@
    }
}

/// Apache runs as the real user only when it starts as root (privileged port).
pub open spec fn apache_user_lines(port: u16, user: Seq<char>) -> Seq<char> {
    if port < 1024 {
        "User "@ + user + "\nGroup staff\n"@
    } else {
        seq![]
    }
}

/// The main Apache configuration: the dashboard as document root, PHP through
/// php-fpm's socket, and the per-site files under `~/.chowk/etc/apache-sites`.
pub open spec fn spec_apache_conf(home: Seq<char>, prefix: Seq<char>, port: u16, user: Seq<char>) -> Seq<
    char,
> {
    "ServerRoot \""@ + prefix + "/opt/httpd\"\nListen "@ + decimal(port as nat) + "\n"@ + load_lines(
        apache_modules(),
    ) + "ServerName localhost\nPidFile \""@ + spec_run_dir(home) + "/httpd.pid\"\nErrorLog \""@
        + spec_logs_dir(home) + "/apache-error.log\"\n"@ + apache_user_lines(port, user)
        + "DocumentRoot \""@ + spec_apps_dir(home)
        + "/dashboard\"\nDirectoryIndex index.php index.html\n<Directory />\n  AllowOverride none\n  Require all denied\n</Directory>\n<Directory \""@
        + spec_apps_dir(home)
        + "\">\n  AllowOverride All\n  Require all granted\n</Directory>\n<Directory \""@ + home
        + "/Sites\">\n  AllowOverride All\n  Require all granted\n</Directory>\n<FilesMatch \\.php$>\n  SetHandler \"proxy:unix:"@
        + spec_php_sock(home) + "|fcgi://localhost/\"\n</FilesMatch>\nIncludeOptional "@
        + spec_etc_dir(home) + "/apache-sites/*.conf\n"@
}

/// The main Apache configuration text (see `spec_apache_conf`).
pub fn apache_conf(home: &str, prefix: &str, port: u16, user: &str) -> (r: String)
    ensures
        r@ == spec_apache_conf(home@, prefix@, port, user@),
{
    let modules = vec![
        "mpm_event_module lib/httpd/modules/mod_mpm_event.so",
        "authz_core_module lib/httpd/modules/mod_authz_core.so",
        "authz_host_module lib/httpd/modules/mod_authz_host.so",
        "dir_module lib/httpd/modules/mod_dir.so",
        "mime_module lib/httpd/modules/mod_mime.so",
        "log_config_module lib/httpd/modules/mod_log_config.so",
        "unixd_module lib/httpd/modules/mod_unixd.so",
        "proxy_module lib/httpd/modules/mod_proxy.so",
        "proxy_fcgi_module lib/httpd/modules/mod_proxy_fcgi.so",
        "rewrite_module lib/httpd/modules/mod_rewrite.so",
        "headers_module lib/httpd/modules/mod_headers.so",
    ];
    let ghost mods = modules@.map_values(|m: &str| m@);
    assert(mods =~= apache_modules());
    let mut r = "ServerRoot \"".to_owned();
    r.append(prefix);
    r.append("/opt/httpd\"\nListen ");
    r.append(decimal_string(port as u64).as_str());
    r.append("\n");
    let ghost head = r@;
    let mut i: usize = 0;
    assert(mods.take(0) =~= Seq::<Seq<char>>::empty());
    assert(r@ =~= head + load_lines(mods.take(0)));
    while i < modules.len()
        invariant
            0 <= i <= modules.len(),
            mods == modules@.map_values(|m: &str| m@),
            r@ == head + load_lines(mods.take(i as int)),
        decreases modules.len() - i,
    {
        assert(mods.take(i + 1).drop_last() =~= mods.take(i as int));
        assert(mods[i as int] == modules@[i as int]@);
        r.append("LoadModule ");
        r.append(modules[i]);
        r.append("\n");
        i = i + 1;
    }
    assert(mods.take(modules.len() as int) =~= mods);
    r.append("ServerName localhost\nPidFile \"");
    r.append(run_dir(home).as_str());
    r.append("/httpd.pid\"\nErrorLog \"");
    r.append(logs_dir(home).as_str());
    r.append("/apache-error.log\"\n");
    if port < 1024 {
        r.append("User ");
        r.append(user);
        r.append("\nGroup staff\n");
    }
    let apps = apps_dir(home);
    r.append("DocumentRoot \"");
    r.append(apps.as_str());
    r.append(
        "/dashboard\"\nDirectoryIndex index.php index.html\n<Directory />\n  AllowOverride none\n  Require all denied\n</Directory>\n<Directory \"",
    );
    r.append(apps.as_str());
    r.append("\">\n  AllowOverride All\n  Require all granted\n</Directory>\n<Directory \"");
    r.append(home);
    r.append(
        "/Sites\">\n  AllowOverride All\n  Require all granted\n</Directory>\n<FilesMatch \\.php$>\n  SetHandler \"proxy:unix:",
    );
    r.append(php_sock(home).as_str());
    r.append("|fcgi://localhost/\"\n</FilesMatch>\nIncludeOptional ");
    r.append(etc_dir(home).as_str());
    r.append("/apache-sites/*.conf\n");
    assert(r@ =~= spec_apache_conf(home@, prefix@, port, user@));
    r
}

/// How a shell command line is run: behind the administrator prompt, or as
/// `sh -c <script>`.
pub enum Launch {
    Privileged(String),
    Shell(Command),
}

/// `l` runs `script`, privileged exactly when `port` is below 1024.
pub open spec fn is_launch(l: Launch, script: Seq<char>, port: u16) -> bool {
    match l {
        Launch::Privileged(s) => port < 1024 && s@ == script,
        Launch::Shell(c) => port >= 1024 && is_command(c, "sh"@, seq!["-c"@, script]),
    }
}

/// Runs `script` with the privileges that binding `port` needs.
pub fn launch_for(script: String, port: u16) -> (l: Launch)
    ensures
        is_launch(l, script@, port),
{
    if port < 1024 {
        Launch::Privileged(script)
    } else {
        let c = command("sh", vec!["-c".to_owned(), script]);
        assert(string_views(c.args@) =~= seq!["-c"@, script@]);
        Launch::Shell(c)
    }
}

/// Starting the web server: the configuration to write where, the syntax
/// check to run, how to launch it, and the message on success.
pub struct WebStart {
    pub conf_path: String,
    pub conf: String,
    pub check: Command,
    pub launch: Launch,
    pub message: String,
}

/// The command line that clears any running Nginx and Apache of Tusk's, then
/// starts one with `start_cmd`.
pub open spec fn clean_start_script(home: Seq<char>, start_cmd: Seq<char>) -> Seq<char> {
    "pkill -f 'nginx.*"@ + spec_nginx_conf_path(home) + "' 2>/dev/null; pkill -f 'httpd.*"@
        + spec_httpd_conf_path(home) + "' 2>/dev/null; sleep 1; "@ + start_cmd
}

/// Starting the selected web server on a clean slate (see `WebStart`): Apache
/// when the settings say so, which must be installed; Nginx otherwise. One
/// launch stops both servers first, so switching servers or starting twice
/// never leaves duplicates or a conflict on the port.
pub open spec fn spec_start_web(
    state: State,
    home: Seq<char>,
    prefix: Seq<char>,
    user: Seq<char>,
    httpd_installed: bool,
    r: Result<WebStart, String>,
) -> bool {
    let port = state.http_port;
    if state.web_server@ == "apache"@ {
        if !httpd_installed {
            r matches Err(e) && e@ == "Apache (httpd) not installed. Install it from the Services tab."@
        } else {
            r matches Ok(w) && w.conf_path@ == spec_httpd_conf_path(home) && w.conf@ == spec_apache_conf(
                home,
                prefix,
                port,
                user,
            ) && is_command(
                w.check,
                prefix + "/bin/httpd"@,
                seq!["-f"@, spec_httpd_conf_path(home), "-t"@],
            ) && is_launch(
                w.launch,
                clean_start_script(
                    home,
                    prefix + "/bin/httpd -f "@ + spec_httpd_conf_path(home) + " -k start"@,
                ),
                port,
            ) && w.message@ == state.web_server@ + " started"@
        }
    } else {
        r matches Ok(w) && w.conf_path@ == spec_nginx_conf_path(home) && w.conf@ == spec_nginx_conf(
            home,
            prefix,
            port,
            user,
        ) && is_command(w.check, prefix + "/bin/nginx"@, seq!["-t"@, "-c"@, spec_nginx_conf_path(home)])
            && is_launch(
            w.launch,
            clean_start_script(home, prefix + "/bin/nginx -c "@ + spec_nginx_conf_path(home)),
            port,
        ) && w.message@ == state.web_server@ + " started"@
    }
}

/// What starting the web server does (see `spec_start_web`).
pub fn start_web(state: &State, home: &str, prefix: &str, user: &str, httpd_installed: bool) -> (r:
    Result<WebStart, String>)
    ensures
        spec_start_web(*state, home@, prefix@, user@, httpd_installed, r),
{
    let nconf = nginx_conf_path(home);
    let hconf = httpd_conf_path(home);
    let port = state.http_port;
    let message = cat(state.web_server.as_str(), " started");
    if state.uses_apache() {
        if !httpd_installed {
            return Err("Apache (httpd) not installed. Install it from the Services tab.".to_owned());
        }
        let check = command(
            cat(prefix, "/bin/httpd").as_str(),
            vec!["-f".to_owned(), hconf.clone(), "-t".to_owned()],
        );
        assert(string_views(check.args@) =~= seq!["-f"@, hconf@, "-t"@]);
        let mut start_cmd = cat(prefix, "/bin/httpd -f ");
        start_cmd.append(hconf.as_str());
        start_cmd.append(" -k start");
        let mut script = cat3("pkill -f 'nginx.*", nconf.as_str(), "' 2>/dev/null; pkill -f 'httpd.*");
        script.append(hconf.as_str());
        script.append("' 2>/dev/null; sleep 1; ");
        script.append(start_cmd.as_str());
        let launch = launch_for(script, port);
        Ok(WebStart { conf_path: hconf, conf: apache_conf(home, prefix, port, user), check, launch, message })
    } else {
        let check = command(
            cat(prefix, "/bin/nginx").as_str(),
            vec!["-t".to_owned(), "-c".to_owned(), nconf.clone()],
        );
        assert(string_views(check.args@) =~= seq!["-t"@, "-c"@, nconf@]);
        let start_cmd = cat3(prefix, "/bin/nginx -c ", nconf.as_str());
        let mut script = cat3("pkill -f 'nginx.*", nconf.as_str(), "' 2>/dev/null; pkill -f 'httpd.*");
        script.append(hconf.as_str());
        script.append("' 2>/dev/null; sleep 1; ");
        script.append(start_cmd.as_str());
        let launch = launch_for(script, port);
        Ok(WebStart { conf_path: nconf, conf: nginx_conf(home, prefix, port, user), check, launch, message })
    }
}

/// Stopping both web servers: how to launch the stop (a privileged launch
/// must succeed; a plain one is best-effort), the pid files to clear, and the
/// message.
pub struct WebStop {
    pub launch: Launch,
    pub pid_files: Vec<String>,
    pub message: String,
}

/// The command line that stops whichever of Tusk's web servers runs.
pub open spec fn spec_stop_script(home: Seq<char>, prefix: Seq<char>) -> Seq<char> {
    prefix + "/bin/nginx -c "@ + spec_nginx_conf_path(home) + " -s stop 2>/dev/null; pkill -f 'nginx.*"@
        + spec_nginx_conf_path(home) + "' 2>/dev/null; pkill -f 'httpd.*"@ + spec_httpd_conf_path(home)
        + "' 2>/dev/null; true"@
}

/// Stopping BOTH web servers (whichever runs) and clearing their pid files.
pub fn stop_web(state: &State, home: &str, prefix: &str) -> (r: WebStop)
    ensures
        is_launch(r.launch, spec_stop_script(home@, prefix@), state.http_port),
        string_views(r.pid_files@) == seq![
            join(spec_run_dir(home@), "nginx.pid"@),
            join(spec_run_dir(home@), "httpd.pid"@),
        ],
        r.message@ == "web server stopped"@,
{
    let nconf = nginx_conf_path(home);
    let hconf = httpd_conf_path(home);
    let mut script = cat3(prefix, "/bin/nginx -c ", nconf.as_str());
    script.append(" -s stop 2>/dev/null; pkill -f 'nginx.*");
    script.append(nconf.as_str());
    script.append("' 2>/dev/null; pkill -f 'httpd.*");
    script.append(hconf.as_str());
    script.append("' 2>/dev/null; true");
    let run = run_dir(home);
    let pid_files = vec![join_path(run.as_str(), "nginx.pid"), join_path(run.as_str(), "httpd.pid")];
    assert(string_views(pid_files@) =~= seq![
        join(spec_run_dir(home@), "nginx.pid"@),
        join(spec_run_dir(home@), "httpd.pid"@),
    ]);
    WebStop { launch: launch_for(script, state.http_port), pid_files, message: "web server stopped".to_owned() }
}

/// After the stop was launched with outcome `outcome`: the pid files to clear
/// and what the stop answers. A failed privileged stop (the administrator
/// prompt refused or the script failed) ends the stop with its error and keeps
/// the pid files; a plain stop is best-effort, so its outcome is ignored.
pub fn stop_web_outcome(plan: &WebStop, outcome: &Result<String, String>) -> (r: (Vec<String>, Result<String, String>))
    ensures
        (plan.launch is Privileged && outcome is Err) ==> r.0@.len() == 0 && r.1 == Err::<String, String>(
            outcome->Err_0,
        ),
        !(plan.launch is Privileged && outcome is Err) ==> r.0@ == plan.pid_files@ && r.1 == Ok::<String, String>(
            plan.message,
        ),
{
    match (&plan.launch, outcome) {
        (Launch::Privileged(_), Err(e)) => (Vec::new(), Err(e.clone())),
        _ => {
            let mut files: Vec<String> = Vec::new();
            let mut i: usize = 0;
            while i < plan.pid_files.len()
                invariant
                    0 <= i <= plan.pid_files.len(),
                    files@ == plan.pid_files@.take(i as int),
                decreases plan.pid_files.len() - i,
            {
                let f = plan.pid_files[i].clone();
                files.push(f);
                assert(files@ =~= plan.pid_files@.take(i + 1));
                i = i + 1;
            }
            assert(files@ =~= plan.pid_files@);
            (files, Ok(plan.message.clone()))
        },
    }
}

// ---------------------------------------------------------------------------
// Per-service model (for the compact service list in the UI)
// ---------------------------------------------------------------------------

/// One row of the dashboard's service list.
pub struct Service {
    /// Stable id: php | web | mariadb | redis | mailpit.
    pub key: String,
    /// Display name.
    pub label: String,
    /// Installed version, if known.
    pub version: String,
    pub installed: bool,
    pub running: bool,
    /// Shown next to the row.
    pub port: String,
}

/// The version Homebrew reports for `formula`, or nothing.
pub open spec fn version_in(vers: Map<Seq<char>, Seq<char>>, formula: Seq<char>) -> Seq<char> {
    if vers.contains_key(formula) {
        vers[formula]
    } else {
        seq![]
    }
}

/// `s` is the row `key`/`label` for the Homebrew `formula`.
pub open spec fn is_service_row(
    s: Service,
    key: Seq<char>,
    label: Seq<char>,
    formula: Seq<char>,
    vers: Map<Seq<char>, Seq<char>>,
    running: bool,
    port: Seq<char>,
) -> bool {
    &&& s.key@ == key
    &&& s.label@ == label
    &&& s.version@ == version_in(vers, formula)
    &&& s.installed == vers.contains_key(formula)
    &&& s.running == running
    &&& s.port@ == port
}

/// The formula of the configured web server.
pub open spec fn web_formula(state: State) -> Seq<char> {
    if state.web_server@ == "apache"@ {
        "httpd"@
    } else {
        "nginx"@
    }
}

/// The dashboard rows: the web server, PHP, MariaDB, Redis and Mailpit, in
/// that order, each independently toggleable.
pub open spec fn spec_list_services(
    state: State,
    vers: Map<Seq<char>, Seq<char>>,
    started: Set<Seq<char>>,
    web_running: bool,
    php_fpm_alive: bool,
    r: Seq<Service>,
) -> bool {
    &&& r.len() == 5
    &&& is_service_row(
        r[0],
        "web"@,
        if state.web_server@ == "apache"@ { "Apache"@ } else { "Nginx"@ },
        web_formula(state),
        vers,
        web_running,
        decimal(state.http_port as nat),
    )
    &&& is_service_row(
        r[1],
        "php"@,
        "PHP "@ + state.active_php@,
        "php@"@ + state.active_php@,
        vers,
        php_fpm_alive,
        "fpm"@,
    )
    &&& is_service_row(
        r[2],
        "mariadb"@,
        "MySQL (MariaDB)"@,
        "mariadb"@,
        vers,
        started.contains("mariadb"@),
        "3306"@,
    )
    &&& is_service_row(r[3], "redis"@, "Redis"@, "redis"@, vers, started.contains("redis"@), "6379"@)
    &&& is_service_row(
        r[4],
        "mailpit"@,
        "Mailpit"@,
        "mailpit"@,
        vers,
        started.contains("mailpit"@),
        "8025"@,
    )
}

fn service_row(
    key: &str,
    label: String,
    formula: &str,
    vers: &FormulaVersions,
    running: bool,
    port: String,
) -> (s: Service)
    ensures
        is_service_row(s, key@, label@, formula@, vers@, running, port@),
{
    Service {
        key: key.to_owned(),
        label,
        version: vers.version(formula),
        installed: vers.installed(formula),
        running,
        port,
    }
}

/// The list of services shown in the dashboard, from ONE snapshot of
/// `brew list --versions` and ONE of `brew services list` (see
/// `spec_list_services`).
pub fn list_services(
    state: &State,
    vers: &FormulaVersions,
    started: &ServiceSet,
    web_running: bool,
    php_fpm_alive: bool,
) -> (r: Vec<Service>)
    ensures
        spec_list_services(*state, vers@, started@, web_running, php_fpm_alive, r@),
{
    let apache = state.uses_apache();
    let web_formula = if apache { "httpd" } else { "nginx" };
    let web_label = if apache { "Apache".to_owned() } else { "Nginx".to_owned() };
    let php_formula = cat("php@", state.active_php.as_str());
    let web = service_row(
        "web",
        web_label,
        web_formula,
        vers,
        web_running,
        decimal_string(state.http_port as u64),
    );
    let php = service_row(
        "php",
        cat("PHP ", state.active_php.as_str()),
        php_formula.as_str(),
        vers,
        php_fpm_alive,
        "fpm".to_owned(),
    );
    let mariadb = service_row(
        "mariadb",
        "MySQL (MariaDB)".to_owned(),
        "mariadb",
        vers,
        started.contains("mariadb"),
        "3306".to_owned(),
    );
    let redis = service_row(
        "redis",
        "Redis".to_owned(),
        "redis",
        vers,
        started.contains("redis"),
        "6379".to_owned(),
    );
    let mailpit = service_row(
        "mailpit",
        "Mailpit".to_owned(),
        "mailpit",
        vers,
        started.contains("mailpit"),
        "8025".to_owned(),
    );
    vec![web, php, mariadb, redis, mailpit]
}

/// One thing that starting or stopping a single service does.
pub enum ServiceAction {
    /// Restart php-fpm with this PHP version.
    RestartPhpFpm(String),
    /// Stop php-fpm (never fails).
    StopPhpFpm,
    /// Start the configured web server (see `start_web`).
    StartWeb,
    /// Stop both web servers (see `stop_web`).
    StopWeb,
    /// Run this command (a brew service start or stop).
    Run(Command),
}

/// `a` restarts php-fpm with `version`.
pub open spec fn is_restart_php_fpm(a: ServiceAction, version: Seq<char>) -> bool {
    a matches ServiceAction::RestartPhpFpm(v) && v@ == version
}

/// `a` runs `brew services <action> <name>`.
pub open spec fn is_brew_service(a: ServiceAction, prefix: Seq<char>, action: Seq<char>, name: Seq<char>) -> bool {
    a matches ServiceAction::Run(c) && is_command(c, prefix + "/bin/brew"@, seq!["services"@, action, name])
}

/// "start" or "stop".
pub open spec fn start_or_stop(on: bool) -> Seq<char> {
    if on {
        "start"@
    } else {
        "stop"@
    }
}

/// Starting (`on`) or stopping one service by key: php, web, mariadb, redis
/// or mailpit; the message on success; an error for any other key.
pub open spec fn spec_set_service(
    key: Seq<char>,
    on: bool,
    state: State,
    prefix: Seq<char>,
    r: Result<(ServiceAction, String), String>,
) -> bool {
    let known = key == "php"@ || key == "web"@ || key == "mariadb"@ || key == "redis"@ || key == "mailpit"@;
    &&& !known ==> (r matches Err(e) && e@ == "unknown service: "@ + key)
    &&& known ==> (r matches Ok((a, m)) && m@ == key + (if on {
        " started"@
    } else {
        " stopped"@
    }) && (key == "php"@ ==> (if on {
        is_restart_php_fpm(a, state.active_php@)
    } else {
        a is StopPhpFpm
    })) && (key == "web"@ ==> (if on {
        a is StartWeb
    } else {
        a is StopWeb
    })) && (key != "php"@ && key != "web"@ ==> is_brew_service(a, prefix, start_or_stop(on), key)))
}

/// Start or stop a single service by key (see `spec_set_service`).
pub fn set_service(key: &str, on: bool, state: &State, prefix: &str) -> (r: Result<(ServiceAction, String), String>)
    ensures
        spec_set_service(key@, on, *state, prefix@, r),
{
    proof {
        reveal_strlit("php");
        reveal_strlit("web");
        assert("web"@ != "php"@) by {
            assert("web"@[0] != "php"@[0]);
        }
    }
    let action = if crate::text::str_eq(key, "php") {
        if on {
            ServiceAction::RestartPhpFpm(state.active_php.clone())
        } else {
            ServiceAction::StopPhpFpm
        }
    } else if crate::text::str_eq(key, "web") {
        if on {
            ServiceAction::StartWeb
        } else {
            ServiceAction::StopWeb
        }
    } else if crate::text::str_eq(key, "mariadb") || crate::text::str_eq(key, "redis")
        || crate::text::str_eq(key, "mailpit") {
        if on {
            ServiceAction::Run(brew_service_command(prefix, "start", key))
        } else {
            ServiceAction::Run(brew_service_command(prefix, "stop", key))
        }
    } else {
        return Err(cat("unknown service: ", key));
    };
    let message = if on {
        cat(key, " started")
    } else {
        cat(key, " stopped")
    };
    Ok((action, message))
}

// ---------------------------------------------------------------------------
// Combined lifecycle
// ---------------------------------------------------------------------------

/// Where the dashboard page lives, `~/.chowk/apps/dashboard/index.html`.
pub fn dashboard_index(home: &str) -> (r: String)
    ensures
        r@ == join(join(spec_apps_dir(home@), "dashboard"@), "index.html"@),
{
    join_path(join_path(apps_dir(home).as_str(), "dashboard").as_str(), "index.html")
}

/// The placeholder dashboard page, written only when none exists.
pub fn dashboard_html() -> (r: &'static str)
    ensures
        r@ == "<!doctype html><meta charset=utf-8><title>Tusk</title><body style=\"font-family:-apple-system,sans-serif;background:#0f1115;color:#e6e6e6;display:grid;place-items:center;height:100vh;margin:0\"><div style=text-align:center><h1> \u{b7} Tusk</h1><p>Your local dev environment is running.</p></div>"@,
{
    "<!doctype html><meta charset=utf-8><title>Tusk</title><body style=\"font-family:-apple-system,sans-serif;background:#0f1115;color:#e6e6e6;display:grid;place-items:center;height:100vh;margin:0\"><div style=text-align:center><h1> \u{b7} Tusk</h1><p>Your local dev environment is running.</p></div>"
}

/// One step of starting or stopping everything: what it does, and whether
/// its failure ends the whole operation (otherwise it is best-effort).
pub struct Step {
    pub action: ServiceAction,
    pub required: bool,
}

/// A sequence of steps and the message once they have all run.
pub struct Lifecycle {
    pub steps: Vec<Step>,
    pub message: String,
}

/// Starting everything: MariaDB (best-effort), php-fpm with the active
/// version, the web server, then Redis and Mailpit when installed
/// (best-effort).
pub open spec fn spec_start_all(
    state: State,
    prefix: Seq<char>,
    redis_installed: bool,
    mailpit_installed: bool,
    r: Lifecycle,
) -> bool {
    let n = 3 + (if redis_installed { 1int } else { 0 }) + (if mailpit_installed { 1int } else { 0 });
    &&& r.steps@.len() == n
    &&& is_brew_service(r.steps@[0].action, prefix, "start"@, "mariadb"@) && !r.steps@[0].required
    &&& is_restart_php_fpm(r.steps@[1].action, state.active_php@) && r.steps@[1].required
    &&& r.steps@[2].action is StartWeb && r.steps@[2].required
    &&& redis_installed ==> is_brew_service(r.steps@[3].action, prefix, "start"@, "redis"@)
        && !r.steps@[3].required
    &&& mailpit_installed ==> is_brew_service(r.steps@[n - 1].action, prefix, "start"@, "mailpit"@)
        && !r.steps@[n - 1].required
    &&& r.message@ == "All services started"@
}

/// Starting all services (see `spec_start_all`).
pub fn start_all(state: &State, prefix: &str, redis_installed: bool, mailpit_installed: bool) -> (r: Lifecycle)
    ensures
        spec_start_all(*state, prefix@, redis_installed, mailpit_installed, r),
{
    let mut steps: Vec<Step> = Vec::new();
    steps.push(Step { action: ServiceAction::Run(start_mariadb(prefix)), required: false });
    steps.push(Step { action: ServiceAction::RestartPhpFpm(state.active_php.clone()), required: true });
    steps.push(Step { action: ServiceAction::StartWeb, required: true });
    if redis_installed {
        steps.push(Step { action: ServiceAction::Run(brew_service_command(prefix, "start", "redis")), required: false });
    }
    if mailpit_installed {
        steps.push(Step { action: ServiceAction::Run(brew_service_command(prefix, "start", "mailpit")), required: false });
    }
    Lifecycle { steps, message: "All services started".to_owned() }
}

/// Stopping everything, each step best-effort: the web servers, php-fpm,
/// MariaDB, then Redis and Mailpit when installed.
pub open spec fn spec_stop_all(prefix: Seq<char>, redis_installed: bool, mailpit_installed: bool, r: Lifecycle) -> bool {
    let n = 3 + (if redis_installed { 1int } else { 0 }) + (if mailpit_installed { 1int } else { 0 });
    &&& r.steps@.len() == n
    &&& forall|i: int| 0 <= i < n ==> !(#[trigger] r.steps@[i]).required
    &&& r.steps@[0].action is StopWeb
    &&& r.steps@[1].action is StopPhpFpm
    &&& is_brew_service(r.steps@[2].action, prefix, "stop"@, "mariadb"@)
    &&& redis_installed ==> is_brew_service(r.steps@[3].action, prefix, "stop"@, "redis"@)
    &&& mailpit_installed ==> is_brew_service(r.steps@[n - 1].action, prefix, "stop"@, "mailpit"@)
    &&& r.message@ == "All services stopped"@
}

/// Stopping all services (see `spec_stop_all`).
pub fn stop_all(prefix: &str, redis_installed: bool, mailpit_installed: bool) -> (r: Lifecycle)
    ensures
        spec_stop_all(prefix@, redis_installed, mailpit_installed, r),
{
    let mut steps: Vec<Step> = Vec::new();
    steps.push(Step { action: ServiceAction::StopWeb, required: false });
    steps.push(Step { action: ServiceAction::StopPhpFpm, required: false });
    steps.push(Step { action: ServiceAction::Run(stop_mariadb(prefix)), required: false });
    if redis_installed {
        steps.push(Step { action: ServiceAction::Run(brew_service_command(prefix, "stop", "redis")), required: false });
    }
    if mailpit_installed {
        steps.push(Step { action: ServiceAction::Run(brew_service_command(prefix, "stop", "mailpit")), required: false });
    }
    Lifecycle { steps, message: "All services stopped".to_owned() }
}

/// Restarting everything: all of stopping (whose outcome is ignored), then
/// all of starting, whose outcome is the result.
pub fn restart_all(state: &State, prefix: &str, redis_installed: bool, mailpit_installed: bool) -> (r: (
    Lifecycle,
    Lifecycle,
))
    ensures
        spec_stop_all(prefix@, redis_installed, mailpit_installed, r.0),
        spec_start_all(*state, prefix@, redis_installed, mailpit_installed, r.1),
{
    (stop_all(prefix, redis_installed, mailpit_installed), start_all(state, prefix, redis_installed, mailpit_installed))
}

/// The base-stack formulae still missing: `php@<active>`, `mariadb` and
/// `nginx`, in that order, each only when not installed.
pub open spec fn spec_base_missing(
    active_php: Seq<char>,
    php_installed: bool,
    mariadb_installed: bool,
    nginx_installed: bool,
) -> Seq<Seq<char>> {
    (if php_installed { seq![] } else { seq!["php@"@ + active_php] }) + (if mariadb_installed {
        seq![]
    } else {
        seq!["mariadb"@]
    }) + (if nginx_installed {
        seq![]
    } else {
        seq!["nginx"@]
    })
}

/// Which base-stack formulae are still missing (see `spec_base_missing`).
/// Apache (httpd) is intentionally not part of the base: it is installed on
/// demand only when the user switches to it, so first-run stays small.
pub fn base_missing_formulae(
    active_php: &str,
    php_installed: bool,
    mariadb_installed: bool,
    nginx_installed: bool,
) -> (r: Vec<String>)
    ensures
        string_views(r@) == spec_base_missing(active_php@, php_installed, mariadb_installed, nginx_installed),
{
    let mut r: Vec<String> = Vec::new();
    if !php_installed {
        r.push(cat("php@", active_php));
    }
    if !mariadb_installed {
        r.push("mariadb".to_owned());
    }
    if !nginx_installed {
        r.push("nginx".to_owned());
    }
    assert(string_views(r@) =~= spec_base_missing(active_php@, php_installed, mariadb_installed, nginx_installed));
    r
}

/// The base stack never asks for Apache: whatever is installed, `httpd` is
/// not among the missing formulae.
pub proof fn lemma_base_never_apache(
    active_php: Seq<char>,
    php_installed: bool,
    mariadb_installed: bool,
    nginx_installed: bool,
)
    ensures
        !spec_base_missing(active_php, php_installed, mariadb_installed, nginx_installed).contains("httpd"@),
{
    reveal_strlit("httpd");
    reveal_strlit("php@");
    reveal_strlit("mariadb");
    reveal_strlit("nginx");
    let m = spec_base_missing(active_php, php_installed, mariadb_installed, nginx_installed);
    assert forall|i: int| 0 <= i < m.len() implies m[i] != "httpd"@ by {
        assert(m[i][0] != 'h');
    }
}

// ---------------------------------------------------------------------------
// MariaDB dev-mode root (root with a blank password over TCP)
// ---------------------------------------------------------------------------

/// Where resetting MariaDB's root stands. Resetting runs without sudo, since
/// MariaDB's data directory is the user's: stop the service and wait for it to
/// exit; start a temporary server without grants or networking and wait for it
/// to answer; give root a blank native password on localhost and 127.0.0.1;
/// shut the temporary server down, wait, and start the service again.
pub enum ResetPhase {
    StopService,
    /// The service is being waited for: this many checks were done.
    AwaitStopped(u32),
    /// One second's pause after a check that found it still running.
    PauseStopped(u32),
    SpawnTemporary,
    AwaitUp(u32),
    PauseUp(u32),
    SetRoot,
    ShutdownTemporary,
    AwaitDown(u32),
    PauseDown(u32),
    StartService,
    /// Finished, with this result.
    Done(Result<String, String>),
}

/// What to do in a phase. Each action reports back a `Result` of text: a
/// check reports whether the command succeeded, a run its output or error, a
/// spawn whether the process could be started, a pause `Ok`.
pub enum ResetAction {
    /// Run the command; only whether it succeeded matters.
    Check(Command),
    /// Run the command; its output or error.
    Run(Command),
    /// Start the command in the background, its output discarded.
    Spawn(Command),
    /// Wait one second.
    Pause,
    /// Report the result.
    Finish(Result<String, String>),
}

/// How many checks each wait makes at most.
pub open spec fn stop_checks() -> u32 {
    15
}

pub open spec fn up_checks() -> u32 {
    20
}

/// The statements that give root a blank native password, on localhost and
/// on 127.0.0.1 with every privilege.
pub open spec fn reset_sql() -> Seq<char> {
    "FLUSH PRIVILEGES;ALTER USER 'root'@'localhost' IDENTIFIED VIA mysql_native_password USING PASSWORD('');CREATE USER IF NOT EXISTS 'root'@'127.0.0.1' IDENTIFIED VIA mysql_native_password USING PASSWORD('');GRANT ALL PRIVILEGES ON *.* TO 'root'@'127.0.0.1' WITH GRANT OPTION;FLUSH PRIVILEGES;"@
}

/// The action of each phase.
pub open spec fn spec_reset_action(phase: ResetPhase, prefix: Seq<char>, a: ResetAction) -> bool {
    let mysql = prefix + "/opt/mariadb/bin/mariadb"@;
    match phase {
        ResetPhase::StopService => a matches ResetAction::Run(c) && is_command(
            c,
            prefix + "/bin/brew"@,
            seq!["services"@, "stop"@, "mariadb"@],
        ),
        ResetPhase::AwaitStopped(_) | ResetPhase::AwaitDown(_) => a matches ResetAction::Check(c)
            && is_command(c, "pgrep"@, seq!["-f"@, "mariadbd"@]),
        ResetPhase::PauseStopped(_) | ResetPhase::PauseUp(_) | ResetPhase::PauseDown(_) => a is Pause,
        ResetPhase::SpawnTemporary => a matches ResetAction::Spawn(c) && is_command(
            c,
            prefix + "/opt/mariadb/bin/mariadbd-safe"@,
            seq!["--datadir="@ + prefix + "/var/mysql"@, "--skip-grant-tables"@, "--skip-networking"@],
        ),
        ResetPhase::AwaitUp(_) => a matches ResetAction::Check(c) && is_command(
            c,
            mysql,
            seq!["-u"@, "root"@, "-e"@, "SELECT 1"@],
        ),
        ResetPhase::SetRoot => a matches ResetAction::Run(c) && is_command(
            c,
            mysql,
            seq!["-u"@, "root"@, "-e"@, reset_sql()],
        ),
        ResetPhase::ShutdownTemporary => a matches ResetAction::Run(c) && is_command(
            c,
            prefix + "/opt/mariadb/bin/mariadb-admin"@,
            seq!["-u"@, "root"@, "shutdown"@],
        ),
        ResetPhase::StartService => a matches ResetAction::Run(c) && is_command(
            c,
            prefix + "/bin/brew"@,
            seq!["services"@, "start"@, "mariadb"@],
        ),
        ResetPhase::Done(r) => a matches ResetAction::Finish(f) && rview(f) == rview(r),
    }
}

/// A copy of a result of strings.
fn copy_result(r: &Result<String, String>) -> (c: Result<String, String>)
    ensures
        rview(c) == rview(*r),
{
    match r {
        Ok(s) => Ok(s.clone()),
        Err(e) => Err(e.clone()),
    }
}

/// What to do in `phase` (see `spec_reset_action`).
pub fn dev_reset_action(phase: &ResetPhase, prefix: &str) -> (a: ResetAction)
    ensures
        spec_reset_action(*phase, prefix@, a),
{
    let mysql = cat(prefix, "/opt/mariadb/bin/mariadb");
    match phase {
        ResetPhase::StopService => ResetAction::Run(stop_mariadb(prefix)),
        ResetPhase::AwaitStopped(_) | ResetPhase::AwaitDown(_) => {
            let c = command("pgrep", vec!["-f".to_owned(), "mariadbd".to_owned()]);
            assert(string_views(c.args@) =~= seq!["-f"@, "mariadbd"@]);
            ResetAction::Check(c)
        },
        ResetPhase::PauseStopped(_) | ResetPhase::PauseUp(_) | ResetPhase::PauseDown(_) => ResetAction::Pause,
        ResetPhase::SpawnTemporary => {
            let datadir = cat3("--datadir=", prefix, "/var/mysql");
            let c = command(
                cat(prefix, "/opt/mariadb/bin/mariadbd-safe").as_str(),
                vec![datadir, "--skip-grant-tables".to_owned(), "--skip-networking".to_owned()],
            );
            assert(string_views(c.args@) =~= seq![
                "--datadir="@ + prefix@ + "/var/mysql"@,
                "--skip-grant-tables"@,
                "--skip-networking"@,
            ]);
            ResetAction::Spawn(c)
        },
        ResetPhase::AwaitUp(_) => {
            let c = command(
                mysql.as_str(),
                vec!["-u".to_owned(), "root".to_owned(), "-e".to_owned(), "SELECT 1".to_owned()],
            );
            assert(string_views(c.args@) =~= seq!["-u"@, "root"@, "-e"@, "SELECT 1"@]);
            ResetAction::Check(c)
        },
        ResetPhase::SetRoot => {
            let sql = "FLUSH PRIVILEGES;ALTER USER 'root'@'localhost' IDENTIFIED VIA mysql_native_password USING PASSWORD('');CREATE USER IF NOT EXISTS 'root'@'127.0.0.1' IDENTIFIED VIA mysql_native_password USING PASSWORD('');GRANT ALL PRIVILEGES ON *.* TO 'root'@'127.0.0.1' WITH GRANT OPTION;FLUSH PRIVILEGES;";
            let c = command(
                mysql.as_str(),
                vec!["-u".to_owned(), "root".to_owned(), "-e".to_owned(), sql.to_owned()],
            );
            assert(string_views(c.args@) =~= seq!["-u"@, "root"@, "-e"@, reset_sql()]);
            ResetAction::Run(c)
        },
        ResetPhase::ShutdownTemporary => {
            let c = command(
                cat(prefix, "/opt/mariadb/bin/mariadb-admin").as_str(),
                vec!["-u".to_owned(), "root".to_owned(), "shutdown".to_owned()],
            );
            assert(string_views(c.args@) =~= seq!["-u"@, "root"@, "shutdown"@]);
            ResetAction::Run(c)
        },
        ResetPhase::StartService => ResetAction::Run(start_mariadb(prefix)),
        ResetPhase::Done(r) => ResetAction::Finish(copy_result(r)),
    }
}

/// The phase after `phase`, given what its action reported.
pub open spec fn spec_reset_next(phase: ResetPhase, outcome: Result<String, String>, next: ResetPhase) -> bool {
    match phase {
        ResetPhase::StopService => next == ResetPhase::AwaitStopped(0),
        ResetPhase::AwaitStopped(n) => if outcome is Ok {
            next == ResetPhase::PauseStopped(n)
        } else {
            next is SpawnTemporary
        },
        ResetPhase::PauseStopped(n) => if n + 1 < stop_checks() {
            next == ResetPhase::AwaitStopped((n + 1) as u32)
        } else {
            next is SpawnTemporary
        },
        ResetPhase::SpawnTemporary => match outcome {
            Ok(_) => next == ResetPhase::AwaitUp(0),
            Err(e) => next matches ResetPhase::Done(Err(m)) && m@ == "failed to start temp mariadb: "@
                + e@,
        },
        ResetPhase::AwaitUp(n) => if outcome is Ok {
            next is SetRoot
        } else {
            next == ResetPhase::PauseUp(n)
        },
        ResetPhase::PauseUp(n) => if n + 1 < up_checks() {
            next == ResetPhase::AwaitUp((n + 1) as u32)
        } else {
            next matches ResetPhase::Done(Err(m)) && m@ == "temporary MariaDB did not come up"@
        },
        ResetPhase::SetRoot => match outcome {
            Ok(_) => next is ShutdownTemporary,
            Err(e) => next matches ResetPhase::Done(Err(m)) && m@ == e@,
        },
        ResetPhase::ShutdownTemporary => next == ResetPhase::AwaitDown(0),
        ResetPhase::AwaitDown(n) => if outcome is Ok {
            next == ResetPhase::PauseDown(n)
        } else {
            next is StartService
        },
        ResetPhase::PauseDown(n) => if n + 1 < stop_checks() {
            next == ResetPhase::AwaitDown((n + 1) as u32)
        } else {
            next is StartService
        },
        ResetPhase::StartService => match outcome {
            Ok(_) => next matches ResetPhase::Done(Ok(m)) && m@
                == "MariaDB root set to blank password (dev mode)"@,
            Err(e) => next matches ResetPhase::Done(Err(m)) && m@ == e@,
        },
        ResetPhase::Done(r) => next matches ResetPhase::Done(f) && rview(f) == rview(r),
    }
}

/// The phase after `phase` (see `spec_reset_next`).
pub fn dev_reset_next(phase: &ResetPhase, outcome: &Result<String, String>) -> (next: ResetPhase)
    ensures
        spec_reset_next(*phase, *outcome, next),
{
    match phase {
        ResetPhase::StopService => ResetPhase::AwaitStopped(0),
        ResetPhase::AwaitStopped(n) => if outcome.is_ok() {
            ResetPhase::PauseStopped(*n)
        } else {
            ResetPhase::SpawnTemporary
        },
        ResetPhase::PauseStopped(n) => if *n < 14 {
            ResetPhase::AwaitStopped(*n + 1)
        } else {
            ResetPhase::SpawnTemporary
        },
        ResetPhase::SpawnTemporary => match outcome {
            Ok(_) => ResetPhase::AwaitUp(0),
            Err(e) => ResetPhase::Done(Err(cat("failed to start temp mariadb: ", e.as_str()))),
        },
        ResetPhase::AwaitUp(n) => if outcome.is_ok() {
            ResetPhase::SetRoot
        } else {
            ResetPhase::PauseUp(*n)
        },
        ResetPhase::PauseUp(n) => if *n < 19 {
            ResetPhase::AwaitUp(*n + 1)
        } else {
            ResetPhase::Done(Err("temporary MariaDB did not come up".to_owned()))
        },
        ResetPhase::SetRoot => match outcome {
            Ok(_) => ResetPhase::ShutdownTemporary,
            Err(e) => ResetPhase::Done(Err(e.clone())),
        },
        ResetPhase::ShutdownTemporary => ResetPhase::AwaitDown(0),
        ResetPhase::AwaitDown(n) => if outcome.is_ok() {
            ResetPhase::PauseDown(*n)
        } else {
            ResetPhase::StartService
        },
        ResetPhase::PauseDown(n) => if *n < 14 {
            ResetPhase::AwaitDown(*n + 1)
        } else {
            ResetPhase::StartService
        },
        ResetPhase::StartService => match outcome {
            Ok(_) => ResetPhase::Done(Ok("MariaDB root set to blank password (dev mode)".to_owned())),
            Err(e) => ResetPhase::Done(Err(e.clone())),
        },
        ResetPhase::Done(r) => ResetPhase::Done(copy_result(r)),
    }
}

/// A bound on the phases left before `Done`, whatever the actions report.
pub open spec fn reset_steps_left(phase: ResetPhase) -> nat {
    let rest = |n: u32, limit: u32| if n < limit { (limit - 1 - n) as nat } else { 0nat };
    match phase {
        ResetPhase::StopService => 105,
        ResetPhase::AwaitStopped(n) => 76 + 2 * rest(n, stop_checks()),
        ResetPhase::PauseStopped(n) => 75 + 2 * rest(n, stop_checks()),
        ResetPhase::SpawnTemporary => 74,
        ResetPhase::AwaitUp(n) => 35 + 2 * rest(n, up_checks()),
        ResetPhase::PauseUp(n) => 34 + 2 * rest(n, up_checks()),
        ResetPhase::SetRoot => 33,
        ResetPhase::ShutdownTemporary => 32,
        ResetPhase::AwaitDown(n) => 3 + 2 * rest(n, stop_checks()),
        ResetPhase::PauseDown(n) => 2 + 2 * rest(n, stop_checks()),
        ResetPhase::StartService => 1,
        ResetPhase::Done(_) => 0,
    }
}

/// Resetting the root password always finishes: every step that is not
/// `Done` brings it closer, whatever its action reported, so a reset that
/// starts with `StopService` is done within 105 steps.
pub proof fn lemma_reset_progress(phase: ResetPhase, outcome: Result<String, String>, next: ResetPhase)
    requires
        !(phase is Done),
        spec_reset_next(phase, outcome, next),
    ensures
        reset_steps_left(next) < reset_steps_left(phase),
{
}

// ---------------------------------------------------------------------------
// Laws of the plans
// ---------------------------------------------------------------------------

/// The decimal text of `n` is made of digits and reads back as `n`.
proof fn lemma_decimal_reads_back(n: nat)
    ensures
        forall|i: int| 0 <= i < decimal(n).len() ==> is_digit(#[trigger] decimal(n)[i]),
        digits_value(decimal(n)) == n,
    decreases n,
{
    let d = n % 10;
    assert(digit(d) as int - '0' as int == d && is_digit(digit(d))) by {
        if d == 0 {} else if d == 1 {} else if d == 2 {} else if d == 3 {} else if d == 4 {}
        else if d == 5 {} else if d == 6 {} else if d == 7 {} else if d == 8 {} else {}
    }
    if n >= 10 {
        lemma_decimal_reads_back(n / 10);
        let s = decimal(n);
        assert(s.drop_last() =~= decimal(n / 10));
        assert(s.last() == digit(d));
        assert(digits_value(s) == digits_value(s.drop_last()) * 10 + (s.last() as int - '0' as int));
        assert((n / 10) * 10 + d == n);
        assert forall|i: int| 0 <= i < s.len() implies is_digit(#[trigger] s[i]) by {
            if i < s.len() - 1 {
                assert(s[i] == decimal(n / 10)[i]);
            }
        }
    } else {
        let s = decimal(n);
        assert(s.drop_last() =~= Seq::<char>::empty());
        assert(digits_value(s.drop_last()) == 0);
        assert(digits_value(s) == digits_value(s.drop_last()) * 10 + (s.last() as int - '0' as int));
    }
}

/// The dashboard's web row shows the configured HTTP port: its port text is
/// all digits and reads back as `state.http_port`, whatever the port.
pub proof fn lemma_web_row_shows_port(
    state: State,
    vers: Map<Seq<char>, Seq<char>>,
    started: Set<Seq<char>>,
    web_running: bool,
    php_fpm_alive: bool,
    r: Seq<Service>,
)
    requires
        spec_list_services(state, vers, started, web_running, php_fpm_alive, r),
    ensures
        r[0].key@ == "web"@,
        r[0].running == web_running,
        forall|i: int| 0 <= i < r[0].port@.len() ==> is_digit(#[trigger] r[0].port@[i]),
        digits_value(r[0].port@) == state.http_port,
{
    lemma_decimal_reads_back(state.http_port as nat);
}

/// Starting the web server runs it behind the administrator prompt exactly
/// when its port is privileged (below 1024), whichever server it is.
pub proof fn lemma_start_web_privileged_iff_low_port(
    state: State,
    home: Seq<char>,
    prefix: Seq<char>,
    user: Seq<char>,
    httpd_installed: bool,
    r: Result<WebStart, String>,
)
    requires
        spec_start_web(state, home, prefix, user, httpd_installed, r),
    ensures
        r matches Ok(w) ==> ((w.launch is Privileged) <==> state.http_port < 1024),
{
}

/// A brew service step names one service.
proof fn lemma_brew_service_unique(a: ServiceAction, prefix: Seq<char>, act: Seq<char>, x: Seq<char>, y: Seq<char>)
    requires
        is_brew_service(a, prefix, act, x),
        is_brew_service(a, prefix, act, y),
    ensures
        x == y,
{
    match a {
        ServiceAction::Run(c) => {
            assert(string_views(c.args@)[2] == x);
        },
        _ => {},
    }
}

/// A step of `steps` starts the Homebrew service `name`.
pub open spec fn starts_service(steps: Seq<Step>, prefix: Seq<char>, name: Seq<char>) -> bool {
    exists|i: int| 0 <= i < steps.len() && is_brew_service(#[trigger] steps[i].action, prefix, "start"@, name)
}

/// Starting everything starts MariaDB, and starts Redis and Mailpit exactly
/// when each is installed; php-fpm restarts with the active version and the
/// web server starts, both required.
pub proof fn lemma_start_all_starts_what_is_installed(
    state: State,
    prefix: Seq<char>,
    redis_installed: bool,
    mailpit_installed: bool,
    r: Lifecycle,
)
    requires
        spec_start_all(state, prefix, redis_installed, mailpit_installed, r),
    ensures
        starts_service(r.steps@, prefix, "mariadb"@),
        starts_service(r.steps@, prefix, "redis"@) <==> redis_installed,
        starts_service(r.steps@, prefix, "mailpit"@) <==> mailpit_installed,
        exists|i: int|
            0 <= i < r.steps@.len() && #[trigger] r.steps@[i].required && is_restart_php_fpm(
                r.steps@[i].action,
                state.active_php@,
            ),
        exists|i: int| 0 <= i < r.steps@.len() && #[trigger] r.steps@[i].required && r.steps@[i].action is StartWeb,
{
    reveal_strlit("mariadb");
    reveal_strlit("redis");
    reveal_strlit("mailpit");
    reveal_strlit("start");
    let st = r.steps@;
    let n = st.len();
    assert("mariadb"@ != "redis"@ && "mariadb"@ != "mailpit"@ && "redis"@ != "mailpit"@) by {
        assert("mariadb"@[1] != "redis"@[1]);
        assert("mariadb"@[2] != "mailpit"@[2]);
        assert("redis"@[0] != "mailpit"@[0]);
    }
    assert(is_brew_service(st[0].action, prefix, "start"@, "mariadb"@));
    assert(st[1].required);
    assert(st[2].required);
    if redis_installed {
        assert(is_brew_service(st[3].action, prefix, "start"@, "redis"@));
    } else {
        assert forall|i: int| 0 <= i < n implies !is_brew_service(#[trigger] st[i].action, prefix, "start"@, "redis"@) by {
            if is_brew_service(st[i].action, prefix, "start"@, "redis"@) {
                if i == 0 {
                    lemma_brew_service_unique(st[i].action, prefix, "start"@, "redis"@, "mariadb"@);
                } else if i >= 3 {
                    assert(mailpit_installed && i == n - 1);
                    lemma_brew_service_unique(st[i].action, prefix, "start"@, "redis"@, "mailpit"@);
                }
            }
        }
    }
    if mailpit_installed {
        assert(is_brew_service(st[n - 1].action, prefix, "start"@, "mailpit"@));
    } else {
        assert forall|i: int| 0 <= i < n implies !is_brew_service(#[trigger] st[i].action, prefix, "start"@, "mailpit"@) by {
            if is_brew_service(st[i].action, prefix, "start"@, "mailpit"@) {
                if i == 0 {
                    lemma_brew_service_unique(st[i].action, prefix, "start"@, "mailpit"@, "mariadb"@);
                } else if i >= 3 {
                    assert(redis_installed && i == 3);
                    lemma_brew_service_unique(st[i].action, prefix, "start"@, "mailpit"@, "redis"@);
                }
            }
        }
    }
}

/// A step of `steps` stops the Homebrew service `name`.
pub open spec fn stops_service(steps: Seq<Step>, prefix: Seq<char>, name: Seq<char>) -> bool {
    exists|i: int| 0 <= i < steps.len() && is_brew_service(#[trigger] steps[i].action, prefix, "stop"@, name)
}

/// Stopping everything is best-effort throughout: it stops the web servers,
/// php-fpm and MariaDB, and stops Redis and Mailpit exactly when each is
/// installed.
pub proof fn lemma_stop_all_stops_what_is_installed(
    prefix: Seq<char>,
    redis_installed: bool,
    mailpit_installed: bool,
    r: Lifecycle,
)
    requires
        spec_stop_all(prefix, redis_installed, mailpit_installed, r),
    ensures
        forall|i: int| 0 <= i < r.steps@.len() ==> !(#[trigger] r.steps@[i]).required,
        exists|i: int| 0 <= i < r.steps@.len() && (#[trigger] r.steps@[i]).action is StopWeb,
        exists|i: int| 0 <= i < r.steps@.len() && (#[trigger] r.steps@[i]).action is StopPhpFpm,
        stops_service(r.steps@, prefix, "mariadb"@),
        stops_service(r.steps@, prefix, "redis"@) <==> redis_installed,
        stops_service(r.steps@, prefix, "mailpit"@) <==> mailpit_installed,
{
    reveal_strlit("mariadb");
    reveal_strlit("redis");
    reveal_strlit("mailpit");
    let st = r.steps@;
    let n = st.len();
    assert("mariadb"@ != "redis"@ && "mariadb"@ != "mailpit"@ && "redis"@ != "mailpit"@) by {
        assert("mariadb"@[1] != "redis"@[1]);
        assert("mariadb"@[2] != "mailpit"@[2]);
        assert("redis"@[0] != "mailpit"@[0]);
    }
    assert(st[0].action is StopWeb);
    assert(st[1].action is StopPhpFpm);
    assert(is_brew_service(st[2].action, prefix, "stop"@, "mariadb"@));
    if redis_installed {
        assert(is_brew_service(st[3].action, prefix, "stop"@, "redis"@));
    } else {
        assert forall|i: int| 0 <= i < n implies !is_brew_service(#[trigger] st[i].action, prefix, "stop"@, "redis"@) by {
            if is_brew_service(st[i].action, prefix, "stop"@, "redis"@) {
                if i == 2 {
                    lemma_brew_service_unique(st[i].action, prefix, "stop"@, "redis"@, "mariadb"@);
                } else if i >= 3 {
                    assert(mailpit_installed && i == n - 1);
                    lemma_brew_service_unique(st[i].action, prefix, "stop"@, "redis"@, "mailpit"@);
                }
            }
        }
    }
    if mailpit_installed {
        assert(is_brew_service(st[n - 1].action, prefix, "stop"@, "mailpit"@));
    } else {
        assert forall|i: int| 0 <= i < n implies !is_brew_service(#[trigger] st[i].action, prefix, "stop"@, "mailpit"@) by {
            if is_brew_service(st[i].action, prefix, "stop"@, "mailpit"@) {
                if i == 2 {
                    lemma_brew_service_unique(st[i].action, prefix, "stop"@, "mailpit"@, "mariadb"@);
                } else if i >= 3 {
                    assert(redis_installed && i == 3);
                    lemma_brew_service_unique(st[i].action, prefix, "stop"@, "mailpit"@, "redis"@);
                }
            }
        }
    }
}

/// Each dashboard row tells about its own service: rows are keyed by
/// distinct services, and the MariaDB, Redis and Mailpit rows report the
/// installed version, whether installed and whether started of the formula
/// named by their key; the PHP row reports the active version's formula and
/// whether php-fpm runs; the web row, the configured server's formula.
pub proof fn lemma_service_rows_follow_their_key(
    state: State,
    vers: Map<Seq<char>, Seq<char>>,
    started: Set<Seq<char>>,
    web_running: bool,
    php_fpm_alive: bool,
    r: Seq<Service>,
)
    requires
        spec_list_services(state, vers, started, web_running, php_fpm_alive, r),
    ensures
        r.len() == 5,
        forall|i: int, j: int| 0 <= i < j < 5 ==> (#[trigger] r[i]).key@ != (#[trigger] r[j]).key@,
        forall|i: int|
            2 <= i < 5 ==> {
                &&& (#[trigger] r[i]).running == started.contains(r[i].key@)
                &&& r[i].installed == vers.contains_key(r[i].key@)
                &&& r[i].installed ==> r[i].version@ == vers[r[i].key@]
                &&& !r[i].installed ==> r[i].version@.len() == 0
            },
        r[1].running == php_fpm_alive,
        r[1].installed == vers.contains_key("php@"@ + state.active_php@),
        r[0].installed == vers.contains_key(if state.web_server@ == "apache"@ { "httpd"@ } else { "nginx"@ }),
{
    reveal_strlit("web");
    reveal_strlit("php");
    reveal_strlit("mariadb");
    reveal_strlit("redis");
    reveal_strlit("mailpit");
    assert(r[0].key@ == "web"@ && r[1].key@ == "php"@ && r[2].key@ == "mariadb"@ && r[3].key@ == "redis"@
        && r[4].key@ == "mailpit"@);
    assert forall|i: int, j: int| 0 <= i < j < 5 implies (#[trigger] r[i]).key@ != (#[trigger] r[j]).key@ by {
        assert(r[i].key@[0] != r[j].key@[0] || r[i].key@[1] != r[j].key@[1] || r[i].key@[2] != r[j].key@[2]);
    }
}

/// Switching one service on starts exactly that service and switching it off
/// stops it: a Homebrew service is started or stopped by name, php-fpm is
/// restarted with the active version or stopped, the web server started or
/// stopped; only the five known keys are accepted.
pub proof fn lemma_set_service_switches_that_service(
    key: Seq<char>,
    on: bool,
    state: State,
    prefix: Seq<char>,
    r: Result<(ServiceAction, String), String>,
)
    requires
        spec_set_service(key, on, state, prefix, r),
    ensures
        (r is Ok) <==> (key == "php"@ || key == "web"@ || key == "mariadb"@ || key == "redis"@ || key == "mailpit"@),
        r matches Ok((a, _)) ==> (key == "mariadb"@ || key == "redis"@ || key == "mailpit"@) ==> (on ==> is_brew_service(
            a,
            prefix,
            "start"@,
            key,
        )) && (!on ==> is_brew_service(a, prefix, "stop"@, key)),
        r matches Ok((a, _)) ==> key == "php"@ ==> (on ==> (a matches ServiceAction::RestartPhpFpm(v) && v@
            == state.active_php@)) && (!on ==> a is StopPhpFpm),
        r matches Ok((a, _)) ==> key == "web"@ ==> (on ==> a is StartWeb) && (!on ==> a is StopWeb),
        r matches Ok((_, m)) ==> m@ == key + (if on { " started"@ } else { " stopped"@ }),
{
    reveal_strlit("php");
    reveal_strlit("web");
    reveal_strlit("mariadb");
    reveal_strlit("redis");
    reveal_strlit("mailpit");
    assert("mariadb"@ != "php"@ && "mariadb"@ != "web"@ && "redis"@ != "php"@ && "redis"@ != "web"@
        && "mailpit"@ != "php"@ && "mailpit"@ != "web"@) by {
        assert("mariadb"@[0] != "php"@[0] && "mariadb"@[0] != "web"@[0]);
        assert("redis"@[0] != "php"@[0] && "redis"@[0] != "web"@[0]);
        assert("mailpit"@[0] != "php"@[0] && "mailpit"@[0] != "web"@[0]);
    }
}

} // verus!
