use tusk::engine::services::{
    apache_conf, base_missing_formulae, dashboard_index, dev_reset_action, dev_reset_next,
    list_services, nginx_conf, php_fpm_conf, php_sock, restart_php_fpm, service_user, set_service,
    start_all, start_web, status, stop_all, stop_php_fpm_command, stop_web, stop_web_outcome, web_running,
    Launch,
    ResetAction, ResetPhase, ServiceAction,
};
use tusk::engine::{brew_started_set, brew_versions_map, State};

const HOME: &str = "/Users/ann";
const BREW: &str = "/opt/homebrew";

fn run() -> String { format!("{}/.chowk/run", HOME) }
fn logs() -> String { format!("{}/.chowk/logs", HOME) }
fn etc() -> String { format!("{}/.chowk/etc", HOME) }
fn apps() -> String { format!("{}/.chowk/apps", HOME) }
fn sock() -> String { format!("{}/php.sock", run()) }

#[test]
fn socket_and_user() {
    assert_eq!(php_sock(HOME), "/Users/ann/.chowk/run/php.sock");
    assert_eq!(service_user(Some("ann")), "ann");
    assert_eq!(service_user(None), "nobody");
}

#[test]
fn fpm_configuration_text() {
    let user = "ann";
    let want = format!(
        "[global]\n\
         pid = {run}/php-fpm.pid\n\
         error_log = {logs}/php-fpm.log\n\
         daemonize = yes\n\n\
         [www]\n\
         user = {user}\n\
         group = staff\n\
         listen = {sock}\n\
         listen.owner = {user}\n\
         listen.group = staff\n\
         listen.mode = 0660\n\
         pm = dynamic\n\
         pm.max_children = 10\n\
         pm.start_servers = 2\n\
         pm.min_spare_servers = 1\n\
         pm.max_spare_servers = 3\n\
         pm.max_requests = 500\n",
        run = run(),
        logs = logs(),
        user = user,
        sock = sock(),
    );
    assert_eq!(php_fpm_conf(HOME, user), want);
}

fn expected_nginx(port: u16, user: &str) -> String {
    let user_line = if port < 1024 { format!("user {user} staff;\n") } else { String::new() };
    format!(
        "{user_line}\
         worker_processes auto;\n\
         pid {run}/nginx.pid;\n\
         error_log {logs}/nginx-error.log;\n\
         events {{ worker_connections 1024; }}\n\
         http {{\n\
         \x20 include {brew}/etc/nginx/mime.types;\n\
         \x20 default_type application/octet-stream;\n\
         \x20 sendfile on;\n\
         \x20 keepalive_timeout 65;\n\
         \x20 client_max_body_size 128M;\n\
         \x20 access_log {logs}/nginx-access.log;\n\
         \x20 include {etc}/nginx-sites/*.conf;\n\
         \x20 server {{\n\
         \x20\x20\x20 listen {port} default_server;\n\
         \x20\x20\x20 server_name localhost;\n\
         \x20\x20\x20 root {apps}/dashboard;\n\
         \x20\x20\x20 index index.html index.php;\n\
         \x20\x20\x20 location / {{ try_files $uri $uri/ =404; }}\n\
         \x20\x20\x20 location ~ \\.php$ {{ fastcgi_pass unix:{sock}; include {brew}/etc/nginx/fastcgi_params; fastcgi_param SCRIPT_FILENAME $document_root$fastcgi_script_name; }}\n\
         \x20 }}\n\
         }}\n",
        run = run(),
        logs = logs(),
        etc = etc(),
        apps = apps(),
        brew = BREW,
        port = port,
        sock = sock(),
    )
}

#[test]
fn nginx_configuration_text() {
    assert_eq!(nginx_conf(HOME, BREW, 80, "ann"), expected_nginx(80, "ann"));
    assert_eq!(nginx_conf(HOME, BREW, 8080, "ann"), expected_nginx(8080, "ann"));
    assert!(nginx_conf(HOME, BREW, 80, "ann").starts_with("user ann staff;\n"));
    assert!(nginx_conf(HOME, BREW, 8080, "ann").starts_with("worker_processes"));
}

fn expected_apache(port: u16, user: &str) -> String {
    let modules = [
        "mpm_event_module lib/httpd/modules/mod_mpm_event.so",
        "authz_core_module lib/httpd/modules/mod_authz_core.so",
        "authz_host_module lib/httpd/modules/mod_authz_host.so",
        "dir_module lib/httpd/modules/mod_dir.so",
        "mime_module lib/httpd/modules/mod_mime.so",
        "log_config_module lib/httpd/modules/mod_log_config.so",
        "unixd_module lib/httpd/modules/mod_unixd.so",
        "proxy_module lib/httpd/modules/mod_proxy.so",
        "proxy_fcgi_module lib/httpd/modules/mod_proxy_fcgi.so",
        "rewrite_module lib/httpd/modules/mod_rewrite.so",
        "headers_module lib/httpd/modules/mod_headers.so",
    ];
    let mut load = String::new();
    for m in modules {
        load.push_str(&format!("LoadModule {}\n", m));
    }
    let user_dir = if port < 1024 { format!("User {user}\nGroup staff\n") } else { String::new() };
    format!(
        "ServerRoot \"{brew}/opt/httpd\"\n\
         Listen {port}\n\
         {load}\
         ServerName localhost\n\
         PidFile \"{run}/httpd.pid\"\n\
         ErrorLog \"{logs}/apache-error.log\"\n\
         {user_dir}\
         DocumentRoot \"{apps}/dashboard\"\n\
         DirectoryIndex index.php index.html\n\
         <Directory />\n\x20 AllowOverride none\n\x20 Require all denied\n</Directory>\n\
         <Directory \"{apps}\">\n\x20 AllowOverride All\n\x20 Require all granted\n</Directory>\n\
         <Directory \"{home}/Sites\">\n\x20 AllowOverride All\n\x20 Require all granted\n</Directory>\n\
         <FilesMatch \\.php$>\n\x20 SetHandler \"proxy:unix:{sock}|fcgi://localhost/\"\n</FilesMatch>\n\
         IncludeOptional {etc}/apache-sites/*.conf\n",
        brew = BREW,
        port = port,
        load = load,
        run = run(),
        logs = logs(),
        user_dir = user_dir,
        apps = apps(),
        home = HOME,
        sock = sock(),
        etc = etc(),
    )
}

#[test]
fn apache_configuration_text() {
    assert_eq!(apache_conf(HOME, BREW, 80, "ann"), expected_apache(80, "ann"));
    assert_eq!(apache_conf(HOME, BREW, 8080, "ann"), expected_apache(8080, "ann"));
}

#[test]
fn status_reports_settings_and_probes() {
    let s = State::default();
    let st = status(&s, true, false, true);
    assert!(st.php_fpm && !st.web_running && st.mariadb);
    assert_eq!(st.php_version, "8.2");
    assert_eq!(st.web_server, "nginx");
    assert_eq!(st.http_port, 80);
}

#[test]
fn fpm_restart_and_stop() {
    assert_eq!(restart_php_fpm("8.1", false, BREW, "/c").err().unwrap(), "php@8.1 not installed");
    let (c, m) = restart_php_fpm("8.1", true, BREW, "/c/php-fpm.conf").ok().unwrap();
    assert_eq!(c.program, "/opt/homebrew/opt/php@8.1/sbin/php-fpm");
    assert_eq!(c.args, vec!["-y", "/c/php-fpm.conf", "-c", "/opt/homebrew/etc/php/8.1"]);
    assert_eq!(m, "php-fpm running (php@8.1)");
    let k = stop_php_fpm_command("123\n");
    assert_eq!(k.program, "kill");
    assert_eq!(k.args, vec!["123"]);
}

#[test]
fn web_probes() {
    let a = web_running("apache", HOME);
    assert_eq!(a.pid_file, "/Users/ann/.chowk/run/httpd.pid");
    assert_eq!(a.pgrep.args, vec!["-f", "httpd.*/Users/ann/.chowk/etc/httpd.conf"]);
    let n = web_running("nginx", HOME);
    assert_eq!(n.pid_file, "/Users/ann/.chowk/run/nginx.pid");
    assert_eq!(n.pgrep.program, "pgrep");
    assert_eq!(n.pgrep.args, vec!["-f", "nginx.*/Users/ann/.chowk/etc/nginx.conf"]);
}

#[test]
fn starting_the_web_server() {
    let apache = State::default().set_web_server("apache", false).ok().unwrap();
    assert_eq!(
        start_web(&apache, HOME, BREW, "ann", false).err().unwrap(),
        "Apache (httpd) not installed. Install it from the Services tab."
    );
    let w = start_web(&apache, HOME, BREW, "ann", true).ok().unwrap();
    assert_eq!(w.conf_path, "/Users/ann/.chowk/etc/httpd.conf");
    assert_eq!(w.conf, expected_apache(80, "ann"));
    assert_eq!(w.check.program, "/opt/homebrew/bin/httpd");
    assert_eq!(w.check.args, vec!["-f", "/Users/ann/.chowk/etc/httpd.conf", "-t"]);
    let nconf = format!("{}/nginx.conf", etc());
    let hconf = format!("{}/httpd.conf", etc());
    let start_cmd = format!("{BREW}/bin/httpd -f {hconf} -k start");
    let script = format!("pkill -f 'nginx.*{nconf}' 2>/dev/null; pkill -f 'httpd.*{hconf}' 2>/dev/null; sleep 1; {start_cmd}");
    match w.launch {
        Launch::Privileged(s) => assert_eq!(s, script),
        Launch::Shell(_) => panic!("port 80 needs the admin prompt"),
    }
    assert_eq!(w.message, "apache started");

    let nginx = State::default().set_port(8080);
    let w = start_web(&nginx, HOME, BREW, "ann", false).ok().unwrap();
    assert_eq!(w.conf, expected_nginx(8080, "ann"));
    assert_eq!(w.check.args, vec!["-t", "-c", nconf.as_str()]);
    let script = format!("pkill -f 'nginx.*{nconf}' 2>/dev/null; pkill -f 'httpd.*{hconf}' 2>/dev/null; sleep 1; {BREW}/bin/nginx -c {nconf}");
    match w.launch {
        Launch::Shell(c) => {
            assert_eq!(c.program, "sh");
            assert_eq!(c.args, vec!["-c".to_string(), script]);
        },
        Launch::Privileged(_) => panic!("port 8080 needs no admin prompt"),
    }
    assert_eq!(w.message, "nginx started");
}

#[test]
fn stopping_the_web_servers() {
    let w = stop_web(&State::default(), HOME, BREW);
    let nconf = format!("{}/nginx.conf", etc());
    let hconf = format!("{}/httpd.conf", etc());
    let script = format!(
        "{BREW}/bin/nginx -c {nconf} -s stop 2>/dev/null; \
         pkill -f 'nginx.*{nconf}' 2>/dev/null; \
         pkill -f 'httpd.*{hconf}' 2>/dev/null; true"
    );
    match w.launch {
        Launch::Privileged(s) => assert_eq!(s, script),
        _ => panic!("port 80 is privileged"),
    }
    assert_eq!(w.pid_files, vec![format!("{}/nginx.pid", run()), format!("{}/httpd.pid", run())]);
    assert_eq!(w.message, "web server stopped");
}

#[test]
fn service_rows() {
    let vers = brew_versions_map(&Ok("nginx 1.27.3\nphp@8.2 8.2.20\nmariadb 11.4.2\nredis 7.2.5\n".to_string()));
    let started = brew_started_set(&Ok("mariadb started ann\nredis none\n".to_string()));
    let rows = list_services(&State::default(), &vers, &started, true, false);
    let got: Vec<(String, String, String, bool, bool, String)> = rows
        .iter()
        .map(|s| (s.key.clone(), s.label.clone(), s.version.clone(), s.installed, s.running, s.port.clone()))
        .collect();
    let t = |a: &str, b: &str, c: &str, d: bool, e: bool, f: &str| {
        (a.to_string(), b.to_string(), c.to_string(), d, e, f.to_string())
    };
    assert_eq!(
        got,
        vec![
            t("web", "Nginx", "1.27.3", true, true, "80"),
            t("php", "PHP 8.2", "8.2.20", true, false, "fpm"),
            t("mariadb", "MySQL (MariaDB)", "11.4.2", true, true, "3306"),
            t("redis", "Redis", "7.2.5", true, false, "6379"),
            t("mailpit", "Mailpit", "", false, false, "8025"),
        ]
    );
    let apache = State::default().set_web_server("apache", false).ok().unwrap();
    let rows = list_services(&apache, &vers, &started, false, false);
    assert_eq!(rows[0].label, "Apache");
    assert!(!rows[0].installed);
}

#[test]
fn single_service_toggles() {
    let s = State::default();
    match set_service("php", true, &s, BREW).ok().unwrap() {
        (ServiceAction::RestartPhpFpm(v), m) => {
            assert_eq!(v, "8.2");
            assert_eq!(m, "php started");
        },
        _ => panic!(),
    }
    assert!(matches!(set_service("php", false, &s, BREW).ok().unwrap().0, ServiceAction::StopPhpFpm));
    assert!(matches!(set_service("web", true, &s, BREW).ok().unwrap().0, ServiceAction::StartWeb));
    assert!(matches!(set_service("web", false, &s, BREW).ok().unwrap().0, ServiceAction::StopWeb));
    match set_service("redis", false, &s, BREW).ok().unwrap() {
        (ServiceAction::Run(c), m) => {
            assert_eq!(c.program, "/opt/homebrew/bin/brew");
            assert_eq!(c.args, vec!["services", "stop", "redis"]);
            assert_eq!(m, "redis stopped");
        },
        _ => panic!(),
    }
    assert_eq!(set_service("ftp", true, &s, BREW).err().unwrap(), "unknown service: ftp");
}

fn describe(a: &ServiceAction) -> String {
    match a {
        ServiceAction::RestartPhpFpm(v) => format!("fpm {}", v),
        ServiceAction::StopPhpFpm => "stop fpm".to_string(),
        ServiceAction::StartWeb => "start web".to_string(),
        ServiceAction::StopWeb => "stop web".to_string(),
        ServiceAction::Run(c) => c.args.join(" "),
    }
}

#[test]
fn lifecycle_steps() {
    let s = State::default();
    let all = start_all(&s, BREW, true, false);
    let got: Vec<(String, bool)> = all.steps.iter().map(|st| (describe(&st.action), st.required)).collect();
    assert_eq!(
        got,
        vec![
            ("services start mariadb".to_string(), false),
            ("fpm 8.2".to_string(), true),
            ("start web".to_string(), true),
            ("services start redis".to_string(), false),
        ]
    );
    assert_eq!(all.message, "All services started");
    let all = stop_all(BREW, false, true);
    let got: Vec<(String, bool)> = all.steps.iter().map(|st| (describe(&st.action), st.required)).collect();
    assert_eq!(
        got,
        vec![
            ("stop web".to_string(), false),
            ("stop fpm".to_string(), false),
            ("services stop mariadb".to_string(), false),
            ("services stop mailpit".to_string(), false),
        ]
    );
    assert_eq!(all.message, "All services stopped");
}

#[test]
fn base_stack_never_includes_apache() {
    assert_eq!(base_missing_formulae("8.3", false, false, false), vec!["php@8.3", "mariadb", "nginx"]);
    assert_eq!(base_missing_formulae("8.3", true, false, true), vec!["mariadb"]);
    assert!(base_missing_formulae("8.3", true, true, true).is_empty());
}

#[test]
fn dashboard_location() {
    assert_eq!(dashboard_index(HOME), "/Users/ann/.chowk/apps/dashboard/index.html");
}

fn action_text(a: &ResetAction) -> String {
    match a {
        ResetAction::Check(c) => format!("check {} {}", c.program, c.args.join(" ")),
        ResetAction::Run(c) => format!("run {} {}", c.program, c.args.join(" ")),
        ResetAction::Spawn(c) => format!("spawn {} {}", c.program, c.args.join(" ")),
        ResetAction::Pause => "pause".to_string(),
        ResetAction::Finish(r) => format!("finish {:?}", r),
    }
}

/// Runs the reset with scripted outcomes for checks; runs and spawns succeed.
fn simulate(check_outcomes: &[bool]) -> (Vec<String>, Result<String, String>) {
    let mut phase = ResetPhase::StopService;
    let mut log = Vec::new();
    let mut checks = check_outcomes.iter();
    for _ in 0..200 {
        let a = dev_reset_action(&phase, BREW);
        log.push(action_text(&a));
        let outcome = match &a {
            ResetAction::Check(_) => if *checks.next().unwrap_or(&false) { Ok(String::new()) } else { Err(String::new()) },
            ResetAction::Finish(r) => return (log, r.clone()),
            _ => Ok(String::new()),
        };
        phase = dev_reset_next(&phase, &outcome);
    }
    panic!("did not finish");
}

#[test]
fn root_reset_happy_path() {
    // stopped at once, up at once, down at once
    let (log, r) = simulate(&[false, true, false]);
    assert_eq!(r, Ok("MariaDB root set to blank password (dev mode)".to_string()));
    assert_eq!(log[0], "run /opt/homebrew/bin/brew services stop mariadb");
    assert_eq!(log[1], "check pgrep -f mariadbd");
    assert_eq!(log[2], "spawn /opt/homebrew/opt/mariadb/bin/mariadbd-safe --datadir=/opt/homebrew/var/mysql --skip-grant-tables --skip-networking");
    assert_eq!(log[3], "check /opt/homebrew/opt/mariadb/bin/mariadb -u root -e SELECT 1");
    assert!(log[4].starts_with("run /opt/homebrew/opt/mariadb/bin/mariadb -u root -e FLUSH PRIVILEGES;ALTER USER 'root'@'localhost'"));
    assert_eq!(log[5], "run /opt/homebrew/opt/mariadb/bin/mariadb-admin -u root shutdown");
    assert_eq!(log[6], "check pgrep -f mariadbd");
    assert_eq!(log[7], "run /opt/homebrew/bin/brew services start mariadb");
    assert_eq!(log.len(), 9);
}

#[test]
fn root_reset_gives_up_after_twenty_checks() {
    // stopped at once; the temporary server never answers
    let mut outcomes = vec![false];
    outcomes.extend(std::iter::repeat(false).take(20));
    let (log, r) = simulate(&outcomes);
    assert_eq!(r, Err("temporary MariaDB did not come up".to_string()));
    assert_eq!(log.iter().filter(|l| l.starts_with("check /opt/homebrew/opt/mariadb/bin/mariadb")).count(), 20);
}

#[test]
fn root_reset_waits_at_most_fifteen_checks_for_stop() {
    // never reported stopped: 15 checks and pauses, then it goes on
    let mut outcomes = vec![true; 15];
    outcomes.push(true); // the temporary server answers
    outcomes.push(false); // and is gone after shutdown
    let (log, r) = simulate(&outcomes);
    assert!(r.is_ok());
    assert_eq!(log.iter().take_while(|l| !l.starts_with("spawn")).filter(|l| *l == "pause").count(), 15);
}

#[test]
fn root_reset_reports_failures() {
    let mut phase = ResetPhase::SpawnTemporary;
    phase = dev_reset_next(&phase, &Err("No such file".to_string()));
    match dev_reset_action(&phase, BREW) {
        ResetAction::Finish(r) => assert_eq!(r, Err("failed to start temp mariadb: No such file".to_string())),
        _ => panic!(),
    }
    let phase = dev_reset_next(&ResetPhase::SetRoot, &Err("mariadb failed: denied".to_string()));
    match dev_reset_action(&phase, BREW) {
        ResetAction::Finish(r) => assert_eq!(r, Err("mariadb failed: denied".to_string())),
        _ => panic!(),
    }
}

#[test]
fn a_failed_privileged_stop_keeps_the_pid_files() {
    let w = stop_web(&State::default(), HOME, BREW);
    let (clear, answer) = stop_web_outcome(&w, &Err("User canceled.".to_string()));
    assert!(clear.is_empty());
    assert_eq!(answer, Err("User canceled.".to_string()));
    let (clear, answer) = stop_web_outcome(&w, &Ok(String::new()));
    assert_eq!(clear, vec![format!("{}/nginx.pid", run()), format!("{}/httpd.pid", run())]);
    assert_eq!(answer, Ok("web server stopped".to_string()));
}

#[test]
fn a_plain_stop_ignores_its_outcome() {
    let w = stop_web(&State::default().set_port(8080), HOME, BREW);
    let (clear, answer) = stop_web_outcome(&w, &Err("exit status 1".to_string()));
    assert_eq!(clear, vec![format!("{}/nginx.pid", run()), format!("{}/httpd.pid", run())]);
    assert_eq!(answer, Ok("web server stopped".to_string()));
}
