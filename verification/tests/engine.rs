use tusk::engine::{
    apps_dir, brew_bin, brew_prefix, brew_service_running, brew_started_set, brew_version,
    brew_versions_map, chowk_home, join_path, etc_dir, logs_dir, parse_int32, phpmyadmin_docroot,
    pid_alive_command, privileged_result, privileged_script, required_dirs, run_dir, run_result,
    sites_json, state_file, www_dir, ProcessOutput, State,
};
use tusk::text::chars_of;

#[test]
fn paths_under_home() {
    assert_eq!(chowk_home("/Users/ann"), "/Users/ann/.chowk");
    assert_eq!(chowk_home("/Users/ann/"), "/Users/ann/.chowk");
    assert_eq!(chowk_home(""), ".chowk");
    assert_eq!(etc_dir("/Users/ann"), "/Users/ann/.chowk/etc");
    assert_eq!(logs_dir("/Users/ann"), "/Users/ann/.chowk/logs");
    assert_eq!(run_dir("/Users/ann"), "/Users/ann/.chowk/run");
    assert_eq!(apps_dir("/Users/ann"), "/Users/ann/.chowk/apps");
    assert_eq!(sites_json("/Users/ann"), "/Users/ann/.chowk/etc/sites.json");
    assert_eq!(state_file("/Users/ann"), "/Users/ann/.chowk/desktop-state.json");
    assert_eq!(www_dir("/tmp"), "/tmp/Sites");
}

#[test]
fn paths_match_std_join() {
    for home in ["/Users/ann", "/", "/tmp/", "rel"] {
        let want = std::path::PathBuf::from(home).join(".chowk").join("etc").display().to_string();
        assert_eq!(etc_dir(home), want);
    }
}

#[test]
fn required_dirs_in_order() {
    assert_eq!(
        required_dirs("/h"),
        vec!["/h/.chowk/etc", "/h/.chowk/logs", "/h/.chowk/run", "/h/.chowk/apps", "/h/Sites"]
    );
}

#[test]
fn default_state_is_first_run() {
    let s = State::default();
    assert!(!s.license_accepted);
    assert_eq!(s.web_server, "nginx");
    assert_eq!(s.http_port, 80);
    assert_eq!(s.active_php, "8.2");
    assert_eq!(s.tld, "test");
    assert!(!s.setup_done);
}

#[test]
fn state_changes_touch_one_setting() {
    let s = State::default();
    let a = s.accept_license();
    assert!(a.license_accepted);
    assert_eq!(a.http_port, 80);
    let p = a.set_port(8080);
    assert_eq!(p.http_port, 8080);
    assert!(p.license_accepted);
    let v = p.set_active_php("8.4");
    assert_eq!(v.active_php, "8.4");
    assert_eq!(v.http_port, 8080);
    let d = v.mark_setup_done();
    assert!(d.setup_done);
    assert_eq!(d.active_php, "8.4");
    assert!(!v.setup_done);
    assert!(d.set_port(80).setup_done);
}

#[test]
fn web_server_choice_is_checked() {
    let s = State::default();
    assert_eq!(s.set_web_server("caddy", false).err().unwrap(), "server must be 'nginx' or 'apache'");
    assert_eq!(
        s.set_web_server("apache", true).err().unwrap(),
        "Stop the web server before switching (Services \u{2192} power off)."
    );
    let t = s.set_web_server("apache", false).ok().unwrap();
    assert_eq!(t.web_server, "apache");
    assert!(t.uses_apache());
    assert!(!s.uses_apache());
}

#[test]
fn brew_prefix_from_output() {
    assert_eq!(brew_prefix(&Ok("/usr/local\n".to_string())), "/usr/local");
    assert_eq!(brew_prefix(&Err("no brew".to_string())), "/opt/homebrew");
    assert_eq!(brew_bin("/opt/homebrew"), "/opt/homebrew/bin/brew");
}

#[test]
fn brew_version_is_second_word() {
    assert_eq!(brew_version(&Ok("nginx 1.27.3\n".to_string())), "1.27.3");
    assert_eq!(brew_version(&Ok("nginx\n".to_string())), "");
    assert_eq!(brew_version(&Err("x".to_string())), "");
}

const SERVICES: &str = "Name    Status  User File\nmariadb started ann  ~/Library/LaunchAgents/homebrew.mxcl.mariadb.plist\nredis   none\nmailpit started ann\n";

#[test]
fn service_running_needs_name_and_started() {
    assert!(brew_service_running("mariadb", &Ok(SERVICES.to_string())));
    assert!(!brew_service_running("redis", &Ok(SERVICES.to_string())));
    assert!(!brew_service_running("mariadb", &Err("x".to_string())));
    // The line only needs to start with the name.
    assert!(brew_service_running("mail", &Ok(SERVICES.to_string())));
}

#[test]
fn versions_map_keeps_last_version() {
    let m = brew_versions_map(&Ok("nginx 1.27.3\nphp@8.2 8.2.20\n\nmariadb\nnginx 1.28.0\n".to_string()));
    assert!(m.installed("nginx"));
    assert_eq!(m.version("nginx"), "1.28.0");
    assert_eq!(m.version("php@8.2"), "8.2.20");
    assert!(m.installed("mariadb"));
    assert_eq!(m.version("mariadb"), "");
    assert!(!m.installed("redis"));
    assert_eq!(m.version("redis"), "");
    let e = brew_versions_map(&Err("x".to_string()));
    assert!(!e.installed("nginx"));
}

#[test]
fn started_set_from_services_list() {
    let s = brew_started_set(&Ok(SERVICES.to_string()));
    assert!(s.contains("mariadb"));
    assert!(s.contains("mailpit"));
    assert!(!s.contains("redis"));
    assert!(!s.contains("Name"));
}

fn out(success: bool, stdout: &str, stderr: &str) -> Result<ProcessOutput, String> {
    Ok(ProcessOutput { success, stdout: stdout.to_string(), stderr: stderr.to_string() })
}

#[test]
fn run_results() {
    assert_eq!(run_result("brew", &out(true, " ok\n", "")), Ok(" ok\n".to_string()));
    assert_eq!(
        run_result("brew", &out(false, " partial \n", " Error: nope\n")),
        Err("brew failed: Error: nopepartial".to_string())
    );
    assert_eq!(
        run_result("brew", &Err("No such file or directory (os error 2)".to_string())),
        Err("failed to spawn brew: No such file or directory (os error 2)".to_string())
    );
}

#[test]
fn applescript_escapes_quotes_and_backslashes() {
    let script = "echo \"a\\b\" > /etc/x";
    let escaped = script.replace('\\', "\\\\").replace('"', "\\\"");
    assert_eq!(
        privileged_script(script),
        format!("do shell script \"{}\" with administrator privileges", escaped)
    );
    assert_eq!(privileged_script("ls"), "do shell script \"ls\" with administrator privileges");
}

#[test]
fn privileged_outcomes() {
    assert_eq!(privileged_result(&out(true, "done", "")), Ok("done".to_string()));
    assert_eq!(privileged_result(&out(false, "", "User canceled.")), Err("User canceled.".to_string()));
    assert_eq!(
        privileged_result(&Err("denied".to_string())),
        Err("osascript spawn failed: denied".to_string())
    );
}

#[test]
fn parses_i32_like_std() {
    for s in ["123", "-5", "+7", "", "-", "+", "12a", "2147483647", "2147483648", "-2147483648", "-2147483649", "0042", "99999999999999999999"] {
        assert_eq!(parse_int32(&chars_of(s)), s.parse::<i32>().ok(), "input {:?}", s);
    }
}

#[test]
fn pid_check_command() {
    let c = pid_alive_command(" 4242\n").unwrap();
    assert_eq!(c.program, "ps");
    assert_eq!(c.args, vec!["-p", "4242", "-o", "pid="]);
    let c = pid_alive_command("+007").unwrap();
    assert_eq!(c.args[1], "7");
    assert!(pid_alive_command("abc").is_none());
    assert!(pid_alive_command("").is_none());
}

#[test]
fn phpmyadmin_location() {
    assert_eq!(
        phpmyadmin_docroot("/h", true, true, "/opt/homebrew"),
        Some("/h/.chowk/apps/phpmyadmin".to_string())
    );
    assert_eq!(
        phpmyadmin_docroot("/h", false, true, "/opt/homebrew"),
        Some("/opt/homebrew/share/phpmyadmin".to_string())
    );
    assert_eq!(phpmyadmin_docroot("/h", false, false, "/opt/homebrew"), None);
}

fn applescript_unescape(body: &str) -> String {
    let mut out = String::new();
    let mut it = body.chars();
    while let Some(c) = it.next() {
        if c == '\\' {
            match it.next() {
                Some(n) => out.push(n),
                None => out.push(c),
            }
        } else {
            out.push(c);
        }
    }
    out
}

#[test]
fn applescript_literal_stands_for_the_script() {
    for script in ["plain", "a\\\"b", "\\\\", "say \"hi\"", ""] {
        let full = privileged_script(script);
        let body = full
            .strip_prefix("do shell script \"")
            .unwrap()
            .strip_suffix("\" with administrator privileges")
            .unwrap();
        assert_eq!(applescript_unescape(body), script);
    }
}

#[test]
fn joining_paths() {
    assert_eq!(join_path("/a", "b"), "/a/b");
    assert_eq!(join_path("/a/", "b"), "/a/b");
    assert_eq!(join_path("", "b"), "b");
    // An absolute part replaces the base, as with a path join.
    assert_eq!(join_path("/a", "/b"), "/b");
    assert_eq!(join_path("/Users/ann/Sites", "/x"), "/x");
}
