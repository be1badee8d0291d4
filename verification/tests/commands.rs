use tusk::commands::{
    already_installed_message, brew_install_line, dns_ready_message, dns_script, extract_line,
    extracted_dir, hex_string, install_log_path, install_step_message, installed_message,
    installing_message, logged_command, logged_failure, pecl_dependencies, pecl_install_line,
    phpmyadmin_config, phpmyadmin_download_line, phpmyadmin_step_message, service_formula,
    terminal_script, DirEntry, building_message, dependency_message, downloading_message,
    first_run_plan, install_everything_plan, php_formula, SetupAction,
};
use tusk::engine::State;

#[test]
fn install_log() {
    assert_eq!(install_log_path("/Users/ann"), "/Users/ann/.chowk/logs/install.log");
    let cmd = "brew install nginx";
    let log = "/l/install.log";
    assert_eq!(logged_command(cmd, log), format!("printf '\\n$ %s\\n' \"{cmd}\" >> '{log}'; {cmd} >> '{log}' 2>&1"));
    assert_eq!(logged_failure(log), "command failed \u{2014} see log: /l/install.log");
}

#[test]
fn formulas_of_services() {
    let s = State::default();
    assert_eq!(service_formula("web", &s), Ok("nginx".to_string()));
    let a = s.set_web_server("apache", false).ok().unwrap();
    assert_eq!(service_formula("web", &a), Ok("httpd".to_string()));
    assert_eq!(service_formula("redis", &s), Ok("redis".to_string()));
    assert_eq!(service_formula("php", &s), Ok("php@8.2".to_string()));
    assert_eq!(service_formula("ftp", &s), Err("no installer for ftp".to_string()));
}

#[test]
fn progress_messages() {
    assert_eq!(brew_install_line("/b/bin/brew", "nginx"), "/b/bin/brew install nginx");
    assert_eq!(already_installed_message("nginx"), "nginx already installed");
    assert_eq!(installed_message("nginx"), "nginx installed");
    assert_eq!(installing_message("nginx"), "Installing nginx\u{2026}");
    assert_eq!(install_step_message("mariadb", 2, 4, false), format!("Installing {} \u{2014} {}/{}\u{2026}", "mariadb", 2, 4));
    assert_eq!(install_step_message("mariadb", 2, 6, true), format!("Installing {} \u{2014} step {}/{}\u{2026}", "mariadb", 2, 6));
    assert_eq!(phpmyadmin_step_message(4), "Setting up phpMyAdmin \u{2014} 4/4\u{2026}");
}

#[test]
fn pecl_build_prerequisites() {
    assert_eq!(pecl_dependencies("Imagick"), vec!["pkg-config", "imagemagick"]);
    assert_eq!(pecl_dependencies("mongodb"), vec!["pkg-config", "openssl@3"]);
    assert!(pecl_dependencies("redis").is_empty());
    assert_eq!(pecl_install_line("/b/pecl", "redis"), "yes '' | '/b/pecl' install 'redis'");
}

#[test]
fn dns_setup_script() {
    let tld = "test";
    let brew = "/opt/homebrew";
    let want = format!(
        "grep -q 'address=/.{tld}/127.0.0.1' {brew}/etc/dnsmasq.conf || echo 'address=/.{tld}/127.0.0.1' >> {brew}/etc/dnsmasq.conf; \
         {brew}/bin/brew services restart dnsmasq; \
         mkdir -p /etc/resolver; \
         echo 'nameserver 127.0.0.1' > /etc/resolver/{tld}",
    );
    assert_eq!(dns_script(tld, brew), want);
    assert_eq!(dns_ready_message("test"), "*.test now resolves to 127.0.0.1");
}

#[test]
fn hex_of_random_bytes() {
    let bytes = vec![0u8, 15, 16, 171, 255];
    let want: String = bytes.iter().map(|b| format!("{:02x}", b)).collect();
    assert_eq!(hex_string(&bytes), want);
    assert_eq!(hex_string(&vec![]), "");
}

#[test]
fn phpmyadmin_files_and_lines() {
    let secret = "00ff";
    let want = format!(
        "<?php\n\
         $cfg['blowfish_secret'] = '{secret}';\n\
         $i = 0;\n$i++;\n\
         $cfg['Servers'][$i]['auth_type'] = 'cookie';\n\
         $cfg['Servers'][$i]['host'] = '127.0.0.1';\n\
         $cfg['Servers'][$i]['port'] = '3306';\n\
         $cfg['Servers'][$i]['compress'] = false;\n\
         $cfg['Servers'][$i]['AllowNoPassword'] = true;\n\
         $cfg['UploadDir'] = '';\n\
         $cfg['SaveDir'] = '';\n",
        secret = secret
    );
    assert_eq!(phpmyadmin_config(secret), want);
    assert_eq!(
        phpmyadmin_download_line("/t.tar.xz"),
        "curl -fL --retry 3 --retry-delay 2 --connect-timeout 20 -o '/t.tar.xz' 'https://www.phpmyadmin.net/downloads/phpMyAdmin-latest-english.tar.xz'"
    );
    assert_eq!(extract_line("/t.tar.xz", "/s"), "tar -xf '/t.tar.xz' -C '/s'");
}

#[test]
fn extracted_directory() {
    let e = |n: &str, d: bool| DirEntry { name: n.to_string(), is_dir: d };
    assert_eq!(extracted_dir(&vec![e("phpMyAdmin.txt", false), e("x", true), e("phpMyAdmin-5.2.1", true)]), Ok(2));
    assert_eq!(extracted_dir(&vec![e("x", true)]), Err("phpMyAdmin folder not found in archive".to_string()));
}

#[test]
fn terminal_script_drops_quotes() {
    assert_eq!(
        terminal_script("/Users/ann/it's"),
        "tell application \"Terminal\"\nactivate\ndo script \"cd '/Users/ann/its'\"\nend tell"
    );
}

#[test]
fn status_lines() {
    assert_eq!(php_formula("8.3"), "php@8.3");
    assert_eq!(downloading_message("php@8.3"), "Downloading php@8.3\u{2026}");
    assert_eq!(dependency_message("imagemagick"), "Installing dependency imagemagick\u{2026}");
    assert_eq!(building_message("imagick"), "Building imagick (PECL)\u{2026}");
}

fn describe(a: &SetupAction) -> String {
    match a {
        SetupAction::Say(m) => format!("say {m}"),
        SetupAction::Install(f) => format!("install {f}"),
        SetupAction::PhpMyAdmin => "phpmyadmin".to_string(),
        SetupAction::Privileged(s) => format!("admin {s}"),
        SetupAction::StartAll => "start all".to_string(),
        SetupAction::DevResetRoot => "dev root".to_string(),
        SetupAction::RecordSetupDone => "setup done".to_string(),
    }
}

#[test]
fn first_run_without_homebrew() {
    let r = first_run_plan(&State::default(), "8.2", false, false, false, false, false, "/opt/homebrew");
    assert_eq!(
        r.err().unwrap(),
        "Homebrew is required. Install it first from https://brew.sh, then reopen Tusk."
    );
}

#[test]
fn first_run_steps_in_order() {
    let (st, steps, done) =
        first_run_plan(&State::default(), "8.2", true, false, true, false, false, "/opt/homebrew").ok().unwrap();
    assert_eq!(st.active_php, "8.2");
    assert!(!st.setup_done);
    assert_eq!(st.http_port, 80);
    let got: Vec<(String, bool)> = steps.iter().map(|s| (describe(&s.action), s.required)).collect();
    let expected: Vec<(String, bool)> = vec![
        (format!("say Installing php@8.2 \u{2014} step 1/5\u{2026}"), false),
        ("install php@8.2".to_string(), true),
        (format!("say Installing nginx \u{2014} step 2/5\u{2026}"), false),
        ("install nginx".to_string(), true),
        ("say Setting up phpMyAdmin\u{2026}".to_string(), false),
        ("phpmyadmin".to_string(), true),
        ("say Setting up .test domains (enter your Mac password)\u{2026}".to_string(), false),
        ("install dnsmasq".to_string(), true),
        (format!("admin {}", dns_script("test", "/opt/homebrew")), false),
        ("say Starting services (enter your Mac password)\u{2026}".to_string(), false),
        ("start all".to_string(), true),
        ("say Configuring database\u{2026}".to_string(), false),
        ("dev root".to_string(), false),
        ("setup done".to_string(), true),
    ];
    assert_eq!(got, expected);
    assert_eq!(done, "Setup complete \u{2014} http://localhost and http://pma.test are ready.");
}

#[test]
fn first_run_with_everything_installed() {
    let (_, steps, _) =
        first_run_plan(&State::default(), "8.3", true, true, true, true, true, "/opt/homebrew").ok().unwrap();
    let got: Vec<String> = steps.iter().map(|s| describe(&s.action)).collect();
    assert_eq!(got.len(), 9);
    assert_eq!(got[0], "say Setting up phpMyAdmin\u{2026}");
    assert!(got.iter().all(|d| !d.starts_with("install")));
}

#[test]
fn install_everything_includes_apache() {
    let (steps, done) = install_everything_plan("8.3", false, true, false, false);
    let got: Vec<(String, bool)> = steps.iter().map(|s| (describe(&s.action), s.required)).collect();
    let expected: Vec<(String, bool)> = vec![
        ("say Installing php@8.3 \u{2014} 1/4\u{2026}".to_string(), false),
        ("install php@8.3".to_string(), true),
        ("say Installing nginx \u{2014} 2/4\u{2026}".to_string(), false),
        ("install nginx".to_string(), true),
        ("say Installing httpd \u{2014} 3/4\u{2026}".to_string(), false),
        ("install httpd".to_string(), true),
        ("say Setting up phpMyAdmin \u{2014} 4/4\u{2026}".to_string(), false),
        ("phpmyadmin".to_string(), true),
    ];
    assert_eq!(got, expected);
    assert_eq!(done, "Installed PHP + MariaDB + Nginx + Apache + phpMyAdmin");
    let (steps, _) = install_everything_plan("8.3", true, true, true, true);
    let got: Vec<String> = steps.iter().map(|s| describe(&s.action)).collect();
    assert_eq!(got, vec!["say Setting up phpMyAdmin \u{2014} 1/1\u{2026}".to_string(), "phpmyadmin".to_string()]);
}
