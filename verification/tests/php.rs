use tusk::engine::php::{
    build_failed_message, built_extension, enable_built_extension, extensions_query, sort_extensions, built_extension_ini, clean_php_ini, conf_d,
    ext_ini_path, extension_modules, extensions, full_version, list, not_installed_error,
    pecl_bin, php_bin, php_fpm_bin, php_ini_dir, php_ini_path, relink_cli, set_extension, switch,
    uninstall, Extension, IniChange,
};
use tusk::engine::State;

#[test]
fn version_paths() {
    let p = "/opt/homebrew";
    assert_eq!(php_bin(p, "8.3"), format!("{}/opt/php@{}/bin/php", p, "8.3"));
    assert_eq!(php_fpm_bin(p, "8.3"), format!("{}/opt/php@{}/sbin/php-fpm", p, "8.3"));
    assert_eq!(php_ini_dir(p, "8.3"), format!("{}/etc/php/{}", p, "8.3"));
    assert_eq!(conf_d(p, "8.3"), format!("{}/etc/php/{}/conf.d", p, "8.3"));
    assert_eq!(pecl_bin(p, "8.3"), format!("{}/opt/php@{}/bin/pecl", p, "8.3"));
    assert_eq!(php_ini_path(p, "8.3"), "/opt/homebrew/etc/php/8.3/php.ini");
}

#[test]
fn full_version_is_trimmed_output() {
    assert_eq!(full_version(&Ok(" 8.3.33\n".to_string())), "8.3.33");
    assert_eq!(full_version(&Err("x".to_string())), "");
}

#[test]
fn version_list_marks_installed_and_active() {
    let probes = vec![None, Some(Ok("8.3.33\n".to_string())), Some(Err("broken".to_string())), None];
    let rows = list("8.3", &probes);
    let names: Vec<&str> = rows.iter().map(|r| r.version.as_str()).collect();
    assert_eq!(names, vec!["8.4", "8.3", "8.2", "8.1", "8.0", "7.4"]);
    assert!(!rows[0].installed && rows[0].full.is_empty());
    assert!(rows[1].installed && rows[1].active);
    assert_eq!(rows[1].full, "8.3.33");
    assert!(rows[2].installed && !rows[2].active);
    assert_eq!(rows[2].full, "");
    assert!(!rows[5].installed);
    assert_eq!(rows.iter().filter(|r| r.active).count(), 1);
}

#[test]
fn uninstall_steps() {
    let (c, m) = uninstall("8.1", false, "/opt/homebrew");
    assert!(c.is_none());
    assert_eq!(m, "php@8.1 not installed");
    let (c, m) = uninstall("8.1", true, "/opt/homebrew");
    let c = c.unwrap();
    assert_eq!(c.program, "/opt/homebrew/bin/brew");
    assert_eq!(c.args, vec!["uninstall", "--ignore-dependencies", "php@8.1"]);
    assert_eq!(m, "php@8.1 removed");
}

#[test]
fn switch_sets_only_the_active_version() {
    let s = State::default().set_port(8080);
    assert_eq!(switch(&s, "7.4", false).err().unwrap(), "php@7.4 is not installed");
    let (t, m) = switch(&s, "7.4", true).ok().unwrap();
    assert_eq!(t.active_php, "7.4");
    assert_eq!(t.http_port, 8080);
    assert_eq!(t.web_server, "nginx");
    assert_eq!(m, "Active PHP -> 7.4 (CLI + web)");
}

#[test]
fn relink_unlinks_all_then_links_active() {
    let cs = relink_cli("/b", "8.2");
    let lines: Vec<String> = cs.iter().map(|c| format!("{} {}", c.program, c.args.join(" "))).collect();
    assert_eq!(
        lines,
        vec![
            "/b/bin/brew unlink php",
            "/b/bin/brew unlink php@8.4",
            "/b/bin/brew unlink php@8.3",
            "/b/bin/brew unlink php@8.2",
            "/b/bin/brew unlink php@8.1",
            "/b/bin/brew unlink php@8.0",
            "/b/bin/brew unlink php@7.4",
            "/b/bin/brew link --overwrite --force php@8.2",
        ]
    );
}

#[test]
fn module_list_drops_headers_and_warnings() {
    let out = "[PHP Modules]\nCore\n  ctype \nWarning: something\nPHP Warning:  Module 'x' already loaded\nxdebug\n/usr/lib/foo.so\nmod(x)\n\n[Zend Modules]\nXdebug\nabcdefghijabcdefghijabcdefghijabcdefghijK\nZend OPcache\n";
    assert_eq!(
        extension_modules(out),
        vec!["Core", "ctype", "xdebug", "Xdebug", "Zend OPcache"]
    );
}

#[test]
fn module_name_limit_counts_bytes() {
    // 20 two-byte characters are 40 bytes: kept; 21 are 42 bytes: dropped.
    let ok: String = std::iter::repeat('\u{e9}').take(20).collect();
    let long: String = std::iter::repeat('\u{e9}').take(21).collect();
    assert_eq!(extension_modules(&format!("{}\n{}\n", ok, long)), vec![ok]);
}

fn names(v: &[Extension]) -> Vec<(String, bool, bool)> {
    v.iter().map(|e| (e.name.clone(), e.enabled, e.builtin)).collect()
}

#[test]
fn extension_list_is_sorted_case_insensitively() {
    let modules = vec!["Zend OPcache".to_string(), "curl".to_string(), "Core".to_string(), "xdebug".to_string()];
    let managed = vec![false, false, false, true];
    let files = vec![
        "ext-redis.ini.disabled".to_string(),
        "ext-xdebug.ini".to_string(),
        "other.ini".to_string(),
        "ext-APCu.ini.disabled".to_string(),
    ];
    let got = names(&extensions("8.3", true, &modules, &managed, &files).ok().unwrap());
    assert_eq!(
        got,
        vec![
            ("APCu".to_string(), false, false),
            ("Core".to_string(), true, true),
            ("curl".to_string(), true, true),
            ("redis".to_string(), false, false),
            ("xdebug".to_string(), true, false),
            ("Zend OPcache".to_string(), true, true),
        ]
    );
}

#[test]
fn extension_sort_is_stable() {
    let modules = vec!["B".to_string(), "a".to_string(), "b".to_string(), "A".to_string()];
    let got = names(&extensions("8.3", true, &modules, &vec![], &vec![]).ok().unwrap());
    let order: Vec<String> = got.into_iter().map(|e| e.0).collect();
    let mut want = modules.clone();
    want.sort_by(|a, b| a.to_lowercase().cmp(&b.to_lowercase()));
    assert_eq!(order, want);
}

#[test]
fn ini_paths_use_lowercase_names() {
    assert_eq!(ext_ini_path("/c", "Imagick"), "/c/ext-imagick.ini");
    let (p, body) = built_extension_ini("/c", "XDebug");
    assert_eq!(p, "/c/ext-xdebug.ini");
    assert_eq!(body, "zend_extension=xdebug\n");
    let (_, body) = built_extension_ini("/c", "OPcache");
    assert_eq!(body, "zend_extension=opcache\n");
    let (_, body) = built_extension_ini("/c", "Redis");
    assert_eq!(body, "extension=redis\n");
}

#[test]
fn built_extension_path() {
    assert_eq!(built_extension(&Ok(" /ext/dir\n".to_string()), "Redis"), "/ext/dir/redis.so");
    assert_eq!(built_extension(&Err("x".to_string()), "redis"), "/redis.so");
    assert_eq!(
        build_failed_message("Imagick"),
        "Build failed: imagick.so was not created. It likely needs a system library (e.g. imagick needs ImageMagick). Nothing was enabled."
    );
}

fn expected_clean(ini: &str, lower: &str) -> String {
    ini.lines()
        .filter(|l| {
            let t = l.trim().to_lowercase();
            !(t.contains(lower) && (t.starts_with("extension=") || t.starts_with("zend_extension=")))
        })
        .collect::<Vec<_>>()
        .join("\n")
}

#[test]
fn php_ini_cleaning() {
    let ini = "[PHP]\nmemory_limit = 128M\n  Extension=\"redis.so\"\nzend_extension=opcache\n;extension=redis\n";
    let cleaned = expected_clean(ini, "redis");
    assert_eq!(clean_php_ini(ini, "redis"), Some(cleaned.clone() + "\n"));
    assert_eq!(cleaned, "[PHP]\nmemory_limit = 128M\nzend_extension=opcache\n;extension=redis");
    // Nothing to remove and no trailing newline: nothing to write.
    assert_eq!(clean_php_ini("a=1\nb=2", "redis"), None);
    // Only the final newline differs: the file is rewritten all the same.
    assert_eq!(clean_php_ini("a=1\n", "redis"), Some("a=1\n".to_string()));
}

#[test]
fn toggling_extensions() {
    match set_extension("/c", "8.3", "Redis", true, false, "8.3") {
        Ok((IniChange::Enable { path, body, parked }, restart, m)) => {
            assert!(restart);
            assert_eq!(path, "/c/ext-redis.ini");
            assert_eq!(body, "extension=Redis\n");
            assert_eq!(parked, "/c/ext-redis.ini.disabled");
            assert_eq!(m, "Redis enabled");
        },
        _ => panic!("expected enable"),
    }
    match set_extension("/c", "8.3", "redis", false, true, "8.4") {
        Ok((IniChange::Park { from, to }, restart, m)) => {
            assert!(!restart);
            assert_eq!(from, "/c/ext-redis.ini");
            assert_eq!(to, "/c/ext-redis.ini.disabled");
            assert_eq!(m, "redis disabled");
        },
        _ => panic!("expected park"),
    }
    assert_eq!(
        set_extension("/c", "8.3", "json", false, false, "8.3").err().unwrap(),
        "'json' is compiled into php@8.3 and can't be disabled via ini."
    );
    assert_eq!(not_installed_error("8.0"), "php@8.0 is not installed");
}

#[test]
fn listing_extensions_needs_an_installed_version() {
    assert_eq!(extensions_query("/opt/homebrew", "7.4", false).err().unwrap(), "php@7.4 is not installed");
    let c = extensions_query("/opt/homebrew", "8.3", true).unwrap();
    assert_eq!(c.program, "/opt/homebrew/opt/php@8.3/bin/php");
    assert_eq!(
        c.args,
        vec!["-d", "display_errors=0", "-d", "display_startup_errors=0", "-d", "error_reporting=0", "-m"]
    );
}

#[test]
fn enabling_a_built_extension() {
    assert_eq!(
        enable_built_extension("/c", "8.3", "Imagick", false, "8.3").err().unwrap(),
        "Build failed: imagick.so was not created. It likely needs a system library (e.g. imagick needs ImageMagick). Nothing was enabled."
    );
    let b = enable_built_extension("/c", "8.3", "XDebug", true, "8.3").ok().unwrap();
    assert_eq!(b.ini_path, "/c/ext-xdebug.ini");
    assert_eq!(b.ini_body, "zend_extension=xdebug\n");
    assert!(b.restart);
    assert_eq!(b.message, "XDebug installed & enabled for php@8.3");
    let b = enable_built_extension("/c", "8.2", "redis", true, "8.3").ok().unwrap();
    assert_eq!(b.ini_body, "extension=redis\n");
    assert!(!b.restart);
}

#[test]
fn sorting_extensions_by_given_keys() {
    let e = |n: &str| Extension { name: n.to_string(), enabled: true, builtin: false };
    let exts = vec![e("b"), e("a"), e("c"), e("a2")];
    // The keys decide the order, whatever the names; equal keys keep their order.
    let keys = vec!["2".to_string(), "3".to_string(), "1".to_string(), "2".to_string()];
    let names: Vec<String> = sort_extensions(&exts, &keys).into_iter().map(|x| x.name).collect();
    assert_eq!(names, vec!["c", "b", "a2", "a"]);
}

#[test]
fn extensions_of_a_version_not_installed() {
    let modules = vec!["redis".to_string()];
    assert_eq!(
        extensions("7.4", false, &modules, &vec![true], &vec![]).err().unwrap(),
        "php@7.4 is not installed"
    );
}
