use tusk::engine::sites::{
    add, new_site_name, placeholder_index, reload_web, remove, site_added_message, site_name,
    site_root, system_sites, vhost_conf, vhost_dir, vhost_files, vhost_sites, Reload, Site,
};

const HOME: &str = "/Users/ann";
const BREW: &str = "/opt/homebrew";

fn site(n: &str, d: &str) -> Site {
    Site { name: n.to_string(), docroot: d.to_string() }
}

fn pairs(v: &[Site]) -> Vec<(String, String)> {
    v.iter().map(|s| (s.name.clone(), s.docroot.clone())).collect()
}

#[test]
fn system_sites_list() {
    assert_eq!(pairs(&system_sites(HOME, None)), vec![("localhost".to_string(), "/Users/ann/.chowk/apps/dashboard".to_string())]);
    let v = system_sites(HOME, Some("/pma".to_string()));
    assert_eq!(v.len(), 2);
    assert_eq!(v[1].name, "pma");
    assert_eq!(v[1].docroot, "/pma");
}

#[test]
fn site_names_are_normalized() {
    for n in ["  myapp.test ", "myapp", "myapp.test.test", "a .test", ".test", "shop.testing"] {
        assert_eq!(site_name(n), n.trim().trim_end_matches(".test"), "input {:?}", n);
    }
}

#[test]
fn new_site_names_are_checked() {
    assert_eq!(new_site_name(" blog.test ").ok().unwrap(), "blog");
    assert_eq!(new_site_name("  ").err().unwrap(), "Site name required");
    assert_eq!(new_site_name(".test").err().unwrap(), "Site name required");
    assert_eq!(new_site_name("pma.test").err().unwrap(), "'pma' is a reserved system site");
    assert_eq!(new_site_name("localhost").err().unwrap(), "'localhost' is a reserved system site");
}

#[test]
fn site_roots() {
    assert_eq!(site_root(HOME, "blog", "  "), ("/Users/ann/Sites/blog".to_string(), true));
    assert_eq!(site_root(HOME, "blog", " /srv/blog "), ("/srv/blog".to_string(), false));
    let (p, body) = placeholder_index("/Users/ann/Sites/blog");
    assert_eq!(p, "/Users/ann/Sites/blog/index.php");
    assert_eq!(body, "<?php phpinfo();\n");
}

#[test]
fn adding_and_removing_sites() {
    let sites = vec![site("a", "/a"), site("b", "/b")];
    let (folder, outcome) = add(&sites, "a", "/x", HOME);
    assert_eq!(folder, None);
    assert_eq!(outcome.err().unwrap(), "Site 'a' already exists");
    let (folder, outcome) = add(&sites, " c.test ", " /c ", HOME);
    assert_eq!(folder, None);
    let (added, name) = outcome.ok().unwrap();
    assert_eq!(name, "c");
    assert_eq!(pairs(&added), pairs(&[site("a", "/a"), site("b", "/b"), site("c", "/c")]));
    assert_eq!(site_added_message("c", "test"), "Site added: c.test");
    let (rest, m) = remove(&added, " c.test ").ok().unwrap();
    assert_eq!(pairs(&rest), pairs(&sites));
    assert_eq!(m, "Site removed: c");
    assert_eq!(remove(&sites, "zzz").err().unwrap(), "Site 'zzz' not found");
}

#[test]
fn adding_refuses_empty_and_reserved_names() {
    let none: Vec<Site> = vec![];
    let (folder, outcome) = add(&none, "pma", "", HOME);
    assert_eq!(folder, None);
    assert_eq!(outcome.err().unwrap(), "'pma' is a reserved system site");
    let (_, outcome) = add(&none, "localhost.test", "", HOME);
    assert_eq!(outcome.err().unwrap(), "'localhost' is a reserved system site");
    let (folder, outcome) = add(&none, "", "", HOME);
    assert_eq!(folder, None);
    assert_eq!(outcome.err().unwrap(), "Site name required");
    let (_, outcome) = add(&none, " .test ", "/x", HOME);
    assert_eq!(outcome.err().unwrap(), "Site name required");
}

#[test]
fn adding_with_the_default_folder() {
    let sites = vec![site("blog", "/srv/blog")];
    // The default folder is prepared even when the site exists already.
    let (folder, outcome) = add(&sites, "blog", "  ", HOME);
    assert_eq!(folder, Some("/Users/ann/Sites/blog".to_string()));
    assert_eq!(outcome.err().unwrap(), "Site 'blog' already exists");
    let (folder, outcome) = add(&sites, "shop.test", "", HOME);
    assert_eq!(folder, Some("/Users/ann/Sites/shop".to_string()));
    let (added, _) = outcome.ok().unwrap();
    assert_eq!(pairs(&added), pairs(&[site("blog", "/srv/blog"), site("shop", "/Users/ann/Sites/shop")]));
}

#[test]
fn add_then_remove_by_typed_name_restores_list() {
    let sites = vec![site("a", "/a")];
    let typed = "  shop.test";
    let (added, _) = add(&sites, typed, "/shop", HOME).1.ok().unwrap();
    let (rest, _) = remove(&added, typed).ok().unwrap();
    assert_eq!(pairs(&rest), pairs(&sites));
}

fn expected_vhost(server: &str, port: u16, tld: &str, s: &Site, sock: &str, brew: &str) -> String {
    let server_name = format!("{}.{}", s.name, tld);
    match server {
        "apache" => format!(
            "<VirtualHost *:{port}>\n\
             \x20 ServerName {server_name}\n\
             \x20 DocumentRoot \"{root}\"\n\
             \x20 <Directory \"{root}\">\n\
             \x20\x20\x20 AllowOverride All\n\
             \x20\x20\x20 Require all granted\n\
             \x20\x20\x20 DirectoryIndex index.php index.html\n\
             \x20 </Directory>\n\
             \x20 <FilesMatch \\.php$>\n\
             \x20\x20\x20 SetHandler \"proxy:unix:{sock}|fcgi://localhost/\"\n\
             \x20 </FilesMatch>\n\
             </VirtualHost>\n",
            port = port,
            server_name = server_name,
            root = s.docroot,
            sock = sock,
        ),
        _ => format!(
            "server {{\n\
             \x20 listen {port};\n\
             \x20 server_name {server_name};\n\
             \x20 root {root};\n\
             \x20 index index.php index.html index.htm;\n\
             \x20 location / {{ try_files $uri $uri/ /index.php?$query_string; }}\n\
             \x20 location ~ \\.php$ {{\n\
             \x20\x20\x20 try_files $uri =404;\n\
             \x20\x20\x20 fastcgi_split_path_info ^(.+\\.php)(/.+)$;\n\
             \x20\x20\x20 fastcgi_pass unix:{sock};\n\
             \x20\x20\x20 fastcgi_index index.php;\n\
             \x20\x20\x20 include {brew}/etc/nginx/fastcgi_params;\n\
             \x20\x20\x20 fastcgi_param SCRIPT_FILENAME $document_root$fastcgi_script_name;\n\
             \x20 }}\n\
             }}\n",
            port = port,
            server_name = server_name,
            root = s.docroot,
            sock = sock,
            brew = brew,
        ),
    }
}

#[test]
fn virtual_host_texts() {
    let s = site("blog", "/Users/ann/Sites/blog");
    for server in ["apache", "nginx", "other"] {
        for port in [80u16, 8080] {
            assert_eq!(vhost_conf(server, port, "test", &s, "/sock", BREW), expected_vhost(server, port, "test", &s, "/sock", BREW));
        }
    }
}

#[test]
fn virtual_host_files() {
    let sites = vhost_sites(&vec![site("blog", "/b")], Some("/pma".to_string()));
    assert_eq!(pairs(&sites), vec![("blog".to_string(), "/b".to_string()), ("pma".to_string(), "/pma".to_string())]);
    assert_eq!(vhost_dir(HOME, "nginx"), "/Users/ann/.chowk/etc/nginx-sites");
    let files = vhost_files("apache", 80, "test", &sites, HOME, BREW);
    assert_eq!(files.len(), 2);
    assert_eq!(files[0].path, "/Users/ann/.chowk/etc/apache-sites/blog.conf");
    assert_eq!(files[1].path, "/Users/ann/.chowk/etc/apache-sites/pma.conf");
    assert_eq!(files[1].body, expected_vhost("apache", 80, "test", &sites[1], "/Users/ann/.chowk/run/php.sock", BREW));
    assert_eq!(vhost_sites(&vec![], None).len(), 0);
}

#[test]
fn reloading_the_web_server() {
    assert!(reload_web("nginx", 80, HOME, BREW, false).is_none());
    match reload_web("apache", 80, HOME, BREW, true).unwrap() {
        Reload::Privileged(s) => assert_eq!(s, "/opt/homebrew/bin/httpd -f /Users/ann/.chowk/etc/httpd.conf -k graceful"),
        _ => panic!(),
    }
    match reload_web("nginx", 8080, HOME, BREW, true).unwrap() {
        Reload::Direct(c) => {
            assert_eq!(c.program, "/opt/homebrew/bin/nginx");
            assert_eq!(c.args, vec!["-c", "/Users/ann/.chowk/etc/nginx.conf", "-s", "reload"]);
        },
        _ => panic!(),
    }
}

#[test]
fn both_servers_get_files_for_the_same_sites() {
    let sites = vec![site("a", "/a"), site("b", "/b")];
    let n = vhost_files("nginx", 80, "test", &sites, HOME, BREW);
    let a = vhost_files("apache", 80, "test", &sites, HOME, BREW);
    let names = |v: &[tusk::engine::sites::ConfFile]| -> Vec<String> {
        v.iter().map(|f| f.path.rsplit('/').next().unwrap().to_string()).collect()
    };
    assert_eq!(names(&n), names(&a));
    assert_eq!(names(&n), vec!["a.conf", "b.conf"]);
}
