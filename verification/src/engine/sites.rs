//! Sites: a list of {name, docroot} kept as JSON. Server-specific virtual
//! host files are generated on demand, so the same sites work whether the
//! user runs Nginx or Apache.

use super::{
    apps_dir, command, etc_dir, is_command, join, join_path, spec_apps_dir, spec_etc_dir,
    spec_www_dir, www_dir, Command,
};
use super::services::spec_php_sock;
use crate::text::{
    cat, cat3, chars_of, decimal, decimal_string, ends_with, str_eq, string_of_range,
    trim, trimmed,
};
use vstd::prelude::*;
use vstd::string::StringExecFns;

verus! {

/// A site: `<name>.<tld>` served from `docroot`.
pub struct Site {
    pub name: String,
    pub docroot: String,
}

/// The name and document root of a site.
pub open spec fn site_view(s: Site) -> (Seq<char>, Seq<char>) {
    (s.name@, s.docroot@)
}

/// The views of a list of sites.
pub open spec fn sites_view(s: Seq<Site>) -> Seq<(Seq<char>, Seq<char>)> {
    s.map_values(|x: Site| site_view(x))
}

/// A copy of a site.
pub fn copy_site(s: &Site) -> (r: Site)
    ensures
        site_view(r) == site_view(*s),
{
    Site { name: s.name.clone(), docroot: s.docroot.clone() }
}

/// Names of the system sites that users can neither create nor delete.
pub open spec fn reserved() -> Seq<Seq<char>> {
    seq!["localhost"@, "pma"@]
}

/// System sites, always present and not deletable: the dashboard, and
/// phpMyAdmin when it is installed.
pub fn system_sites(home: &str, phpmyadmin: Option<String>) -> (r: Vec<Site>)
    ensures
        phpmyadmin is None ==> sites_view(r@) == seq![
            ("localhost"@, join(spec_apps_dir(home@), "dashboard"@)),
        ],
        phpmyadmin matches Some(d) ==> sites_view(r@) == seq![
            ("localhost"@, join(spec_apps_dir(home@), "dashboard"@)),
            ("pma"@, d@),
        ],
{
    let mut v: Vec<Site> = Vec::new();
    v.push(
        Site {
            name: "localhost".to_owned(),
            docroot: join_path(apps_dir(home).as_str(), "dashboard"),
        },
    );
    match phpmyadmin {
        Some(d) => {
            v.push(Site { name: "pma".to_owned(), docroot: d });
        },
        None => {},
    }
    assert(sites_view(v@) =~= match phpmyadmin {
        Some(d) => seq![("localhost"@, join(spec_apps_dir(home@), "dashboard"@)), ("pma"@, d@)],
        None => seq![("localhost"@, join(spec_apps_dir(home@), "dashboard"@))],
    });
    v
}

// ---------------------------------------------------------------------------
// Names
// ---------------------------------------------------------------------------

/// `s` with every trailing copy of `p` removed.
pub open spec fn strip_suffixes(s: Seq<char>, p: Seq<char>) -> Seq<char>
    decreases s.len(),
{
    if p.len() > 0 && ends_with(s, p) {
        strip_suffixes(s.subrange(0, s.len() - p.len()), p)
    } else {
        s
    }
}

/// The site name a user typed, trimmed and without any trailing `.test`.
pub open spec fn normalize_name(name: Seq<char>) -> Seq<char> {
    strip_suffixes(trim(name), ".test"@)
}

/// The normalized site name (see `normalize_name`).
pub fn site_name(name: &str) -> (r: String)
    ensures
        r@ == normalize_name(name@),
{
    let v = chars_of(trimmed(name).as_str());
    let p = chars_of(".test");
    let mut end = v.len();
    assert(v@.subrange(0, end as int) =~= v@);
    proof {
        reveal_strlit(".test");
    }
    while end >= p.len() && crate::text::range_eq(&v, end - p.len(), end, &p)
        invariant
            end <= v.len(),
            p@ == ".test"@,
            p@.len() == 5,
            strip_suffixes(v@.subrange(0, end as int), p@) == normalize_name(name@),
        decreases end,
    {
        let ghost s = v@.subrange(0, end as int);
        assert(ends_with(s, p@)) by {
            assert(s.subrange(s.len() - p@.len(), s.len() as int) =~= v@.subrange(end - p@.len(), end as int));
        }
        assert(s.subrange(0, s.len() - p@.len()) =~= v@.subrange(0, end - p@.len()));
        end = end - p.len();
    }
    proof {
        let s = v@.subrange(0, end as int);
        if ends_with(s, p@) {
            assert(s.subrange(s.len() - p@.len(), s.len() as int) =~= v@.subrange(end - p@.len(), end as int));
        }
    }
    string_of_range(&v, 0, end)
}

/// Stripping removes every trailing copy of the suffix.
proof fn lemma_strip_suffixes(s: Seq<char>, p: Seq<char>)
    requires
        p.len() > 0,
    ensures
        !ends_with(strip_suffixes(s, p), p),
    decreases s.len(),
{
    if ends_with(s, p) {
        lemma_strip_suffixes(s.subrange(0, s.len() - p.len()), p);
    }
}

/// A normalized site name never ends with `.test`, so `<name>.test` never
/// doubles the suffix.
pub proof fn lemma_normalized_name(name: Seq<char>)
    ensures
        !ends_with(normalize_name(name), ".test"@),
{
    reveal_strlit(".test");
    lemma_strip_suffixes(trim(name), ".test"@);
}

/// Whether `name` is a reserved system site name.
pub fn is_reserved(name: &str) -> (r: bool)
    ensures
        r == reserved().contains(name@),
{
    let r = str_eq(name, "localhost") || str_eq(name, "pma");
    assert(reserved()[0] == "localhost"@ && reserved()[1] == "pma"@);
    r
}

/// Checking the name a user typed for a new site: the normalized name, or
/// why it cannot be used.
pub open spec fn spec_new_site_name(name: Seq<char>) -> Result<Seq<char>, Seq<char>> {
    let n = normalize_name(name);
    if n.len() == 0 {
        Err("Site name required"@)
    } else if reserved().contains(n) {
        Err("'"@ + n + "' is a reserved system site"@)
    } else {
        Ok(n)
    }
}

/// The name of a new site (see `spec_new_site_name`).
pub fn new_site_name(name: &str) -> (r: Result<String, String>)
    ensures
        crate::text::rview(r) == spec_new_site_name(name@),
{
    let n = site_name(name);
    if n.as_str().unicode_len() == 0 {
        return Err("Site name required".to_owned());
    }
    if is_reserved(n.as_str()) {
        return Err(cat3("'", n.as_str(), "' is a reserved system site"));
    }
    Ok(n)
}

// ---------------------------------------------------------------------------
// Adding and removing
// ---------------------------------------------------------------------------

/// Where a new site is served from: the document root the user gave
/// (trimmed), or `~/Sites/<name>` when none was given, in which case the
/// folder is to be created with a placeholder page.
pub open spec fn spec_site_root(home: Seq<char>, name: Seq<char>, docroot: Seq<char>) -> (Seq<char>, bool) {
    if trim(docroot).len() == 0 {
        (join(spec_www_dir(home), name), true)
    } else {
        (trim(docroot), false)
    }
}

/// The document root of a new site and whether its default folder must be
/// created (see `spec_site_root`).
pub fn site_root(home: &str, name: &str, docroot: &str) -> (r: (String, bool))
    ensures
        (r.0@, r.1) == spec_site_root(home@, name@, docroot@),
{
    let t = trimmed(docroot);
    if t.as_str().unicode_len() == 0 {
        (join_path(www_dir(home).as_str(), name), true)
    } else {
        (t, false)
    }
}

/// The placeholder page of a new default folder, and where it goes.
pub fn placeholder_index(dir: &str) -> (r: (String, &'static str))
    ensures
        r.0@ == join(dir@, "index.php"@),
        r.1@ == "<?php phpinfo();\n"@,
{
    (join_path(dir, "index.php"), "<?php phpinfo();\n")
}

/// Some site of `sites` is called `name`.
pub open spec fn has_site(sites: Seq<(Seq<char>, Seq<char>)>, name: Seq<char>) -> bool {
    exists|i: int| 0 <= i < sites.len() && (#[trigger] sites[i]).0 == name
}

/// No two sites share a name.
pub open spec fn unique_names(sites: Seq<(Seq<char>, Seq<char>)>) -> bool {
    forall|i: int, j: int| 0 <= i < j < sites.len() ==> (#[trigger] sites[i]).0 != (#[trigger] sites[j]).0
}

/// Adding the site `name` served from `root`: refused when a site of that
/// name exists, appended otherwise.
pub open spec fn spec_add(sites: Seq<(Seq<char>, Seq<char>)>, name: Seq<char>, root: Seq<char>) -> Result<
    Seq<(Seq<char>, Seq<char>)>,
    Seq<char>,
> {
    if has_site(sites, name) {
        Err("Site '"@ + name + "' already exists"@)
    } else {
        Ok(sites.push((name, root)))
    }
}

/// Whether a site is called `name`.
fn find_site(sites: &Vec<Site>, name: &str) -> (r: bool)
    ensures
        r == has_site(sites_view(sites@), name@),
{
    let mut i: usize = 0;
    while i < sites.len()
        invariant
            0 <= i <= sites.len(),
            forall|j: int| 0 <= j < i ==> sites@[j].name@ != name@,
        decreases sites.len() - i,
    {
        if str_eq(sites[i].name.as_str(), name) {
            assert(sites_view(sites@)[i as int].0 == name@);
            return true;
        }
        i = i + 1;
    }
    assert forall|j: int| 0 <= j < sites_view(sites@).len() implies (#[trigger] sites_view(sites@)[j]).0 != name@ by {
        assert(sites_view(sites@)[j] == site_view(sites@[j]));
    }
    false
}

/// A copy of a list of sites.
pub fn copy_sites(sites: &Vec<Site>) -> (r: Vec<Site>)
    ensures
        sites_view(r@) == sites_view(sites@),
{
    let mut r: Vec<Site> = Vec::new();
    let mut i: usize = 0;
    while i < sites.len()
        invariant
            0 <= i <= sites.len(),
            sites_view(r@) == sites_view(sites@).take(i as int),
        decreases sites.len() - i,
    {
        assert(sites_view(r@).len() == r@.len());
        assert(r@.len() == i);
        let c = copy_site(&sites[i]);
        let ghost cv = site_view(c);
        let ghost before = r@;
        r.push(c);
        assert(r@[i as int] == c);
        assert(sites_view(r@) =~= sites_view(sites@).take(i + 1)) by {
            assert(sites_view(r@)[i as int] == cv);
            assert(sites_view(sites@)[i as int] == site_view(sites@[i as int]));
        }
        i = i + 1;
    }
    assert(sites_view(sites@).take(sites.len() as int) =~= sites_view(sites@));
    r
}

/// The site list with the site `name` served from `root` (see `spec_add`).
fn append_site(sites: &Vec<Site>, name: &str, root: &str) -> (r: Result<Vec<Site>, String>)
    ensures
        match r {
            Ok(v) => spec_add(sites_view(sites@), name@, root@) == Ok::<
                Seq<(Seq<char>, Seq<char>)>,
                Seq<char>,
            >(sites_view(v@)),
            Err(e) => spec_add(sites_view(sites@), name@, root@) == Err::<
                Seq<(Seq<char>, Seq<char>)>,
                Seq<char>,
            >(e@),
        },
{
    if find_site(sites, name) {
        return Err(cat3("Site '", name, "' already exists"));
    }
    let mut v = copy_sites(sites);
    let ghost before = v@;
    v.push(Site { name: name.to_owned(), docroot: root.to_owned() });
    assert(sites_view(v@) =~= sites_view(sites@).push((name@, root@))) by {
        assert(v@ == before.push(v@.last()));
    }
    Ok(v)
}

/// Adding the site a user typed as `name`, with the document root `docroot`
/// (blank for the default folder), to `sites`:
/// - the name must be valid (see `spec_new_site_name`), else its error;
/// - the default folder `~/Sites/<name>` is to be prepared whenever the name
///   is valid and `docroot` is blank, even if the site then turns out to
///   exist already;
/// - the site list with the site appended and its normalized name, or the
///   error of a site of that name existing (see `spec_add`).
pub open spec fn spec_add_site(
    sites: Seq<(Seq<char>, Seq<char>)>,
    name: Seq<char>,
    docroot: Seq<char>,
    home: Seq<char>,
) -> (Option<Seq<char>>, Result<(Seq<(Seq<char>, Seq<char>)>, Seq<char>), Seq<char>>) {
    match spec_new_site_name(name) {
        Err(e) => (None, Err(e)),
        Ok(n) => {
            let (root, create) = spec_site_root(home, n, docroot);
            (
                if create {
                    Some(root)
                } else {
                    None
                },
                match spec_add(sites, n, root) {
                    Ok(v) => Ok((v, n)),
                    Err(e) => Err(e),
                },
            )
        },
    }
}

/// The views of what `add` gives.
pub open spec fn added_view(r: (Option<String>, Result<(Vec<Site>, String), String>)) -> (
    Option<Seq<char>>,
    Result<(Seq<(Seq<char>, Seq<char>)>, Seq<char>), Seq<char>>,
) {
    (
        match r.0 {
            Some(f) => Some(f@),
            None => None,
        },
        match r.1 {
            Ok((v, n)) => Ok((sites_view(v@), n@)),
            Err(e) => Err(e@),
        },
    )
}

/// Adding a site (see `spec_add_site`): the default folder to prepare, if
/// any, and the new site list with the site's normalized name, or why the
/// site cannot be added.
pub fn add(sites: &Vec<Site>, name: &str, docroot: &str, home: &str) -> (r: (
    Option<String>,
    Result<(Vec<Site>, String), String>,
))
    ensures
        added_view(r) == spec_add_site(sites_view(sites@), name@, docroot@, home@),
{
    let n = match new_site_name(name) {
        Ok(n) => n,
        Err(e) => return (None, Err(e)),
    };
    let (root, create) = site_root(home, n.as_str(), docroot);
    let folder = if create {
        Some(root.clone())
    } else {
        None
    };
    match append_site(sites, n.as_str(), root.as_str()) {
        Ok(v) => (folder, Ok((v, n))),
        Err(e) => (folder, Err(e)),
    }
}

/// The message once a site was added.
pub fn site_added_message(name: &str, tld: &str) -> (r: String)
    ensures
        r@ == "Site added: "@ + name@ + "."@ + tld@,
{
    let mut r = cat3("Site added: ", name, ".");
    r.append(tld);
    r
}

/// The sites that are not called `name`, in order.
pub open spec fn without_named(sites: Seq<(Seq<char>, Seq<char>)>, name: Seq<char>) -> Seq<(Seq<char>, Seq<char>)>
    decreases sites.len(),
{
    if sites.len() == 0 {
        seq![]
    } else {
        without_named(sites.drop_last(), name) + (if sites.last().0 == name {
            seq![]
        } else {
            seq![sites.last()]
        })
    }
}

/// Removing the site a user named: the remaining sites and a message, or an
/// error when no site had that (normalized) name.
pub open spec fn spec_remove(sites: Seq<(Seq<char>, Seq<char>)>, name: Seq<char>) -> Result<
    (Seq<(Seq<char>, Seq<char>)>, Seq<char>),
    Seq<char>,
> {
    let n = normalize_name(name);
    let rest = without_named(sites, n);
    if rest.len() == sites.len() {
        Err("Site '"@ + n + "' not found"@)
    } else {
        Ok((rest, "Site removed: "@ + n))
    }
}

/// A list without the site `name` is unchanged by removing it.
proof fn lemma_without_absent(sites: Seq<(Seq<char>, Seq<char>)>, name: Seq<char>)
    requires
        !has_site(sites, name),
    ensures
        without_named(sites, name) == sites,
    decreases sites.len(),
{
    if sites.len() > 0 {
        assert(!has_site(sites.drop_last(), name)) by {
            if has_site(sites.drop_last(), name) {
                let i = choose|i: int| 0 <= i < sites.drop_last().len() && (#[trigger] sites.drop_last()[i]).0 == name;
                assert(sites[i].0 == name);
            }
        }
        lemma_without_absent(sites.drop_last(), name);
        assert(sites[sites.len() - 1].0 != name);
        assert(sites.drop_last() + seq![sites.last()] =~= sites);
    }
}

/// The site list without the site a user named (see `spec_remove`).
pub fn remove(sites: &Vec<Site>, name: &str) -> (r: Result<(Vec<Site>, String), String>)
    ensures
        match r {
            Ok((v, m)) => spec_remove(sites_view(sites@), name@) == Ok::<
                (Seq<(Seq<char>, Seq<char>)>, Seq<char>),
                Seq<char>,
            >((sites_view(v@), m@)),
            Err(e) => spec_remove(sites_view(sites@), name@) == Err::<
                (Seq<(Seq<char>, Seq<char>)>, Seq<char>),
                Seq<char>,
            >(e@),
        },
{
    let n = site_name(name);
    let ghost all = sites_view(sites@);
    let mut v: Vec<Site> = Vec::new();
    let mut i: usize = 0;
    while i < sites.len()
        invariant
            0 <= i <= sites.len(),
            all == sites_view(sites@),
            sites_view(v@) == without_named(all.take(i as int), n@),
        decreases sites.len() - i,
    {
        assert(all.take(i + 1).drop_last() =~= all.take(i as int));
        assert(all[i as int] == site_view(sites@[i as int]));
        if !str_eq(sites[i].name.as_str(), n.as_str()) {
            let ghost before = v@;
            v.push(copy_site(&sites[i]));
            assert(sites_view(v@) =~= sites_view(before) + seq![all[i as int]]) by {
                assert(v@ == before.push(v@.last()));
            }
        } else {
            assert(sites_view(v@) =~= sites_view(v@) + Seq::<(Seq<char>, Seq<char>)>::empty());
        }
        i = i + 1;
    }
    assert(all.take(sites.len() as int) =~= all);
    if v.len() == sites.len() {
        return Err(cat3("Site '", n.as_str(), "' not found"));
    }
    let m = cat("Site removed: ", n.as_str());
    Ok((v, m))
}

/// Adding a site and then removing it by the name the user typed gives back
/// the list it was added to.
pub proof fn lemma_add_then_remove(
    sites: Seq<(Seq<char>, Seq<char>)>,
    typed: Seq<char>,
    docroot: Seq<char>,
    home: Seq<char>,
    added: Seq<(Seq<char>, Seq<char>)>,
    name: Seq<char>,
)
    requires
        spec_add_site(sites, typed, docroot, home).1 == Ok::<
            (Seq<(Seq<char>, Seq<char>)>, Seq<char>),
            Seq<char>,
        >((added, name)),
    ensures
        spec_remove(added, typed) matches Ok((rest, _)) && rest == sites,
{
    let n = normalize_name(typed);
    assert(spec_new_site_name(typed) == Ok::<Seq<char>, Seq<char>>(n));
    let root = spec_site_root(home, n, docroot).0;
    assert(spec_add(sites, n, root) == Ok::<Seq<(Seq<char>, Seq<char>)>, Seq<char>>(added));
    lemma_without_absent(sites, n);
    assert(added.drop_last() =~= sites);
    assert(added.last().0 == n);
    assert(without_named(added, n) =~= sites);
}

/// Adding a site keeps names unique, and the added name is never empty nor a
/// reserved system site.
pub proof fn lemma_add_keeps_names_unique(
    sites: Seq<(Seq<char>, Seq<char>)>,
    typed: Seq<char>,
    docroot: Seq<char>,
    home: Seq<char>,
    added: Seq<(Seq<char>, Seq<char>)>,
    name: Seq<char>,
)
    requires
        unique_names(sites),
        spec_add_site(sites, typed, docroot, home).1 == Ok::<
            (Seq<(Seq<char>, Seq<char>)>, Seq<char>),
            Seq<char>,
        >((added, name)),
    ensures
        unique_names(added),
        name.len() > 0,
        !reserved().contains(name),
        added.last().0 == name,
{
    let n = normalize_name(typed);
    assert(spec_new_site_name(typed) == Ok::<Seq<char>, Seq<char>>(n));
    let root = spec_site_root(home, n, docroot).0;
    assert(spec_add(sites, n, root) == Ok::<Seq<(Seq<char>, Seq<char>)>, Seq<char>>(added));
    assert forall|i: int, j: int| 0 <= i < j < added.len() implies (#[trigger] added[i]).0 != (#[trigger] added[j]).0 by {
        if j == added.len() - 1 {
            assert(added[i] == sites[i]);
            if sites[i].0 == n {
                assert(has_site(sites, n));
            }
        } else {
            assert(added[i] == sites[i] && added[j] == sites[j]);
        }
    }
}

/// `without_named` keeps exactly the sites not called `name`, in order, and
/// is as long as the list only when no site is called `name`.
proof fn lemma_without_named_filter(sites: Seq<(Seq<char>, Seq<char>)>, name: Seq<char>)
    ensures
        without_named(sites, name) == sites.filter(|s: (Seq<char>, Seq<char>)| s.0 != name),
        without_named(sites, name).len() == sites.len() <==> (forall|i: int|
            0 <= i < sites.len() ==> (#[trigger] sites[i]).0 != name),
        without_named(sites, name).len() <= sites.len(),
    decreases sites.len(),
{
    reveal(Seq::filter);
    let p = |s: (Seq<char>, Seq<char>)| s.0 != name;
    if sites.len() == 0 {
        assert(without_named(sites, name) =~= sites.filter(p));
    } else {
        let d = sites.drop_last();
        lemma_without_named_filter(d, name);
        if sites.last().0 == name {
            assert(without_named(sites, name) =~= without_named(d, name));
            assert(sites[sites.len() - 1].0 == name);
        } else {
            assert(without_named(sites, name) =~= without_named(d, name).push(sites.last()));
            assert((forall|i: int| 0 <= i < sites.len() ==> (#[trigger] sites[i]).0 != name) <==> (forall|i: int|
                0 <= i < d.len() ==> (#[trigger] d[i]).0 != name)) by {
                assert forall|i: int| 0 <= i < d.len() implies d[i] == sites[i] by {}
                if forall|i: int| 0 <= i < d.len() ==> (#[trigger] d[i]).0 != name {
                    assert forall|i: int| 0 <= i < sites.len() implies (#[trigger] sites[i]).0 != name by {
                        if i < d.len() {
                            assert(d[i] == sites[i]);
                        }
                    }
                }
            }
        }
        assert(sites.drop_last().filter(p) == d.filter(p));
    }
}

/// Removing the site a user typed drops exactly the sites of that
/// (normalized) name and keeps every other site, in order; it is refused,
/// naming it, exactly when no site has that name.
pub proof fn lemma_remove_drops_exactly_named(sites: Seq<(Seq<char>, Seq<char>)>, name: Seq<char>)
    ensures
        ({
            let n = normalize_name(name);
            &&& spec_remove(sites, name) matches Ok((rest, m)) ==> rest == sites.filter(
                |s: (Seq<char>, Seq<char>)| s.0 != n,
            ) && m == "Site removed: "@ + n
            &&& (spec_remove(sites, name) is Err) <==> (forall|i: int| 0 <= i < sites.len() ==> (#[trigger] sites[i]).0 != n)
            &&& spec_remove(sites, name) matches Err(e) ==> e == "Site '"@ + n + "' not found"@
        }),
{
    lemma_without_named_filter(sites, normalize_name(name));
}

// ---------------------------------------------------------------------------
// Virtual hosts
// ---------------------------------------------------------------------------

/// The directory of one server's per-site files, `~/.chowk/etc/<server>-sites`.
pub open spec fn spec_vhost_dir(home: Seq<char>, server: Seq<char>) -> Seq<char> {
    join(spec_etc_dir(home), server + "-sites"@)
}

/// The per-site files' directory for `server` (see `spec_vhost_dir`).
pub fn vhost_dir(home: &str, server: &str) -> (r: String)
    ensures
        r@ == spec_vhost_dir(home@, server@),
{
    join_path(etc_dir(home).as_str(), cat(server, "-sites").as_str())
}

/// The sites that get a virtual host: the user's sites, then phpMyAdmin
/// (always present when installed, and not deletable).
pub open spec fn spec_vhost_sites(sites: Seq<(Seq<char>, Seq<char>)>, phpmyadmin: Option<Seq<char>>) -> Seq<
    (Seq<char>, Seq<char>),
> {
    match phpmyadmin {
        Some(d) => sites.push(("pma"@, d)),
        None => sites,
    }
}

/// The sites that get a virtual host (see `spec_vhost_sites`).
pub fn vhost_sites(sites: &Vec<Site>, phpmyadmin: Option<String>) -> (r: Vec<Site>)
    ensures
        sites_view(r@) == spec_vhost_sites(
            sites_view(sites@),
            match phpmyadmin {
                Some(d) => Some(d@),
                None => None,
            },
        ),
{
    let mut v = copy_sites(sites);
    match phpmyadmin {
        Some(d) => {
            let ghost before = v@;
            let ghost dv = d@;
            v.push(Site { name: "pma".to_owned(), docroot: d });
            assert(sites_view(v@) =~= sites_view(before).push(("pma"@, dv))) by {
                assert(sites_view(v@)[before.len() as int] == site_view(v@[before.len() as int]));
            }
        },
        None => {},
    }
    v
}

/// An Apache virtual host for `<name>.<tld>` on `port`, PHP through php-fpm.
pub open spec fn spec_apache_vhost(port: u16, server_name: Seq<char>, root: Seq<char>, sock: Seq<char>) -> Seq<char> {
    "<VirtualHost *:"@ + decimal(port as nat) + ">\n  ServerName "@ + server_name
        + "\n  DocumentRoot \""@ + root + "\"\n  <Directory \""@ + root
        + "\">\n    AllowOverride All\n    Require all granted\n    DirectoryIndex index.php index.html\n  </Directory>\n  <FilesMatch \\.php$>\n    SetHandler \"proxy:unix:"@
        + sock + "|fcgi://localhost/\"\n  </FilesMatch>\n</VirtualHost>\n"@
}

/// An Nginx server block for `<name>.<tld>` on `port`, PHP through php-fpm.
pub open spec fn spec_nginx_vhost(
    port: u16,
    server_name: Seq<char>,
    root: Seq<char>,
    sock: Seq<char>,
    prefix: Seq<char>,
) -> Seq<char> {
    "server {\n  listen "@ + decimal(port as nat) + ";\n  server_name "@ + server_name + ";\n  root "@
        + root
        + ";\n  index index.php index.html index.htm;\n  location / { try_files $uri $uri/ /index.php?$query_string; }\n  location ~ \\.php$ {\n    try_files $uri =404;\n    fastcgi_split_path_info ^(.+\\.php)(/.+)$;\n    fastcgi_pass unix:"@
        + sock + ";\n    fastcgi_index index.php;\n    include "@ + prefix
        + "/etc/nginx/fastcgi_params;\n    fastcgi_param SCRIPT_FILENAME $document_root$fastcgi_script_name;\n  }\n}\n"@
}

/// The virtual host of a site for `server` ("apache", or Nginx otherwise).
pub open spec fn spec_vhost(
    server: Seq<char>,
    port: u16,
    tld: Seq<char>,
    site: (Seq<char>, Seq<char>),
    sock: Seq<char>,
    prefix: Seq<char>,
) -> Seq<char> {
    let server_name = site.0 + "."@ + tld;
    if server == "apache"@ {
        spec_apache_vhost(port, server_name, site.1, sock)
    } else {
        spec_nginx_vhost(port, server_name, site.1, sock, prefix)
    }
}

/// The virtual host text of one site (see `spec_vhost`).
pub fn vhost_conf(server: &str, port: u16, tld: &str, site: &Site, sock: &str, prefix: &str) -> (r: String)
    ensures
        r@ == spec_vhost(server@, port, tld@, site_view(*site), sock@, prefix@),
{
    let server_name = cat3(site.name.as_str(), ".", tld);
    let port_text = decimal_string(port as u64);
    let root = site.docroot.as_str();
    if str_eq(server, "apache") {
        let mut r = cat3("<VirtualHost *:", port_text.as_str(), ">\n  ServerName ");
        r.append(server_name.as_str());
        r.append("\n  DocumentRoot \"");
        r.append(root);
        r.append("\"\n  <Directory \"");
        r.append(root);
        r.append(
            "\">\n    AllowOverride All\n    Require all granted\n    DirectoryIndex index.php index.html\n  </Directory>\n  <FilesMatch \\.php$>\n    SetHandler \"proxy:unix:",
        );
        r.append(sock);
        r.append("|fcgi://localhost/\"\n  </FilesMatch>\n</VirtualHost>\n");
        r
    } else {
        let mut r = cat3("server {\n  listen ", port_text.as_str(), ";\n  server_name ");
        r.append(server_name.as_str());
        r.append(";\n  root ");
        r.append(root);
        r.append(
            ";\n  index index.php index.html index.htm;\n  location / { try_files $uri $uri/ /index.php?$query_string; }\n  location ~ \\.php$ {\n    try_files $uri =404;\n    fastcgi_split_path_info ^(.+\\.php)(/.+)$;\n    fastcgi_pass unix:",
        );
        r.append(sock);
        r.append(";\n    fastcgi_index index.php;\n    include ");
        r.append(prefix);
        r.append(
            "/etc/nginx/fastcgi_params;\n    fastcgi_param SCRIPT_FILENAME $document_root$fastcgi_script_name;\n  }\n}\n",
        );
        r
    }
}

/// One generated file: where it goes and what it holds.
pub struct ConfFile {
    pub path: String,
    pub body: String,
}

/// The file of a site's virtual host, `<dir>/<name>.conf`.
pub open spec fn spec_vhost_path(home: Seq<char>, server: Seq<char>, name: Seq<char>) -> Seq<char> {
    join(spec_vhost_dir(home, server), name + ".conf"@)
}

/// The per-site files for `server`, one per site in order: the directory is
/// emptied and refilled with them, so removed sites disappear.
pub open spec fn spec_vhost_files(
    server: Seq<char>,
    port: u16,
    tld: Seq<char>,
    sites: Seq<(Seq<char>, Seq<char>)>,
    home: Seq<char>,
    prefix: Seq<char>,
    files: Seq<ConfFile>,
) -> bool {
    &&& files.len() == sites.len()
    &&& forall|i: int|
        0 <= i < sites.len() ==> (#[trigger] files[i]).path@ == spec_vhost_path(home, server, sites[i].0)
            && files[i].body@ == spec_vhost(server, port, tld, sites[i], spec_php_sock(home), prefix)
}

/// The per-site virtual host files for `server` (see `spec_vhost_files`).
pub fn vhost_files(server: &str, port: u16, tld: &str, sites: &Vec<Site>, home: &str, prefix: &str) -> (r: Vec<
    ConfFile,
>)
    ensures
        spec_vhost_files(server@, port, tld@, sites_view(sites@), home@, prefix@, r@),
{
    let dir = vhost_dir(home, server);
    let sock = super::services::php_sock(home);
    let mut r: Vec<ConfFile> = Vec::new();
    let mut i: usize = 0;
    while i < sites.len()
        invariant
            0 <= i <= sites.len(),
            dir@ == spec_vhost_dir(home@, server@),
            sock@ == spec_php_sock(home@),
            r@.len() == i,
            forall|j: int|
                0 <= j < i ==> (#[trigger] r@[j]).path@ == spec_vhost_path(home@, server@, sites@[j].name@)
                    && r@[j].body@ == spec_vhost(
                    server@,
                    port,
                    tld@,
                    site_view(sites@[j]),
                    spec_php_sock(home@),
                    prefix@,
                ),
        decreases sites.len() - i,
    {
        let path = join_path(dir.as_str(), cat(sites[i].name.as_str(), ".conf").as_str());
        let body = vhost_conf(server, port, tld, &sites[i], sock.as_str(), prefix);
        r.push(ConfFile { path, body });
        i = i + 1;
    }
    assert forall|j: int| 0 <= j < sites_view(sites@).len() implies sites_view(sites@)[j] == site_view(sites@[j]) by {}
    r
}

/// The per-site files name the same sites whichever server is chosen: only
/// the directory differs.
pub proof fn lemma_vhosts_same_sites_for_both_servers(
    port: u16,
    tld: Seq<char>,
    sites: Seq<(Seq<char>, Seq<char>)>,
    home: Seq<char>,
    prefix: Seq<char>,
    nginx_files: Seq<ConfFile>,
    apache_files: Seq<ConfFile>,
)
    requires
        spec_vhost_files("nginx"@, port, tld, sites, home, prefix, nginx_files),
        spec_vhost_files("apache"@, port, tld, sites, home, prefix, apache_files),
    ensures
        nginx_files.len() == apache_files.len(),
        forall|i: int|
            0 <= i < nginx_files.len() ==> (#[trigger] nginx_files[i]).path@ == join(
                spec_vhost_dir(home, "nginx"@),
                sites[i].0 + ".conf"@,
            ) && apache_files[i].path@ == join(spec_vhost_dir(home, "apache"@), sites[i].0 + ".conf"@),
{
}

/// How a running web server is told to reload: behind the administrator
/// prompt on a privileged port, directly otherwise.
pub enum Reload {
    Privileged(String),
    Direct(Command),
}

/// Reloading the running web server after its sites changed (nothing when it
/// is not running); the outcome is ignored.
pub open spec fn spec_reload_web(
    server: Seq<char>,
    port: u16,
    home: Seq<char>,
    prefix: Seq<char>,
    running: bool,
    r: Option<Reload>,
) -> bool {
    if !running {
        r is None
    } else {
        let apache = server == "apache"@;
        let conf = join(spec_etc_dir(home), if apache { "httpd.conf"@ } else { "nginx.conf"@ });
        let bin = prefix + if apache { "/bin/httpd"@ } else { "/bin/nginx"@ };
        let flag = if apache { "-f"@ } else { "-c"@ };
        let signal = if apache { "-k"@ } else { "-s"@ };
        let verb = if apache { "graceful"@ } else { "reload"@ };
        if port < 1024 {
            r matches Some(Reload::Privileged(s)) && s@ == bin + " "@ + flag + " "@ + conf + " "@ + signal
                + " "@ + verb
        } else {
            r matches Some(Reload::Direct(c)) && is_command(c, bin, seq![flag, conf, signal, verb])
        }
    }
}

/// How to reload the running web server (see `spec_reload_web`).
pub fn reload_web(server: &str, port: u16, home: &str, prefix: &str, running: bool) -> (r: Option<Reload>)
    ensures
        spec_reload_web(server@, port, home@, prefix@, running, r),
{
    if !running {
        return None;
    }
    let apache = str_eq(server, "apache");
    let conf = join_path(etc_dir(home).as_str(), if apache { "httpd.conf" } else { "nginx.conf" });
    let bin = cat(prefix, if apache { "/bin/httpd" } else { "/bin/nginx" });
    let flag = if apache { "-f" } else { "-c" };
    let signal = if apache { "-k" } else { "-s" };
    let verb = if apache { "graceful" } else { "reload" };
    if port < 1024 {
        let mut s = cat3(bin.as_str(), " ", flag);
        s.append(" ");
        s.append(conf.as_str());
        s.append(" ");
        s.append(signal);
        s.append(" ");
        s.append(verb);
        Some(Reload::Privileged(s))
    } else {
        let c = command(bin.as_str(), vec![flag.to_owned(), conf.clone(), signal.to_owned(), verb.to_owned()]);
        assert(crate::text::string_views(c.args@) =~= seq![flag@, conf@, signal@, verb@]);
        Some(Reload::Direct(c))
    }
}

} // verus!
