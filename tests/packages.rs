use rsftch::packages::{
    candidate_managers, count_lines, listed_count, listing_query, packages_summary,
    total_packages, version_flag,
};

fn strings(v: &[&str]) -> Vec<String> {
    v.iter().map(|s| s.to_string()).collect()
}

#[test]
fn candidates_and_flags() {
    let c = candidate_managers();
    assert_eq!(c.len(), 11);
    assert_eq!(c[0], "xbps-query");
    assert_eq!(c[10], "pkg");
    assert_eq!(version_flag("pkg_info"), "-V");
    assert_eq!(version_flag("emerge"), "--help");
    assert_eq!(version_flag("pacman"), "--version");
}

#[test]
fn listing_queries() {
    let q = listing_query("apt", "debian").unwrap();
    assert_eq!(q.program, "dpkg");
    assert_eq!(q.args, strings(&["--list"]));
    assert!(!q.skip_first);
    let q = listing_query("dnf", "").unwrap();
    assert_eq!(q.args, strings(&["list", "installed"]));
    let q = listing_query("pkg_info", "").unwrap();
    assert_eq!(q.program, "ls");
    assert!(q.skip_first);
    let q = listing_query("emerge", "Funtoo").unwrap();
    assert_eq!(q.program, "find");
    assert_eq!(q.args, strings(&["/var/db/pkg/", "-name", "PF"]));
    let q = listing_query("emerge", "gentoo").unwrap();
    assert_eq!(q.program, "emerge");
    assert_eq!(q.args, strings(&["-I"]));
    assert!(listing_query("brew", "").is_none());
}

#[test]
fn line_counts() {
    assert_eq!(count_lines(""), 0);
    assert_eq!(count_lines("a"), 1);
    assert_eq!(count_lines("a\nb\n"), 2);
    assert_eq!(count_lines("a\nb"), 2);
    assert_eq!(count_lines("\n\n"), 2);
    let q = listing_query("pkg_info", "").unwrap();
    assert_eq!(listed_count(&q, "header\np1\np2\n"), 2);
    assert_eq!(listed_count(&q, ""), 0);
    let p = listing_query("pacman", "").unwrap();
    assert_eq!(listed_count(&p, "x 1\ny 2\n"), 2);
}

#[test]
fn aggregate_sums_counts() {
    let m = strings(&["pacman", "flatpak"]);
    assert_eq!(packages_summary(&m, &vec![Some(12), Some(7)]), "19 (pacman, flatpak)");
    assert_eq!(packages_summary(&m, &vec![Some(7), Some(12)]), "19 (pacman, flatpak)");
}

#[test]
fn aggregate_ignores_order_and_failures() {
    assert_eq!(total_packages(&vec![Some(12), None, Some(7)]), 19);
    assert_eq!(total_packages(&vec![None, Some(7), Some(12)]), 19);
    assert_eq!(total_packages(&vec![]), 0);
    assert_eq!(total_packages(&vec![Some(u64::MAX), Some(5)]), u64::MAX);
}

#[test]
fn no_manager_is_unavailable() {
    assert_eq!(packages_summary(&vec![], &vec![]), "N/A");
    assert_eq!(packages_summary(&strings(&["apk"]), &vec![None]), "0 (apk)");
}
