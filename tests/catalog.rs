use rsftch::ascii::{
    catalog_entries, classify, get_distro_ascii, resolve_identity, ARCH_ART, DEBIAN_ART,
    DEFAULT_ART, FREEBSD_ART, KERNEL_FAMILY_START, NETBSD_ART, RASPBIAN_ART, UBUNTU_ART,
};

#[test]
fn every_token_selects_its_art() {
    let entries = catalog_entries();
    assert_eq!(entries.len(), 20);
    for (i, (token, art)) in entries.iter().enumerate() {
        let identity = format!("My {} system", token.to_uppercase());
        let higher = entries[..i].iter().any(|(t, _)| identity.to_lowercase().contains(t));
        if !higher {
            assert_eq!(get_distro_ascii(&identity, "Linux"), art.to_string(), "token {}", token);
        }
    }
}

#[test]
fn identity_without_token_gets_default_art() {
    assert_eq!(get_distro_ascii("Unknown distro", "Linux"), DEFAULT_ART);
    assert_eq!(get_distro_ascii("", ""), DEFAULT_ART);
    assert!(!DEFAULT_ART.is_empty());
}

#[test]
fn lookup_ignores_case() {
    assert_eq!(get_distro_ascii("Arch Linux", "Linux"), ARCH_ART);
    assert_eq!(get_distro_ascii("DEBIAN", "Linux"), DEBIAN_ART);
    assert_eq!(get_distro_ascii("Raspbian GNU/Linux", "Linux"), RASPBIAN_ART);
}

#[test]
fn earlier_token_wins() {
    // "ubuntu" stands before "mint" in the catalog.
    assert_eq!(get_distro_ascii("ubuntu-mint", "Linux"), UBUNTU_ART);
}

#[test]
fn kernel_name_selects_bsd_art() {
    assert_eq!(get_distro_ascii("", "NetBSD"), NETBSD_ART);
    assert_eq!(get_distro_ascii("nothing known", "FreeBSD"), FREEBSD_ART);
    // Only the kernel-family entries are tried on the kernel name.
    assert_eq!(get_distro_ascii("nothing known", "arch"), DEFAULT_ART);
    assert_eq!(KERNEL_FAMILY_START, 18);
}

#[test]
fn identity_precedence() {
    let over = Some("Gentoo".to_string());
    let rel = Some("arch".to_string());
    assert_eq!(resolve_identity(&over, &rel, "Linux"), "Gentoo");
    assert_eq!(resolve_identity(&None, &rel, "Linux"), "arch");
    assert_eq!(resolve_identity(&None, &None, "FreeBSD"), "FreeBSD");
}

#[test]
fn override_wins_over_files() {
    let over = Some("Debian".to_string());
    let (id, art) = classify(&over, &Some("arch".to_string()), "Linux");
    assert_eq!(id, "Debian");
    assert_eq!(art, DEBIAN_ART);
    let (id2, art2) = classify(&over, &None, "NetBSD");
    assert_eq!(id2, "Debian");
    assert_eq!(art2, DEBIAN_ART);
    // An override that names nothing known gets the default, whatever the kernel.
    let (_, art3) = classify(&Some("Unknown distro".to_string()), &None, "NetBSD");
    assert_eq!(art3, DEFAULT_ART);
}

#[test]
fn classify_without_override() {
    let (id, art) = classify(&None, &Some("ubuntu".to_string()), "Linux");
    assert_eq!(id, "ubuntu");
    assert_eq!(art, UBUNTU_ART);
    let (id2, art2) = classify(&None, &None, "NetBSD");
    assert_eq!(id2, "NetBSD");
    assert_eq!(art2, NETBSD_ART);
}
