//! The art catalog and the rules that pick one of its entries for a system.
use crate::text::{ascii_lower, contains, has_infix, owned, to_lower};
use vstd::prelude::*;

verus! {

pub const ARCH_ART: &'static str = "   ___               __ \n  / _ |  ____ ____  / / \n / __ | / __// __/ / _ \\\n/_/ |_|/_/   \\__/ /_//_/";
pub const DEBIAN_ART: &'static str = "   ___      __   _         \n  / _ \\___ / /  (_)__ ____ \n / // / -_) _ \\/ / _ `/ _ \\\n/____/\\__/_.__/_/\\_,_/_//_/";
pub const FEDORA_ART: &'static str = "   ____       __             \n  / __/__ ___/ /__  _______ _\n / _// -_) _  / _ \\/ __/ _ `/\n/_/  \\__/\\_,_/\\___/_/  \\_,_/";
pub const ENDEAVOUR_ART: &'static str = "   ____        __                           \n  / __/__  ___/ /__ ___ __  _____  __ ______\n / _// _ \\/ _  / -_) _ `/ |/ / _ \\/ // / __/\n/___/_//_/\\_,_/\\__/\\_,_/|___/\\___/\\_,_/_/";
pub const VOID_ART: &'static str = "  _   __     _    __\n | | / /__  (_)__/ /\n | |/ / _ \\/ / _  / \n |___/\\___/_/\\_,_/";
pub const UBUNTU_ART: &'static str = "  __  ____             __      \n / / / / /  __ _____  / /___ __\n/ /_/ / _ \\/ // / _ \\/ __/ // /\n\\____/_.__/\\_,_/_//_/\\__/\\_,_/";
pub const SUSE_ART: &'static str = "  ____                ____            \n / __ \\___  ___ ___  / __/_ _____ ___ \n/ /_/ / _ \\/ -_) _ \\_\\ \\/ // (_-</ -_)\n\\____/ .__/\\__/_//_/___/\\_,_/___/\\__/ \n    /_/";
pub const RASPBIAN_ART: &'static str = "   ___                __   _         \n  / _ \\___ ____ ___  / /  (_)__ ____ \n / , _/ _ `(_-</ _ \\/ _ \\/ / _ `/ _ \\\n/_/|_|\\_,_/___/ .__/_.__/_/\\_,_/_//_/\n             /_/";
pub const MINT_ART: &'static str = "   __  ____      __ \n  /  |/  (_)__  / /_\n / /|_/ / / _ \\/ __/\n/_/  /_/_/_//_/\\__/";
pub const MX_ART: &'static str = "   __  ____  __  __   _               \n  /  |/  / |/_/ / /  (_)__  __ ____ __\n / /|_/ />  <  / /__/ / _ \\/ // /\\ \\ /\n/_/  /_/_/|_| /____/_/_//_/\\_,_//_\\_\\";
pub const GENTOO_ART: &'static str = "  _____         __          \n / ___/__ ___  / /____  ___ \n/ (_ / -_) _ \\/ __/ _ \\/ _ \\\n\\___/\\__/_//_/\\__/\\___/\\___/";
pub const FUNTOO_ART: &'static str = "   ____          __          \n  / __/_ _____  / /____  ___ \n / _// // / _ \\/ __/ _ \\/ _ \n/_/  \\_,_/_//_/\\__/\\___/\\___/";
pub const SLACKWARE_ART: &'static str = "   ______         __                      \n  / __/ /__ _____/ /___    _____ ________ \n _\\ \\/ / _ `/ __/  '_/ |/|/ / _ `/ __/ -_)\n/___/_/\\_,_/\\__/_/\\_\\|__,__/\\_,_/_/  \\__/ ";
pub const UWUNTU_ART: &'static str = "  __  __       __  __     __      \n / / / /    __/ / / /__  / /___ __\n/ /_/ / |/|/ / /_/ / _ \\/ __/ // /\n\\____/|__,__/\\____/_//_/\\__/\\_,_/";
pub const NIXOS_ART: &'static str = "   _  ___      ____  ____\n  / |/ (_)_ __/ __ \\/ __/\n /    / /\\ \\ / /_/ /\\ \\  \n/_/|_/_//_\\_\\\\____/___/";
pub const VANILLA_ART: &'static str = "  _   __          _ ____    \n | | / /__ ____  (_) / /__ _\n | |/ / _ `/ _ \\/ / / / _ `/\n |___/\\_,_/_//_/_/_/_/\\_,_/";
pub const KALI_ART: &'static str = "   __ __     ___   \n  / //_/__ _/ (_)  \n / ,< / _ `/ / /   \n/_/|_|\\_,_/_/_/";
pub const CACHY_ART: &'static str = "  _____         __       \n / ___/__ _____/ /  __ __\n/ /__/ _ `/ __/ _ \\/ // /\n\\___/\\_,_/\\__/_//_/\\_, / \n                  /___/";
pub const NETBSD_ART: &'static str = "   _  __    __  ___  _______ \n  / |/ /__ / /_/ _ )/ __/ _ \\\n /    / -_) __/ _  |\\ \\/ // /\n/_/|_/\\__/\\__/____/___/____/ ";
pub const FREEBSD_ART: &'static str = "   ___            ___  _______ \n  / _/______ ___ / _ )/ __/ _ \\\n / _/ __/ -_) -_) _  |\\ \\/ // /\n/_//_/  \\__/\\__/____/___/____/";
pub const DEFAULT_ART: &'static str = "   ___      _____      __ \n  / _ \\___ / _/ /_____/ / \n / , _(_-</ _/ __/ __/ _ \\\n/_/|_/___/_/ \\__/\\__/_//_/";

/// Position in the catalog where the entries that a kernel name can select begin.
pub const KERNEL_FAMILY_START: usize = 18;

/// The catalog in priority order: (search token, art). A more specific token
/// stands before any shorter one that could mask it.
pub open spec fn catalog() -> Seq<(Seq<char>, Seq<char>)> {
    seq![
        ("arch"@, ARCH_ART@),
        ("debian"@, DEBIAN_ART@),
        ("fedora"@, FEDORA_ART@),
        ("endeavour"@, ENDEAVOUR_ART@),
        ("void"@, VOID_ART@),
        ("ubuntu"@, UBUNTU_ART@),
        ("suse"@, SUSE_ART@),
        ("rasp"@, RASPBIAN_ART@),
        ("mint"@, MINT_ART@),
        ("mx"@, MX_ART@),
        ("gentoo"@, GENTOO_ART@),
        ("funtoo"@, FUNTOO_ART@),
        ("slack"@, SLACKWARE_ART@),
        ("uwuntu"@, UWUNTU_ART@),
        ("nix"@, NIXOS_ART@),
        ("vanilla"@, VANILLA_ART@),
        ("kali"@, KALI_ART@),
        ("cachy"@, CACHY_ART@),
        ("netbsd"@, NETBSD_ART@),
        ("freebsd"@, FREEBSD_ART@)
    ]
}

/// Position of the first entry at or after `i` whose token occurs in `s`.
pub open spec fn first_hit(entries: Seq<(Seq<char>, Seq<char>)>, s: Seq<char>, i: nat) -> Option<
    int,
>
    decreases entries.len() - i,
{
    if i >= entries.len() {
        None
    } else if has_infix(s, entries[i as int].0) {
        Some(i as int)
    } else {
        first_hit(entries, s, i + 1)
    }
}

/// The art for a system: the first catalog token found in the lower-cased
/// identity wins; failing that, the kernel-family tokens are tried on the
/// lower-cased kernel name; failing both, the default art.
pub open spec fn distro_art(identity: Seq<char>, kernel: Seq<char>) -> Seq<char> {
    match first_hit(catalog(), ascii_lower(identity), 0) {
        Some(i) => catalog()[i].1,
        None => match first_hit(catalog(), ascii_lower(kernel), KERNEL_FAMILY_START as nat) {
            Some(j) => catalog()[j].1,
            None => DEFAULT_ART@,
        },
    }
}

/// The executable catalog, entry for entry the one that `catalog` describes.
pub fn catalog_entries() -> (r: Vec<(&'static str, &'static str)>)
    ensures
        r@.len() == catalog().len(),
        forall|i: int| 0 <= i < r@.len() ==> #[trigger] r@[i].0@ == catalog()[i].0,
        forall|i: int| 0 <= i < r@.len() ==> #[trigger] r@[i].1@ == catalog()[i].1,
{
    let mut v: Vec<(&'static str, &'static str)> = Vec::new();
    v.push(("arch", ARCH_ART));
    v.push(("debian", DEBIAN_ART));
    v.push(("fedora", FEDORA_ART));
    v.push(("endeavour", ENDEAVOUR_ART));
    v.push(("void", VOID_ART));
    v.push(("ubuntu", UBUNTU_ART));
    v.push(("suse", SUSE_ART));
    v.push(("rasp", RASPBIAN_ART));
    v.push(("mint", MINT_ART));
    v.push(("mx", MX_ART));
    v.push(("gentoo", GENTOO_ART));
    v.push(("funtoo", FUNTOO_ART));
    v.push(("slack", SLACKWARE_ART));
    v.push(("uwuntu", UWUNTU_ART));
    v.push(("nix", NIXOS_ART));
    v.push(("vanilla", VANILLA_ART));
    v.push(("kali", KALI_ART));
    v.push(("cachy", CACHY_ART));
    v.push(("netbsd", NETBSD_ART));
    v.push(("freebsd", FREEBSD_ART));
    assert(v@.len() == catalog().len());
    v
}

/// Searches `entries` from position `start` on for the first token found in `s`.
fn find_entry(entries: &Vec<(&'static str, &'static str)>, s: &str, start: usize) -> (r: Option<
    usize,
>)
    requires
        entries@.len() == catalog().len(),
        forall|i: int| 0 <= i < entries@.len() ==> #[trigger] entries@[i].0@ == catalog()[i].0,
    ensures
        match r {
            Some(i) => first_hit(catalog(), s@, start as nat) == Some(i as int) && i < entries@.len(),
            None => first_hit(catalog(), s@, start as nat) is None,
        },
{
    let mut i: usize = start;
    while i < entries.len()
        invariant
            start <= i || entries@.len() <= start,
            entries@.len() == catalog().len(),
            forall|k: int| 0 <= k < entries@.len() ==> #[trigger] entries@[k].0@ == catalog()[k].0,
            i >= entries@.len() ==> first_hit(catalog(), s@, i as nat) is None,
            first_hit(catalog(), s@, start as nat) == first_hit(catalog(), s@, i as nat),
        decreases entries@.len() - i,
    {
        if contains(s, entries[i].0) {
            return Some(i);
        }
        i = i + 1;
    }
    None
}

/// The art of the catalog for a resolved identity and a kernel name.
pub fn get_distro_ascii(identity: &str, kernel_name: &str) -> (r: String)
    ensures
        r@ == distro_art(identity@, kernel_name@),
{
    let entries = catalog_entries();
    let id = to_lower(identity);
    match find_entry(&entries, id.as_str(), 0) {
        Some(i) => {
            return owned(entries[i].1);
        },
        None => {},
    }
    let kernel = to_lower(kernel_name);
    match find_entry(&entries, kernel.as_str(), KERNEL_FAMILY_START) {
        Some(j) => owned(entries[j].1),
        None => owned(DEFAULT_ART),
    }
}

/// The identity of the system: an override, when given, wins; then the value
/// read from an OS-release file; then the kernel name.
pub open spec fn resolved_identity(
    over: Option<String>,
    release_value: Option<String>,
    kernel_name: Seq<char>,
) -> Seq<char> {
    match over {
        Some(o) => o@,
        None => match release_value {
            Some(v) => v@,
            None => kernel_name,
        },
    }
}

/// The identity and the art chosen for it. An override also stands in for
/// the kernel name, so that nothing probed can change what it selects.
pub open spec fn classified(
    over: Option<String>,
    release_id: Option<String>,
    kernel_name: Seq<char>,
) -> (Seq<char>, Seq<char>) {
    let identity = resolved_identity(over, release_id, kernel_name);
    let kernel = match over {
        Some(o) => o@,
        None => kernel_name,
    };
    (identity, distro_art(identity, kernel))
}

/// Resolves the identity of the system from an override, an OS-release value
/// and the kernel name.
pub fn resolve_identity(over: &Option<String>, release_value: &Option<String>, kernel_name: &str) -> (r:
    String)
    ensures
        r@ == resolved_identity(*over, *release_value, kernel_name@),
{
    match over {
        Some(o) => o.clone(),
        None => match release_value {
            Some(v) => v.clone(),
            None => owned(kernel_name),
        },
    }
}

/// Resolves the identity of the system and picks its art from the catalog.
pub fn classify(over: &Option<String>, release_id: &Option<String>, kernel_name: &str) -> (r: (
    String,
    String,
))
    ensures
        (r.0@, r.1@) == classified(*over, *release_id, kernel_name@),
{
    let identity = resolve_identity(over, release_id, kernel_name);
    let art = match over {
        Some(o) => get_distro_ascii(identity.as_str(), o.as_str()),
        None => get_distro_ascii(identity.as_str(), kernel_name),
    };
    (identity, art)
}

proof fn lemma_first_hit_at(entries: Seq<(Seq<char>, Seq<char>)>, s: Seq<char>, k: nat, i: int)
    requires
        k <= i < entries.len(),
        has_infix(s, entries[i].0),
        forall|j: int| k <= j < i ==> !has_infix(s, #[trigger] entries[j].0),
    ensures
        first_hit(entries, s, k) == Some(i),
    decreases i - k,
{
    if k < i {
        lemma_first_hit_at(entries, s, k + 1, i);
    }
}

proof fn lemma_first_hit_none(entries: Seq<(Seq<char>, Seq<char>)>, s: Seq<char>, k: nat)
    requires
        forall|j: int| k <= j < entries.len() ==> !has_infix(s, #[trigger] entries[j].0),
    ensures
        first_hit(entries, s, k) is None,
    decreases entries.len() - k,
{
    if k < entries.len() {
        lemma_first_hit_none(entries, s, k + 1);
    }
}

/// An identity whose lower-cased form holds the token of entry `i`, and the
/// token of no entry before it, gets the art of entry `i`, whatever the
/// kernel name.
pub proof fn lemma_token_selects_art(identity: Seq<char>, kernel: Seq<char>, i: int)
    requires
        0 <= i < catalog().len(),
        has_infix(ascii_lower(identity), catalog()[i].0),
        forall|j: int| 0 <= j < i ==> !has_infix(ascii_lower(identity), #[trigger] catalog()[j].0),
    ensures
        distro_art(identity, kernel) == catalog()[i].1,
{
    lemma_first_hit_at(catalog(), ascii_lower(identity), 0, i);
}

/// An identity that holds no catalog token, beside a kernel name that holds
/// no kernel-family token, gets the default art, which is never empty.
pub proof fn lemma_no_token_gives_default(identity: Seq<char>, kernel: Seq<char>)
    requires
        forall|j: int|
            0 <= j < catalog().len() ==> !has_infix(ascii_lower(identity), #[trigger] catalog()[j].0),
        forall|j: int|
            KERNEL_FAMILY_START <= j < catalog().len() ==> !has_infix(
                ascii_lower(kernel),
                #[trigger] catalog()[j].0,
            ),
    ensures
        distro_art(identity, kernel) == DEFAULT_ART@,
        DEFAULT_ART@.len() > 0,
{
    lemma_first_hit_none(catalog(), ascii_lower(identity), 0);
    lemma_first_hit_none(catalog(), ascii_lower(kernel), KERNEL_FAMILY_START as nat);
    reveal_strlit("   ___      _____      __ \n  / _ \\___ / _/ /_____/ / \n / , _(_-</ _/ __/ __/ _ \\\n/_/|_/___/_/ \\__/\\__/_//_/");
}

/// An override decides both the identity and the art: what the OS-release
/// files and the kernel name say makes no difference.
pub proof fn lemma_override_wins(
    o: String,
    release_a: Option<String>,
    release_b: Option<String>,
    kernel_a: Seq<char>,
    kernel_b: Seq<char>,
)
    ensures
        classified(Some(o), release_a, kernel_a).0 == o@,
        classified(Some(o), release_a, kernel_a) == classified(Some(o), release_b, kernel_b),
        classified(Some(o), release_a, kernel_a).1 == distro_art(o@, o@),
{
}

} // verus!
