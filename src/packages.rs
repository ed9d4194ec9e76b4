//! Package-manager probing: which managers to look for, how to ask each of
//! them for its packages, and how the answers are summed.
use crate::text::{decimal, join, joined, has_infix, ascii_lower, contains, owned, push_decimal, push_str, str_eq, to_lower};
use vstd::prelude::*;
use vstd::string::StringSliceAdditionalSpecFns;

verus! {

broadcast use vstd::multiset::group_multiset_axioms;

/// The package managers looked for, in the order they are reported.
pub open spec fn candidates() -> Seq<Seq<char>> {
    seq![
        "xbps-query"@,
        "dnf"@,
        "rpm"@,
        "apt"@,
        "pacman"@,
        "emerge"@,
        "yum"@,
        "zypper"@,
        "apk"@,
        "pkg_info"@,
        "pkg"@
    ]
}

/// The names of the package managers to look for.
pub fn candidate_managers() -> (r: Vec<&'static str>)
    ensures
        r@.len() == candidates().len(),
        forall|i: int| 0 <= i < r@.len() ==> #[trigger] r@[i]@ == candidates()[i],
{
    let mut v: Vec<&'static str> = Vec::new();
    v.push("xbps-query");
    v.push("dnf");
    v.push("rpm");
    v.push("apt");
    v.push("pacman");
    v.push("emerge");
    v.push("yum");
    v.push("zypper");
    v.push("apk");
    v.push("pkg_info");
    v.push("pkg");
    assert(v@.len() == candidates().len());
    v
}

/// The argument that makes a manager show that it is installed.
pub open spec fn version_flag_of(manager: Seq<char>) -> Seq<char> {
    if manager == "pkg_info"@ {
        "-V"@
    } else if manager == "emerge"@ {
        "--help"@
    } else {
        "--version"@
    }
}

/// The argument with which `manager` is run to find out whether it is installed.
pub fn version_flag(manager: &str) -> (r: &'static str)
    ensures
        r@ == version_flag_of(manager@),
{
    if str_eq(manager, "pkg_info") {
        "-V"
    } else if str_eq(manager, "emerge") {
        "--help"
    } else {
        "--version"
    }
}

/// A command whose output has one line per installed package; with
/// `skip_first`, one line more than that.
pub struct Query {
    pub program: String,
    pub args: Vec<String>,
    pub skip_first: bool,
}

impl View for Query {
    type V = (Seq<char>, Seq<Seq<char>>, bool);

    open spec fn view(&self) -> (Seq<char>, Seq<Seq<char>>, bool) {
        (self.program@, self.args@.map_values(|a: String| a@), self.skip_first)
    }
}

/// How an installed manager is asked for its packages. On a Funtoo system
/// (told by its OS identity) Portage's own listing is not used: the package
/// database directory is searched instead.
pub open spec fn query_of(manager: Seq<char>, os_id: Seq<char>) -> Option<
    (Seq<char>, Seq<Seq<char>>, bool),
> {
    if manager == "xbps-query"@ {
        Some((manager, seq!["-l"@], false))
    } else if manager == "dnf"@ || manager == "yum"@ {
        Some((manager, seq!["list"@, "installed"@], false))
    } else if manager == "rpm"@ {
        Some((manager, seq!["-qa"@, "--last"@], false))
    } else if manager == "apt"@ {
        Some(("dpkg"@, seq!["--list"@], false))
    } else if manager == "pacman"@ {
        Some((manager, seq!["-Q"@], false))
    } else if manager == "zypper"@ {
        Some((manager, seq!["se"@], false))
    } else if manager == "apk"@ {
        Some((manager, seq!["list"@, "--installed"@], false))
    } else if manager == "pkg_info"@ {
        Some(("ls"@, seq!["/usr/pkg/pkgdb/"@], true))
    } else if manager == "pkg"@ {
        Some((manager, seq!["info"@], false))
    } else if manager == "emerge"@ {
        if has_infix(ascii_lower(os_id), "funtoo"@) {
            Some(("find"@, seq!["/var/db/pkg/"@, "-name"@, "PF"@], false))
        } else {
            Some((manager, seq!["-I"@], false))
        }
    } else {
        None
    }
}

fn make_query(program: &str, a: &str, b: Option<&str>, c: Option<&str>, skip_first: bool) -> (r:
    Query)
    ensures
        r@ == (program@, match (b, c) {
            (Some(b), Some(c)) => seq![a@, b@, c@],
            (Some(b), None) => seq![a@, b@],
            _ => seq![a@],
        }, skip_first),
{
    let mut args: Vec<String> = Vec::new();
    args.push(owned(a));
    match b {
        Some(b) => {
            args.push(owned(b));
            match c {
                Some(c) => {
                    args.push(owned(c));
                },
                None => {},
            }
        },
        None => {},
    }
    let r = Query { program: owned(program), args, skip_first };
    assert(r@.1 =~= match (b, c) {
        (Some(b), Some(c)) => seq![a@, b@, c@],
        (Some(b), None) => seq![a@, b@],
        _ => seq![a@],
    });
    r
}

/// The listing command for `manager`, given the OS identity of the system;
/// `None` for a name that is not a known manager.
pub fn listing_query(manager: &str, os_id: &str) -> (r: Option<Query>)
    ensures
        match r {
            Some(q) => query_of(manager@, os_id@) == Some(q@),
            None => query_of(manager@, os_id@) is None,
        },
{
    if str_eq(manager, "xbps-query") {
        Some(make_query(manager, "-l", None, None, false))
    } else if str_eq(manager, "dnf") || str_eq(manager, "yum") {
        Some(make_query(manager, "list", Some("installed"), None, false))
    } else if str_eq(manager, "rpm") {
        Some(make_query(manager, "-qa", Some("--last"), None, false))
    } else if str_eq(manager, "apt") {
        Some(make_query("dpkg", "--list", None, None, false))
    } else if str_eq(manager, "pacman") {
        Some(make_query(manager, "-Q", None, None, false))
    } else if str_eq(manager, "zypper") {
        Some(make_query(manager, "se", None, None, false))
    } else if str_eq(manager, "apk") {
        Some(make_query(manager, "list", Some("--installed"), None, false))
    } else if str_eq(manager, "pkg_info") {
        Some(make_query("ls", "/usr/pkg/pkgdb/", None, None, true))
    } else if str_eq(manager, "pkg") {
        Some(make_query(manager, "info", None, None, false))
    } else if str_eq(manager, "emerge") {
        let id = to_lower(os_id);
        if contains(id.as_str(), "funtoo") {
            Some(make_query("find", "/var/db/pkg/", Some("-name"), Some("PF"), false))
        } else {
            Some(make_query(manager, "-I", None, None, false))
        }
    } else {
        None
    }
}

/// How many line feeds the bytes hold.
pub open spec fn newline_count(b: Seq<u8>) -> nat
    decreases b.len(),
{
    if b.len() == 0 {
        0
    } else {
        newline_count(b.drop_last()) + if b.last() == 10u8 {
            1nat
        } else {
            0nat
        }
    }
}

proof fn lemma_newline_count_bound(b: Seq<u8>)
    ensures
        newline_count(b) <= b.len(),
    decreases b.len(),
{
    if b.len() > 0 {
        lemma_newline_count_bound(b.drop_last());
    }
}

/// How many lines the bytes hold: one per line feed, and one more for an
/// unterminated last line.
pub open spec fn line_count(b: Seq<u8>) -> nat {
    newline_count(b) + if b.len() > 0 && b.last() != 10u8 {
        1nat
    } else {
        0nat
    }
}

/// Counts the lines of a command's output.
pub fn count_lines(output: &str) -> (r: u64)
    ensures
        r as nat == line_count(output.spec_bytes()),
{
    let b = output.as_bytes();
    let mut n: usize = 0;
    let mut i: usize = 0;
    while i < b.len()
        invariant
            b@ == output.spec_bytes(),
            i <= b@.len(),
            n <= i,
            n as nat == newline_count(b@.subrange(0, i as int)),
        decreases b@.len() - i,
    {
        assert(b@.subrange(0, i + 1).drop_last() =~= b@.subrange(0, i as int));
        if b[i] == 10u8 {
            n = n + 1;
        }
        i = i + 1;
    }
    assert(b@.subrange(0, b@.len() as int) =~= b@);
    proof {
        if b@.len() > 0 {
            lemma_newline_count_bound(b@.drop_last());
        }
    }
    if b.len() > 0 && b[b.len() - 1] != 10u8 {
        n = n + 1;
    }
    n as u64
}

/// The package count that a query's output gives.
pub open spec fn listed(skip_first: bool, lines: nat) -> nat {
    if skip_first && lines > 0 {
        (lines - 1) as nat
    } else {
        lines
    }
}

/// The number of packages that the output of query `q` lists.
pub fn listed_count(q: &Query, output: &str) -> (r: u64)
    ensures
        r as nat == listed(q.skip_first, line_count(output.spec_bytes())),
{
    let lines = count_lines(output);
    if q.skip_first && lines > 0 {
        lines - 1
    } else {
        lines
    }
}

/// The sum of the counts that arrived; a query that failed adds nothing.
pub open spec fn count_total(counts: Seq<Option<u64>>) -> int
    decreases counts.len(),
{
    if counts.len() == 0 {
        0
    } else {
        count_total(counts.drop_last()) + match counts.last() {
            Some(c) => c as int,
            None => 0int,
        }
    }
}

/// The sum, held at `u64::MAX` should it ever go beyond.
pub open spec fn capped_total(counts: Seq<Option<u64>>) -> int {
    if count_total(counts) <= u64::MAX {
        count_total(counts)
    } else {
        u64::MAX as int
    }
}

proof fn lemma_count_total_nonneg(counts: Seq<Option<u64>>)
    ensures
        count_total(counts) >= 0,
    decreases counts.len(),
{
    if counts.len() > 0 {
        lemma_count_total_nonneg(counts.drop_last());
    }
}

/// Sums the counts of the managers whose query succeeded; the sum does not wrap.
pub fn total_packages(counts: &Vec<Option<u64>>) -> (r: u64)
    ensures
        r as int == capped_total(counts@),
{
    let mut acc: u64 = 0;
    let mut i: usize = 0;
    while i < counts.len()
        invariant
            i <= counts@.len(),
            acc as int == capped_total(counts@.subrange(0, i as int)),
        decreases counts@.len() - i,
    {
        proof {
            assert(counts@.subrange(0, i + 1).drop_last() =~= counts@.subrange(0, i as int));
            lemma_count_total_nonneg(counts@.subrange(0, i as int));
        }
        match counts[i] {
            Some(c) => {
                acc = acc.saturating_add(c);
            },
            None => {},
        }
        i = i + 1;
    }
    assert(counts@.subrange(0, counts@.len() as int) =~= counts@);
    acc
}

/// The text of the package field: the total and the managers found, or
/// `N/A` when no manager was found at all (which is not the same as none
/// of them listing a package).
pub open spec fn summary_text(managers: Seq<Seq<char>>, counts: Seq<Option<u64>>) -> Seq<char> {
    if managers.len() == 0 {
        "N/A"@
    } else {
        decimal(capped_total(counts) as nat) + " ("@ + joined(managers, ", "@) + ")"@
    }
}

/// The package field from the managers found and the counts their queries gave.
pub fn packages_summary(managers: &Vec<String>, counts: &Vec<Option<u64>>) -> (r: String)
    ensures
        r@ == summary_text(managers@.map_values(|m: String| m@), counts@),
{
    if managers.len() == 0 {
        return owned("N/A");
    }
    let total = total_packages(counts);
    let mut r = String::new();
    push_decimal(&mut r, total);
    push_str(&mut r, " (");
    let names = join(managers, ", ");
    push_str(&mut r, names.as_str());
    push_str(&mut r, ")");
    r
}

proof fn lemma_total_remove(b: Seq<Option<u64>>, k: int)
    requires
        0 <= k < b.len(),
    ensures
        count_total(b) == count_total(b.remove(k)) + match b[k] {
            Some(c) => c as int,
            None => 0int,
        },
    decreases b.len(),
{
    if k == b.len() - 1 {
        assert(b.remove(k) =~= b.drop_last());
    } else {
        assert(b.remove(k).drop_last() =~= b.drop_last().remove(k));
        assert(b.remove(k).last() == b.last());
        lemma_total_remove(b.drop_last(), k);
    }
}

/// The total does not depend on the order in which the counts arrived: two
/// collections of the same counts, in any order, have the same total.
pub proof fn lemma_total_ignores_order(a: Seq<Option<u64>>, b: Seq<Option<u64>>)
    requires
        a.to_multiset() == b.to_multiset(),
    ensures
        count_total(a) == count_total(b),
        capped_total(a) == capped_total(b),
    decreases a.len(),
{
    broadcast use vstd::seq_lib::group_to_multiset_ensures;

    if a.len() == 0 {
        assert(b.to_multiset().len() == 0);
        assert(b.len() == 0);
    } else {
        let x = a.last();
        let rest = a.drop_last();
        assert(a =~= rest.push(x));
        assert(a.to_multiset().count(x) > 0);
        assert(b.contains(x));
        let k = choose|k: int| 0 <= k < b.len() && b[k] == x;
        assert(rest.to_multiset() =~= a.to_multiset().remove(x));
        assert(b.remove(k).to_multiset() =~= b.to_multiset().remove(x));
        lemma_total_ignores_order(rest, b.remove(k));
        lemma_total_remove(b, k);
    }
}

} // verus!
