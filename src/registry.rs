//! The field registry: which field each configured name selects, how each
//! field is labelled, and how probed values are grouped into sections.
use crate::text::{lower_of, owned, str_eq, to_lowercase};
use vstd::prelude::*;
use vstd::string::StrSliceExecFns;

verus! {

/// A displayable fact about the host.
#[derive(Clone, Copy, Debug, PartialEq, Eq, Structural)]
pub enum FieldKind {
    Distro,
    Host,
    Shell,
    Kernel,
    Packages,
    User,
    Terminal,
    Desktop,
    Cpu,
    Gpu,
    Memory,
    Uptime,
    Resolution,
    Timezone,
    Disk,
    /// What an unknown name selects: a field that is always empty.
    Empty,
}

/// The field a configured name selects; names are read without regard to
/// case (Unicode lower case), several names select the same field, and an
/// unknown one selects the empty field.
pub open spec fn kind_named(name: Seq<char>) -> FieldKind {
    kind_for(lower_of(name))
}

/// The field that a name already in lower case selects.
pub open spec fn kind_for(n: Seq<char>) -> FieldKind {
    if n == "os"@ || n == "distro"@ {
        FieldKind::Distro
    } else if n == "host"@ || n == "hostname"@ {
        FieldKind::Host
    } else if n == "shell"@ {
        FieldKind::Shell
    } else if n == "kernel"@ {
        FieldKind::Kernel
    } else if n == "packs"@ || n == "packages"@ {
        FieldKind::Packages
    } else if n == "user"@ || n == "username"@ {
        FieldKind::User
    } else if n == "term"@ || n == "terminal"@ {
        FieldKind::Terminal
    } else if n == "de"@ || n == "dewm"@ || n == "wm"@ {
        FieldKind::Desktop
    } else if n == "cpu"@ || n == "processor"@ {
        FieldKind::Cpu
    } else if n == "gpu"@ || n == "graphics"@ {
        FieldKind::Gpu
    } else if n == "mem"@ || n == "memory"@ {
        FieldKind::Memory
    } else if n == "uptime"@ {
        FieldKind::Uptime
    } else if n == "res"@ || n == "display"@ || n == "resolution"@ {
        FieldKind::Resolution
    } else if n == "time"@ || n == "timezone"@ {
        FieldKind::Timezone
    } else if n == "disk"@ || n == "diskusage"@ {
        FieldKind::Disk
    } else {
        FieldKind::Empty
    }
}

/// The field that a configured name selects.
pub fn field_kind(name: &str) -> (r: FieldKind)
    ensures
        r == kind_named(name@),
{
    let lower = to_lowercase(name);
    kind_of_lowered(lower.as_str())
}

/// The field that a name already in lower case selects.
pub fn kind_of_lowered(n: &str) -> (r: FieldKind)
    ensures
        r == kind_for(n@),
{
    if str_eq(n, "os") || str_eq(n, "distro") {
        FieldKind::Distro
    } else if str_eq(n, "host") || str_eq(n, "hostname") {
        FieldKind::Host
    } else if str_eq(n, "shell") {
        FieldKind::Shell
    } else if str_eq(n, "kernel") {
        FieldKind::Kernel
    } else if str_eq(n, "packs") || str_eq(n, "packages") {
        FieldKind::Packages
    } else if str_eq(n, "user") || str_eq(n, "username") {
        FieldKind::User
    } else if str_eq(n, "term") || str_eq(n, "terminal") {
        FieldKind::Terminal
    } else if str_eq(n, "de") || str_eq(n, "dewm") || str_eq(n, "wm") {
        FieldKind::Desktop
    } else if str_eq(n, "cpu") || str_eq(n, "processor") {
        FieldKind::Cpu
    } else if str_eq(n, "gpu") || str_eq(n, "graphics") {
        FieldKind::Gpu
    } else if str_eq(n, "mem") || str_eq(n, "memory") {
        FieldKind::Memory
    } else if str_eq(n, "uptime") {
        FieldKind::Uptime
    } else if str_eq(n, "res") || str_eq(n, "display") || str_eq(n, "resolution") {
        FieldKind::Resolution
    } else if str_eq(n, "time") || str_eq(n, "timezone") {
        FieldKind::Timezone
    } else if str_eq(n, "disk") || str_eq(n, "diskusage") {
        FieldKind::Disk
    } else {
        FieldKind::Empty
    }
}

/// The title a field is shown under.
pub open spec fn title_of(k: FieldKind) -> Seq<char> {
    match k {
        FieldKind::Distro => "distro"@,
        FieldKind::Host => "host"@,
        FieldKind::Shell => "shell"@,
        FieldKind::Kernel => "kernel"@,
        FieldKind::Packages => "packs"@,
        FieldKind::User => "user"@,
        FieldKind::Terminal => "term"@,
        FieldKind::Desktop => "de/wm"@,
        FieldKind::Cpu => "cpu"@,
        FieldKind::Gpu => "gpu"@,
        FieldKind::Memory => "mem"@,
        FieldKind::Uptime => "uptime"@,
        FieldKind::Resolution => "res"@,
        FieldKind::Timezone => "timezone"@,
        FieldKind::Disk => "disk"@,
        FieldKind::Empty => "empty"@,
    }
}

/// The title of a field.
pub fn title(k: FieldKind) -> (r: &'static str)
    ensures
        r@ == title_of(k),
{
    match k {
        FieldKind::Distro => "distro",
        FieldKind::Host => "host",
        FieldKind::Shell => "shell",
        FieldKind::Kernel => "kernel",
        FieldKind::Packages => "packs",
        FieldKind::User => "user",
        FieldKind::Terminal => "term",
        FieldKind::Desktop => "de/wm",
        FieldKind::Cpu => "cpu",
        FieldKind::Gpu => "gpu",
        FieldKind::Memory => "mem",
        FieldKind::Uptime => "uptime",
        FieldKind::Resolution => "res",
        FieldKind::Timezone => "timezone",
        FieldKind::Disk => "disk",
        FieldKind::Empty => "empty",
    }
}

/// The icon a field is shown with (a Nerd Font glyph).
pub open spec fn icon_of(k: FieldKind) -> Seq<char> {
    match k {
        FieldKind::Distro => "\u{f303}"@,
        FieldKind::Host => "\u{f1a5b}"@,
        FieldKind::Shell => "\u{e691}"@,
        FieldKind::Kernel => "\u{ebc6}"@,
        FieldKind::Packages => "\u{f0ffa}"@,
        FieldKind::User => "\u{f4ff}"@,
        FieldKind::Terminal => "\u{e795}"@,
        FieldKind::Desktop => "\u{f2d0}"@,
        FieldKind::Cpu => "\u{f035b}"@,
        FieldKind::Gpu => "\u{f0379}"@,
        FieldKind::Memory => "\u{f2db}"@,
        FieldKind::Uptime => "\u{f0109}"@,
        FieldKind::Resolution => "\u{f03e}"@,
        FieldKind::Timezone => "\u{f0954}"@,
        FieldKind::Disk => "\u{f0a0}"@,
        FieldKind::Empty => ""@,
    }
}

/// The icon of a field.
pub fn icon(k: FieldKind) -> (r: &'static str)
    ensures
        r@ == icon_of(k),
{
    match k {
        FieldKind::Distro => "\u{f303}",
        FieldKind::Host => "\u{f1a5b}",
        FieldKind::Shell => "\u{e691}",
        FieldKind::Kernel => "\u{ebc6}",
        FieldKind::Packages => "\u{f0ffa}",
        FieldKind::User => "\u{f4ff}",
        FieldKind::Terminal => "\u{e795}",
        FieldKind::Desktop => "\u{f2d0}",
        FieldKind::Cpu => "\u{f035b}",
        FieldKind::Gpu => "\u{f0379}",
        FieldKind::Memory => "\u{f2db}",
        FieldKind::Uptime => "\u{f0109}",
        FieldKind::Resolution => "\u{f03e}",
        FieldKind::Timezone => "\u{f0954}",
        FieldKind::Disk => "\u{f0a0}",
        FieldKind::Empty => "",
    }
}

/// The fields a layout selects, section by section, one per listed name,
/// in the order listed. These, and only these, are the fields to probe.
pub fn get_info_vecs(layout: &Vec<Vec<String>>) -> (r: Vec<Vec<FieldKind>>)
    ensures
        r@.len() == layout@.len(),
        forall|s: int|
            0 <= s < r@.len() ==> (#[trigger] r@[s])@.len() == layout@[s]@.len() && forall|f: int|
                0 <= f < r@[s]@.len() ==> #[trigger] r@[s]@[f] == kind_named(layout@[s]@[f]@),
{
    let mut r: Vec<Vec<FieldKind>> = Vec::new();
    let mut s: usize = 0;
    while s < layout.len()
        invariant
            s <= layout@.len(),
            r@.len() == s,
            forall|t: int|
                0 <= t < s ==> (#[trigger] r@[t])@.len() == layout@[t]@.len() && forall|f: int|
                    0 <= f < r@[t]@.len() ==> #[trigger] r@[t]@[f] == kind_named(layout@[t]@[f]@),
        decreases layout@.len() - s,
    {
        let names = &layout[s];
        let mut kinds: Vec<FieldKind> = Vec::new();
        let mut f: usize = 0;
        while f < names.len()
            invariant
                f <= names@.len(),
                kinds@.len() == f,
                forall|g: int| 0 <= g < f ==> #[trigger] kinds@[g] == kind_named(names@[g]@),
            decreases names@.len() - f,
        {
            kinds.push(field_kind(names[f].as_str()));
            f = f + 1;
        }
        r.push(kinds);
        s = s + 1;
    }
    r
}

/// A field ready to be shown: its title, its icon and its value.
pub struct ResolvedField {
    pub title: String,
    pub icon: String,
    pub value: String,
}

impl View for ResolvedField {
    type V = (Seq<char>, Seq<char>, Seq<char>);

    open spec fn view(&self) -> (Seq<char>, Seq<char>, Seq<char>) {
        (self.title@, self.icon@, self.value@)
    }
}

/// A section of fields with their probed values, in order; a field whose
/// value is empty (or missing) is left out.
pub open spec fn assembled(kinds: Seq<FieldKind>, values: Seq<Seq<char>>) -> Seq<
    (Seq<char>, Seq<char>, Seq<char>),
>
    decreases kinds.len(),
{
    if kinds.len() == 0 {
        Seq::empty()
    } else {
        let prev = assembled(kinds.drop_last(), values);
        let f = kinds.len() - 1;
        if f < values.len() && values[f].len() > 0 {
            prev.push((title_of(kinds[f]), icon_of(kinds[f]), values[f]))
        } else {
            prev
        }
    }
}

/// Groups probed values with their fields, section by section: `values[s][f]`
/// is the value of field `kinds[s][f]`, each probed on its own.
pub fn assemble(kinds: &Vec<Vec<FieldKind>>, values: &Vec<Vec<String>>) -> (r: Vec<
    Vec<ResolvedField>,
>)
    ensures
        r@.len() == kinds@.len(),
        forall|s: int|
            0 <= s < r@.len() ==> (#[trigger] r@[s])@.map_values(|x: ResolvedField| x@)
                == assembled(
                kinds@[s]@,
                if s < values@.len() {
                    values@[s]@.map_values(|v: String| v@)
                } else {
                    Seq::empty()
                },
            ),
{
    let mut r: Vec<Vec<ResolvedField>> = Vec::new();
    let mut s: usize = 0;
    while s < kinds.len()
        invariant
            s <= kinds@.len(),
            r@.len() == s,
            forall|t: int|
                0 <= t < s ==> (#[trigger] r@[t])@.map_values(|x: ResolvedField| x@) == assembled(
                    kinds@[t]@,
                    if t < values@.len() {
                        values@[t]@.map_values(|v: String| v@)
                    } else {
                        Seq::empty()
                    },
                ),
        decreases kinds@.len() - s,
    {
        let ghost vals: Seq<Seq<char>> = if s < values@.len() {
            values@[s as int]@.map_values(|v: String| v@)
        } else {
            Seq::empty()
        };
        let section = &kinds[s];
        let mut out: Vec<ResolvedField> = Vec::new();
        let mut f: usize = 0;
        while f < section.len()
            invariant
                f <= section@.len(),
                out@.map_values(|x: ResolvedField| x@) == assembled(section@.subrange(0, f as int), vals),
                vals == if s < values@.len() {
                    values@[s as int]@.map_values(|v: String| v@)
                } else {
                    Seq::empty()
                },
                s < kinds@.len(),
                section@ == kinds@[s as int]@,
            decreases section@.len() - f,
        {
            assert(section@.subrange(0, f + 1).drop_last() =~= section@.subrange(0, f as int));
            let k = section[f];
            if s < values.len() && f < values[s].len() && values[s][f].unicode_len() > 0 {
                let field = ResolvedField {
                    title: owned(title(k)),
                    icon: owned(icon(k)),
                    value: values[s][f].clone(),
                };
                out.push(field);
                assert(out@.map_values(|x: ResolvedField| x@) =~= assembled(section@.subrange(0, f as int), vals).push(field@));
            }
            f = f + 1;
        }
        assert(section@.subrange(0, section@.len() as int) =~= section@);
        r.push(out);
        s = s + 1;
    }
    r
}

proof fn lemma_assembled_keeps(kinds: Seq<FieldKind>, values: Seq<Seq<char>>, f: int)
    requires
        0 <= f < kinds.len(),
        f < values.len(),
        values[f].len() > 0,
    ensures
        assembled(kinds, values).contains((title_of(kinds[f]), icon_of(kinds[f]), values[f])),
    decreases kinds.len(),
{
    let x = (title_of(kinds[f]), icon_of(kinds[f]), values[f]);
    let prev = assembled(kinds.drop_last(), values);
    if f == kinds.len() - 1 {
        assert(assembled(kinds, values) == prev.push(x));
        assert(prev.push(x)[prev.len() as int] == x);
    } else {
        lemma_assembled_keeps(kinds.drop_last(), values, f);
        let i = choose|i: int| 0 <= i < prev.len() && prev[i] == x;
        let last = kinds.len() - 1;
        if last < values.len() && values[last].len() > 0 {
            let y = (title_of(kinds[last]), icon_of(kinds[last]), values[last]);
            assert(prev.push(y)[i] == x);
        }
    }
}

/// The fields that the names of one configured section select.
pub open spec fn kinds_of(names: Seq<Seq<char>>) -> Seq<FieldKind> {
    names.map_values(|n: Seq<char>| kind_named(n))
}

/// A name listed in two places of a layout (in any case) selects the same
/// field at both, and each place is shown on its own, with the value probed
/// for it there.
pub proof fn lemma_repeated_name(
    layout: Seq<Seq<Seq<char>>>,
    values: Seq<Seq<Seq<char>>>,
    s1: int,
    f1: int,
    s2: int,
    f2: int,
)
    requires
        0 <= s1 < layout.len(),
        0 <= s2 < layout.len(),
        0 <= f1 < layout[s1].len(),
        0 <= f2 < layout[s2].len(),
        s1 < values.len() && f1 < values[s1].len(),
        s2 < values.len() && f2 < values[s2].len(),
        lower_of(layout[s1][f1]) == lower_of(layout[s2][f2]),
        values[s1][f1].len() > 0,
        values[s2][f2].len() > 0,
    ensures
        kind_named(layout[s1][f1]) == kind_named(layout[s2][f2]),
        assembled(kinds_of(layout[s1]), values[s1]).contains(
            (
                title_of(kind_named(layout[s1][f1])),
                icon_of(kind_named(layout[s1][f1])),
                values[s1][f1],
            ),
        ),
        assembled(kinds_of(layout[s2]), values[s2]).contains(
            (
                title_of(kind_named(layout[s1][f1])),
                icon_of(kind_named(layout[s1][f1])),
                values[s2][f2],
            ),
        ),
{
    lemma_assembled_keeps(kinds_of(layout[s1]), values[s1], f1);
    lemma_assembled_keeps(kinds_of(layout[s2]), values[s2], f2);
}

} // verus!
