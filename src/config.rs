//! Configuration: colors and their names, the layout document and its
//! built-in default, and the separate palette document.
use crate::text::{ascii_lower, lower_of, owned, str_eq, to_lower, to_lowercase};
use vstd::prelude::*;

verus! {

/// A terminal color of the palette.
#[derive(Clone, Copy, Debug, PartialEq, Eq, Structural)]
pub enum Color {
    Black,
    Red,
    Green,
    Yellow,
    Blue,
    Magenta,
    Cyan,
    White,
    /// No color: the terminal's own.
    Default,
}

/// The color for a name, whatever its case (Unicode lower case); a name
/// outside the known set gets white.
pub open spec fn color_named(name: Seq<char>) -> Color {
    color_for(lower_of(name))
}

/// The color for a name already in lower case.
pub open spec fn color_for(n: Seq<char>) -> Color {
    if n == "red"@ {
        Color::Red
    } else if n == "green"@ {
        Color::Green
    } else if n == "yellow"@ {
        Color::Yellow
    } else if n == "blue"@ {
        Color::Blue
    } else if n == "magenta"@ || n == "purple"@ {
        Color::Magenta
    } else if n == "cyan"@ {
        Color::Cyan
    } else if n == "black"@ {
        Color::Black
    } else if n == "default"@ {
        Color::Default
    } else {
        Color::White
    }
}

/// Reads a color name.
pub fn parse_color(name: &str) -> (r: Color)
    ensures
        r == color_named(name@),
{
    let lower = to_lowercase(name);
    color_of_lowered(lower.as_str())
}

/// Reads a color name already in lower case.
pub fn color_of_lowered(n: &str) -> (r: Color)
    ensures
        r == color_for(n@),
{
    if str_eq(n, "red") {
        Color::Red
    } else if str_eq(n, "green") {
        Color::Green
    } else if str_eq(n, "yellow") {
        Color::Yellow
    } else if str_eq(n, "blue") {
        Color::Blue
    } else if str_eq(n, "magenta") || str_eq(n, "purple") {
        Color::Magenta
    } else if str_eq(n, "cyan") {
        Color::Cyan
    } else if str_eq(n, "black") {
        Color::Black
    } else if str_eq(n, "default") {
        Color::Default
    } else {
        Color::White
    }
}

/// The palette used when configuration is ignored.
pub open spec fn default_palette_spec() -> Seq<Color> {
    seq![Color::Red, Color::Green, Color::Blue, Color::Magenta]
}

/// The color given to a slot past the end of the palette: the last color
/// it has, or no color when it is empty. The same for every such slot.
pub open spec fn fallback_color(palette: Seq<Color>) -> Color {
    if palette.len() > 0 {
        palette.last()
    } else {
        Color::Default
    }
}

/// The built-in palette: one color for the art, then one per default section.
pub fn default_palette() -> (r: Vec<Color>)
    ensures
        r@ == default_palette_spec(),
{
    let mut v: Vec<Color> = Vec::new();
    v.push(Color::Red);
    v.push(Color::Green);
    v.push(Color::Blue);
    v.push(Color::Magenta);
    assert(v@ =~= default_palette_spec());
    v
}

/// The palette read from color names, each name read by `color_named`.
pub fn colors_from_names(names: &Vec<String>) -> (r: Vec<Color>)
    ensures
        r@.len() == names@.len(),
        forall|i: int| 0 <= i < r@.len() ==> r@[i] == color_named(#[trigger] names@[i]@),
{
    let mut r: Vec<Color> = Vec::new();
    let mut i: usize = 0;
    while i < names.len()
        invariant
            i <= names@.len(),
            r@.len() == i,
            forall|k: int| 0 <= k < i ==> r@[k] == color_named(#[trigger] names@[k]@),
        decreases names@.len() - i,
    {
        r.push(parse_color(names[i].as_str()));
        i = i + 1;
    }
    r
}

/// The palette in use: the built-in one when configuration is ignored or
/// could not be read (`names` is `None`), else the configured names.
pub fn get_colors(names: &Option<Vec<String>>, ignore_config: bool) -> (r: Vec<Color>)
    ensures
        ignore_config || names is None ==> r@ == default_palette_spec(),
        !ignore_config && names is Some ==> r@.len() == names->0@.len() && forall|i: int|
            0 <= i < r@.len() ==> r@[i] == color_named(#[trigger] names->0@[i]@),
{
    if ignore_config {
        return default_palette();
    }
    match names {
        Some(n) => colors_from_names(n),
        None => default_palette(),
    }
}

/// The color of palette slot `idx` (slot 0 colors the art, slot `k + 1`
/// section `k`); past the end of the palette, the fallback color.
pub open spec fn slot_color(palette: Seq<Color>, idx: int) -> Color {
    if 0 <= idx < palette.len() {
        palette[idx]
    } else {
        fallback_color(palette)
    }
}

/// Looks up palette slot `idx`; a palette that is too short never fails.
pub fn section_color(palette: &Vec<Color>, idx: usize) -> (r: Color)
    ensures
        r == slot_color(palette@, idx as int),
{
    if idx < palette.len() {
        palette[idx]
    } else if palette.len() > 0 {
        palette[palette.len() - 1]
    } else {
        Color::Default
    }
}

/// A palette with fewer colors than sections plus one still gives every
/// section a color: those past its end get its last color (no color when
/// it is empty).
pub proof fn lemma_short_palette(palette: Seq<Color>, sections: nat, s: int)
    requires
        palette.len() < sections + 1,
        0 <= s < sections,
        s + 1 >= palette.len(),
    ensures
        slot_color(palette, s + 1) == fallback_color(palette),
        palette.len() > 0 ==> slot_color(palette, s + 1) == palette.last(),
        palette.len() == 0 ==> slot_color(palette, s + 1) == Color::Default,
{
}

/// Whether the palette has a color for the art and for each of `sections` sections.
pub fn palette_covers(palette: &Vec<Color>, sections: usize) -> (r: bool)
    ensures
        r == (palette@.len() > sections),
{
    palette.len() > sections
}

/// The views of a list of strings.
pub open spec fn views(v: Seq<String>) -> Seq<Seq<char>> {
    v.map_values(|s: String| s@)
}

/// Owned copies of string literals, in order.
pub fn to_strings(items: Vec<&str>) -> (r: Vec<String>)
    ensures
        r@.len() == items@.len(),
        forall|i: int| 0 <= i < r@.len() ==> #[trigger] r@[i]@ == items@[i]@,
{
    let mut r: Vec<String> = Vec::new();
    let mut i: usize = 0;
    while i < items.len()
        invariant
            i <= items@.len(),
            r@.len() == i,
            forall|k: int| 0 <= k < i ==> #[trigger] r@[k]@ == items@[k]@,
        decreases items@.len() - i,
    {
        r.push(owned(items[i]));
        i = i + 1;
    }
    r
}

/// The layout document: field names grouped into sections, in display
/// order, and the palette as color names (the first one for the art).
pub struct LayoutConfig {
    pub info: Vec<Vec<String>>,
    pub color: Vec<String>,
}

impl View for LayoutConfig {
    type V = (Seq<Seq<Seq<char>>>, Seq<Seq<char>>);

    open spec fn view(&self) -> (Seq<Seq<Seq<char>>>, Seq<Seq<char>>) {
        (self.info@.map_values(|sec: Vec<String>| views(sec@)), views(self.color@))
    }
}

/// The built-in layout document.
pub open spec fn default_layout_spec() -> (Seq<Seq<Seq<char>>>, Seq<Seq<char>>) {
    (
        seq![
            seq!["os"@, "host"@, "shell"@, "packs"@, "user"@],
            seq!["term"@, "de"@, "cpu"@, "gpu"@, "mem"@],
            seq!["uptime"@, "res"@, "time"@, "disk"@],
        ],
        seq!["red"@, "green"@, "blue"@, "purple"@],
    )
}

/// The text of the built-in layout document.
pub const DEFAULT_JSON: &'static str = "
{
  \"color\": [\"red\", \"green\", \"blue\", \"purple\"],
  \"info\": [
    [\"os\", \"host\", \"shell\", \"packs\", \"user\"],
    [\"term\", \"de\", \"cpu\", \"gpu\", \"mem\"],
    [\"uptime\", \"res\", \"time\", \"disk\"]
  ]
}
";

/// The text of the built-in layout document, which reads as `default_layout`.
pub fn default_json() -> (r: String)
    ensures
        r@ == DEFAULT_JSON@,
{
    owned(DEFAULT_JSON)
}

/// The built-in layout document as a value.
pub fn default_layout() -> (r: LayoutConfig)
    ensures
        r@ == default_layout_spec(),
{
    let s1 = to_strings(vec!["os", "host", "shell", "packs", "user"]);
    let s2 = to_strings(vec!["term", "de", "cpu", "gpu", "mem"]);
    let s3 = to_strings(vec!["uptime", "res", "time", "disk"]);
    let color = to_strings(vec!["red", "green", "blue", "purple"]);
    let info = vec![s1, s2, s3];
    let r = LayoutConfig { info, color };
    assert(views(s1@) =~= default_layout_spec().0[0]);
    assert(views(s2@) =~= default_layout_spec().0[1]);
    assert(views(s3@) =~= default_layout_spec().0[2]);
    assert(r@.0 =~= default_layout_spec().0);
    assert(r@.1 =~= default_layout_spec().1);
    r
}

/// The layout in use: the document read from the configuration file, or the
/// built-in one when the file could not be read or did not parse (`None`).
pub fn load_layout(decoded: Option<LayoutConfig>) -> (r: LayoutConfig)
    ensures
        decoded is None ==> r@ == default_layout_spec(),
        decoded is Some ==> r@ == decoded->0@,
{
    match decoded {
        Some(l) => l,
        None => default_layout(),
    }
}

/// The sections of the layout in use, as lists of field names.
pub fn parse_json_to_vec(decoded: Option<LayoutConfig>) -> (r: Vec<Vec<String>>)
    ensures
        decoded is None ==> r@.map_values(|sec: Vec<String>| views(sec@))
            == default_layout_spec().0,
        decoded is Some ==> r@.map_values(|sec: Vec<String>| views(sec@)) == decoded->0@.0,
{
    load_layout(decoded).info
}

/// The separate palette document: color names keyed by slot (`color0`, `color1`, ...).
pub struct JsonColors {
    colors: Vec<(String, String)>,
}

impl View for JsonColors {
    type V = Seq<(Seq<char>, Seq<char>)>;

    closed spec fn view(&self) -> Seq<(Seq<char>, Seq<char>)> {
        self.colors@.map_values(|p: (String, String)| (p.0@, p.1@))
    }
}

/// The built-in palette document.
pub open spec fn default_colors_spec() -> Seq<(Seq<char>, Seq<char>)> {
    seq![
        ("color0"@, "blue"@),
        ("color1"@, "green"@),
        ("color2"@, "red"@),
        ("color3"@, "purple"@),
    ]
}

/// The name stored under `key`: that of the first entry with that key.
pub open spec fn color_name_for(entries: Seq<(Seq<char>, Seq<char>)>, key: Seq<char>) -> Option<
    Seq<char>,
>
    decreases entries.len(),
{
    if entries.len() == 0 {
        None
    } else if entries[0].0 == key {
        Some(entries[0].1)
    } else {
        color_name_for(entries.drop_first(), key)
    }
}

/// No two entries share a key, as in the JSON object the document is read from.
pub open spec fn keys_unique(entries: Seq<(Seq<char>, Seq<char>)>) -> bool {
    forall|i: int, j: int|
        0 <= i < j < entries.len() ==> #[trigger] entries[i].0 != #[trigger] entries[j].0
}

impl JsonColors {
    /// The document's invariant: each slot key is named once.
    pub open spec fn wf(&self) -> bool {
        keys_unique(self@)
    }

    /// A palette document from (slot key, color name) entries with distinct keys.
    pub fn new(colors: Vec<(String, String)>) -> (r: JsonColors)
        requires
            keys_unique(colors@.map_values(|p: (String, String)| (p.0@, p.1@))),
        ensures
            r@ == colors@.map_values(|p: (String, String)| (p.0@, p.1@)),
            r.wf(),
    {
        JsonColors { colors }
    }

    /// The built-in palette document.
    pub fn default_colors() -> (r: JsonColors)
        ensures
            r@ == default_colors_spec(),
            r.wf(),
    {
        proof {
            reveal_strlit("color0");
            reveal_strlit("color1");
            reveal_strlit("color2");
            reveal_strlit("color3");
            let d = default_colors_spec();
            assert forall|i: int, j: int| 0 <= i < j < d.len() implies #[trigger] d[i].0
                != #[trigger] d[j].0 by {
                assert(d[i].0[5] != d[j].0[5]);
            }
        }
        let mut colors: Vec<(String, String)> = Vec::new();
        let mut colors: Vec<(String, String)> = Vec::new();
        colors.push((owned("color0"), owned("blue")));
        colors.push((owned("color1"), owned("green")));
        colors.push((owned("color2"), owned("red")));
        colors.push((owned("color3"), owned("purple")));
        let r = JsonColors { colors };
        assert(r@ =~= default_colors_spec());
        r
    }

    /// The palette document in use: the one read from the file, unless it did
    /// not parse (`None`) or the built-in one is asked for (`overriden`).
    pub fn load_from_file(decoded: Option<JsonColors>, overriden: bool) -> (r: JsonColors)
        requires
            decoded is Some ==> decoded->0.wf(),
        ensures
            r.wf(),
            overriden || decoded is None ==> r@ == default_colors_spec(),
            !overriden && decoded is Some ==> r@ == decoded->0@,
    {
        match decoded {
            Some(c) => {
                if overriden {
                    JsonColors::default_colors()
                } else {
                    c
                }
            },
            None => JsonColors::default_colors(),
        }
    }

    /// The color of slot `section`, if the document names one.
    pub fn get_color_by_section(&self, section: &str) -> (r: Option<Color>)
        ensures
            r == match color_name_for(self@, section@) {
                Some(n) => Some(color_for(ascii_lower(n))),
                None => None,
            },
    {
        let mut i: usize = 0;
        assert(self@.subrange(0, self@.len() as int) =~= self@);
        while i < self.colors.len()
            invariant
                i <= self@.len(),
                self@.len() == self.colors@.len(),
                color_name_for(self@, section@) == color_name_for(self@.subrange(i as int, self@.len() as int), section@),
            decreases self.colors@.len() - i,
        {
            let ghost rest = self@.subrange(i as int, self@.len() as int);
            assert(rest.drop_first() =~= self@.subrange(i + 1, self@.len() as int));
            if str_eq(self.colors[i].0.as_str(), section) {
                let lower = to_lower(self.colors[i].1.as_str());
                return Some(color_of_lowered(lower.as_str()));
            }
            i = i + 1;
        }
        None
    }
}

/// The color of slot `section`: from the document in use, else from the
/// built-in one, else no color.
pub fn get_color_config(section: &str, colors: &JsonColors) -> (r: Color)
    ensures
        r == match color_name_for(colors@, section@) {
            Some(n) => color_for(ascii_lower(n)),
            None => match color_name_for(default_colors_spec(), section@) {
                Some(n) => color_for(ascii_lower(n)),
                None => Color::Default,
            },
        },
{
    match colors.get_color_by_section(section) {
        Some(c) => c,
        None => match JsonColors::default_colors().get_color_by_section(section) {
            Some(c) => c,
            None => Color::Default,
        },
    }
}

/// Three lists of field names under fixed keys: an earlier form of the layout document.
pub struct InfoLists {
    pub info1: Vec<String>,
    pub info2: Vec<String>,
    pub info3: Vec<String>,
}

/// The built-in field names for a section key of `InfoLists`.
pub open spec fn default_info_list(section: Seq<char>) -> Seq<Seq<char>> {
    if section == "info1"@ {
        seq!["os"@, "host"@, "shell"@, "kernel"@, "packs"@]
    } else if section == "info2"@ {
        seq!["user"@, "term"@, "de"@]
    } else if section == "info3"@ {
        seq!["cpu"@, "gpu"@, "mem"@, "uptime"@, "res"@]
    } else {
        seq!["os"@]
    }
}

/// The built-in field names for `section`.
pub fn get_default_info_lists(section: &str) -> (r: Vec<String>)
    ensures
        views(r@) == default_info_list(section@),
{
    let r = if str_eq(section, "info1") {
        to_strings(vec!["os", "host", "shell", "kernel", "packs"])
    } else if str_eq(section, "info2") {
        to_strings(vec!["user", "term", "de"])
    } else if str_eq(section, "info3") {
        to_strings(vec!["cpu", "gpu", "mem", "uptime", "res"])
    } else {
        to_strings(vec!["os"])
    };
    assert(views(r@) =~= default_info_list(section@));
    r
}

/// The field names of `section` (`info1`, `info2` or `info3`): from the
/// document read, unless it is ignored or did not parse (`None`), or the key
/// is none of the three; the built-in names otherwise.
pub fn get_info(section: &str, ignore_custom_config: bool, decoded: &Option<InfoLists>) -> (r: Vec<
    String,
>)
    ensures
        ({
            let known = section@ == "info1"@ || section@ == "info2"@ || section@ == "info3"@;
            if ignore_custom_config || decoded is None || !known {
                views(r@) == default_info_list(section@)
            } else if section@ == "info1"@ {
                views(r@) == views(decoded->0.info1@)
            } else if section@ == "info2"@ {
                views(r@) == views(decoded->0.info2@)
            } else {
                views(r@) == views(decoded->0.info3@)
            }
        }),
{
    if ignore_custom_config {
        return get_default_info_lists(section);
    }
    match decoded {
        Some(lists) => {
            if str_eq(section, "info1") {
                clone_strings(&lists.info1)
            } else if str_eq(section, "info2") {
                clone_strings(&lists.info2)
            } else if str_eq(section, "info3") {
                clone_strings(&lists.info3)
            } else {
                get_default_info_lists(section)
            }
        },
        None => get_default_info_lists(section),
    }
}

/// A copy of a list of strings.
pub fn clone_strings(v: &Vec<String>) -> (r: Vec<String>)
    ensures
        views(r@) == views(v@),
{
    let mut r: Vec<String> = Vec::new();
    let mut i: usize = 0;
    while i < v.len()
        invariant
            i <= v@.len(),
            r@.len() == i,
            forall|k: int| 0 <= k < i ==> #[trigger] r@[k]@ == v@[k]@,
        decreases v@.len() - i,
    {
        r.push(v[i].clone());
        i = i + 1;
    }
    assert(views(r@) =~= views(v@));
    r
}

} // verus!
