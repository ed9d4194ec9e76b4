//! What the host probes compute once their raw input is at hand: durations,
//! memory sizes, shell names and OS-release values.
use crate::text::{
    decimal, digit_char, find_char, find_char_from, find_str, first_infix, has_prefix, join, joined,
    lines_of, owned, push_char, push_decimal, push_str, split_lines, split_words, starts_with, str_eq,
    substring, trim, trim_range, trimmed, words,
};
use vstd::prelude::*;
use vstd::string::StrSliceExecFns;

verus! {

/// `value unit`, or nothing when the value is zero.
pub open spec fn duration_part(value: nat, unit: Seq<char>) -> Seq<Seq<char>> {
    if value > 0 {
        seq![decimal(value) + " "@ + unit]
    } else {
        Seq::empty()
    }
}

/// An uptime in words: days, hours, minutes and seconds, each only when it
/// is not zero, separated by commas.
pub open spec fn duration_text(secs: nat) -> Seq<char> {
    joined(
        duration_part(secs / 86400, "days"@) + duration_part((secs % 86400) / 3600, "hours"@)
            + duration_part((secs % 3600) / 60, "minutes"@) + duration_part(secs % 60, "seconds"@),
        ", "@,
    )
}

fn push_part(parts: &mut Vec<String>, value: u64, unit: &str)
    ensures
        final(parts)@.map_values(|s: String| s@) == old(parts)@.map_values(|s: String| s@)
            + duration_part(value as nat, unit@),
{
    if value > 0 {
        let mut s = String::new();
        push_decimal(&mut s, value);
        push_str(&mut s, " ");
        push_str(&mut s, unit);
        parts.push(s);
    }
    assert(final(parts)@.map_values(|s: String| s@) =~= old(parts)@.map_values(|s: String| s@)
        + duration_part(value as nat, unit@));
}

/// Writes a number of seconds as days, hours, minutes and seconds.
pub fn format_duration(secs: u64) -> (r: String)
    ensures
        r@ == duration_text(secs as nat),
{
    let mut parts: Vec<String> = Vec::new();
    push_part(&mut parts, secs / 86400, "days");
    push_part(&mut parts, (secs % 86400) / 3600, "hours");
    push_part(&mut parts, (secs % 3600) / 60, "minutes");
    push_part(&mut parts, secs % 60, "seconds");
    let r = join(&parts, ", ");
    assert(parts@.map_values(|s: String| s@) =~= duration_part((secs / 86400) as nat, "days"@)
        + duration_part(((secs % 86400) / 3600) as nat, "hours"@) + duration_part(
        ((secs % 3600) / 60) as nat,
        "minutes"@,
    ) + duration_part((secs % 60) as nat, "seconds"@));
    r
}

/// A size in KiB as hundredths of a GiB, rounded to nearest, ties to even.
pub open spec fn gib_hundredths(kib: nat) -> nat {
    let q = kib * 100 / 1048576;
    let rem = kib * 100 % 1048576;
    if 2 * rem > 1048576 || (2 * rem == 1048576 && q % 2 == 1) {
        q + 1
    } else {
        q
    }
}

/// A size in KiB written in GiB with two decimals.
pub open spec fn gib_text(kib: nat) -> Seq<char> {
    let h = gib_hundredths(kib);
    decimal(h / 100) + "."@ + seq![digit_char((h % 100) / 10), digit_char(h % 10)] + " GiB"@
}

fn small_digit(d: u128) -> (c: char)
    requires
        d < 10,
    ensures
        c == digit_char(d as nat),
{
    if d == 0 {
        '0'
    } else if d == 1 {
        '1'
    } else if d == 2 {
        '2'
    } else if d == 3 {
        '3'
    } else if d == 4 {
        '4'
    } else if d == 5 {
        '5'
    } else if d == 6 {
        '6'
    } else if d == 7 {
        '7'
    } else if d == 8 {
        '8'
    } else {
        '9'
    }
}

/// Writes a size in KiB as GiB with two decimals (`1.50 GiB`).
pub fn format_bytes(kbytes: u64) -> (r: String)
    ensures
        r@ == gib_text(kbytes as nat),
{
    let scaled: u128 = (kbytes as u128) * 100;
    let q: u128 = scaled / 1048576;
    let rem: u128 = scaled % 1048576;
    let h: u128 = if 2 * rem > 1048576 || (2 * rem == 1048576 && q % 2 == 1) {
        q + 1
    } else {
        q
    };
    assert(h == gib_hundredths(kbytes as nat));
    assert(h / 100 <= u64::MAX) by (nonlinear_arith)
        requires
            h <= q + 1,
            q == (kbytes as u128) * 100 / 1048576,
            kbytes <= u64::MAX,
    ;
    let mut r = String::new();
    push_decimal(&mut r, (h / 100) as u64);
    push_str(&mut r, ".");
    push_char(&mut r, small_digit((h % 100) / 10));
    push_char(&mut r, small_digit(h % 10));
    push_str(&mut r, " GiB");
    assert(r@ =~= gib_text(kbytes as nat));
    r
}

/// Memory in use and in all, from the total and the available KiB: `used / total`.
pub open spec fn memory_text(total_kib: nat, available_kib: nat) -> Seq<char> {
    let used = if available_kib <= total_kib {
        (total_kib - available_kib) as nat
    } else {
        0
    };
    gib_text(used) + " / "@ + gib_text(total_kib)
}

/// Writes memory use; more available than total counts as none in use.
pub fn mem_usage(total_kib: u64, available_kib: u64) -> (r: String)
    ensures
        r@ == memory_text(total_kib as nat, available_kib as nat),
{
    let used = if available_kib <= total_kib {
        total_kib - available_kib
    } else {
        0
    };
    let mut r = format_bytes(used);
    push_str(&mut r, " / ");
    let t = format_bytes(total_kib);
    push_str(&mut r, t.as_str());
    r
}

/// Position of the last `c` in `s`, or -1.
pub open spec fn last_index_of(s: Seq<char>, c: char) -> int
    decreases s.len(),
{
    if s.len() == 0 {
        -1
    } else if s.last() == c {
        s.len() - 1
    } else {
        last_index_of(s.drop_last(), c)
    }
}

/// The part of `s` after its last `c`; all of `s` when it has none.
pub open spec fn after_last(s: Seq<char>, c: char) -> Seq<char> {
    s.subrange(last_index_of(s, c) + 1, s.len() as int)
}

/// The shell's name: the last component of its path.
pub fn shell_name(shell_path: &str) -> (r: String)
    ensures
        r@ == after_last(shell_path@, '/'),
{
    after_last_char(shell_path, '/')
}

/// What `split('=').nth(1)` gives: the text between the first `=` of a line
/// and the next one (or the end); nothing when the line has no `=`.
pub open spec fn value_after_eq(line: Seq<char>) -> Option<Seq<char>> {
    let e = find_char(line, '=');
    if 0 <= e < line.len() {
        let rest = line.subrange(e + 1, line.len() as int);
        Some(rest.subrange(0, find_char(rest, '=')))
    } else {
        None
    }
}

/// `s` without the `c` characters it begins with.
pub open spec fn drop_leading(s: Seq<char>, c: char) -> Seq<char>
    decreases s.len(),
{
    if s.len() > 0 && s[0] == c {
        drop_leading(s.drop_first(), c)
    } else {
        s
    }
}

/// `s` without the `c` characters it ends with.
pub open spec fn drop_trailing(s: Seq<char>, c: char) -> Seq<char>
    decreases s.len(),
{
    if s.len() > 0 && s.last() == c {
        drop_trailing(s.drop_last(), c)
    } else {
        s
    }
}

/// A value without the double quotes around it.
pub open spec fn trim_quotes(s: Seq<char>) -> Seq<char> {
    drop_trailing(drop_leading(s, '"'), '"')
}

/// Removes the double quotes at both ends of `s`.
pub fn unquote(s: &str) -> (r: String)
    ensures
        r@ == trim_quotes(s@),
{
    let n = s.unicode_len();
    let mut i: usize = 0;
    assert(s@.subrange(0, n as int) =~= s@);
    while i < n && s.get_char(i) == '"'
        invariant
            n == s@.len(),
            i <= n,
            drop_leading(s@, '"') == drop_leading(s@.subrange(i as int, n as int), '"'),
        decreases n - i,
    {
        assert(s@.subrange(i as int, n as int).drop_first() =~= s@.subrange(i + 1, n as int));
        i = i + 1;
    }
    let mut j: usize = n;
    while j > i && s.get_char(j - 1) == '"'
        invariant
            n == s@.len(),
            i <= j <= n,
            drop_leading(s@, '"') == s@.subrange(i as int, n as int),
            trim_quotes(s@) == drop_trailing(s@.subrange(i as int, j as int), '"'),
        decreases j - i,
    {
        assert(s@.subrange(i as int, j as int).drop_last() =~= s@.subrange(i as int, j - 1));
        j = j - 1;
    }
    substring(s, i, j)
}

/// The value of `key` in OS-release lines: taken from the first line that
/// begins with `key` and holds a `=`, unquoted.
pub open spec fn release_value(lines: Seq<Seq<char>>, key: Seq<char>) -> Option<Seq<char>>
    decreases lines.len(),
{
    if lines.len() == 0 {
        None
    } else if has_prefix(lines[0], key) && value_after_eq(lines[0]) is Some {
        Some(trim_quotes(value_after_eq(lines[0])->0))
    } else {
        release_value(lines.drop_first(), key)
    }
}

/// The value of `key` from the first of the files (given by their contents,
/// in order) that has it.
pub open spec fn files_value(contents: Seq<Seq<char>>, key: Seq<char>) -> Option<Seq<char>>
    decreases contents.len(),
{
    if contents.len() == 0 {
        None
    } else {
        match release_value(lines_of(contents[0]), key) {
            Some(v) => Some(v),
            None => files_value(contents.drop_first(), key),
        }
    }
}

/// The value part of one line, if it has one.
fn line_value(line: &str) -> (r: Option<String>)
    ensures
        match r {
            Some(v) => value_after_eq(line@) == Some(v@),
            None => value_after_eq(line@) is None,
        },
{
    let n = line.unicode_len();
    let e = find_char_from(line, '=', 0);
    assert(line@.subrange(0, n as int) =~= line@);
    if e >= n {
        return None;
    }
    let e2 = find_char_from(line, '=', e + 1);
    let v = substring(line, e + 1, e2);
    let ghost rest = line@.subrange(e + 1, n as int);
    assert(rest.subrange(0, e2 - (e + 1)) =~= v@);
    Some(v)
}

/// The value of `key` in one OS-release text.
fn release_value_in(content: &str, key: &str) -> (r: Option<String>)
    ensures
        match r {
            Some(v) => release_value(lines_of(content@), key@) == Some(v@),
            None => release_value(lines_of(content@), key@) is None,
        },
{
    let lines = split_lines(content);
    let ghost ls = lines@.map_values(|l: String| l@);
    let mut i: usize = 0;
    assert(ls.subrange(0, ls.len() as int) =~= ls);
    while i < lines.len()
        invariant
            i <= lines@.len(),
            ls == lines@.map_values(|l: String| l@),
            ls == lines_of(content@),
            release_value(ls, key@) == release_value(ls.subrange(i as int, ls.len() as int), key@),
        decreases lines@.len() - i,
    {
        assert(ls.subrange(i as int, ls.len() as int).drop_first() =~= ls.subrange(
            i + 1,
            ls.len() as int,
        ));
        let line = lines[i].as_str();
        if starts_with(line, key) {
            match line_value(line) {
                Some(v) => {
                    return Some(unquote(v.as_str()));
                },
                None => {},
            }
        }
        i = i + 1;
    }
    None
}

/// The value of `key` (such as `ID` or `NAME`) from the first OS-release
/// file, given by its contents, that has it.
pub fn search_file(contents: &Vec<String>, key: &str) -> (r: Option<String>)
    ensures
        match r {
            Some(v) => files_value(contents@.map_values(|c: String| c@), key@) == Some(v@),
            None => files_value(contents@.map_values(|c: String| c@), key@) is None,
        },
{
    let ghost cs = contents@.map_values(|c: String| c@);
    let mut i: usize = 0;
    assert(cs.subrange(0, cs.len() as int) =~= cs);
    while i < contents.len()
        invariant
            i <= contents@.len(),
            cs == contents@.map_values(|c: String| c@),
            files_value(cs, key@) == files_value(cs.subrange(i as int, cs.len() as int), key@),
        decreases contents@.len() - i,
    {
        assert(cs.subrange(i as int, cs.len() as int).drop_first() =~= cs.subrange(
            i + 1,
            cs.len() as int,
        ));
        match release_value_in(contents[i].as_str(), key) {
            Some(v) => {
                return Some(v);
            },
            None => {},
        }
        i = i + 1;
    }
    None
}

/// The part of `s` before its first `c`; all of `s` when it has none.
pub open spec fn before_char(s: Seq<char>, c: char) -> Seq<char> {
    s.subrange(0, find_char(s, c))
}

fn before_char_exec(s: &str, c: char) -> (r: String)
    ensures
        r@ == before_char(s@, c),
{
    let e = find_char_from(s, c, 0);
    assert(s@.subrange(0, s@.len() as int) =~= s@);
    substring(s, 0, e)
}

/// The keys of a CPU description that name the processor.
pub open spec fn is_cpu_key(k: Seq<char>) -> bool {
    k == "model name"@ || k == "Hardware"@ || k == "Processor"@ || k == "^cpu model"@ || k
        == "chip type"@ || k == "^cpu type"@
}

fn cpu_key(k: &str) -> (r: bool)
    ensures
        r == is_cpu_key(k@),
{
    str_eq(k, "model name") || str_eq(k, "Hardware") || str_eq(k, "Processor") || str_eq(
        k,
        "^cpu model",
    ) || str_eq(k, "chip type") || str_eq(k, "^cpu type")
}

/// The processor named by one `key: value` line, without the clock speed
/// that may follow an `@`.
pub open spec fn cpu_line_model(line: Seq<char>) -> Option<Seq<char>> {
    let p = first_infix(line, ": "@);
    if 0 <= p && p + 2 <= line.len() {
        let key = trimmed(line.subrange(0, p));
        let value = trimmed(line.subrange(p + 2, line.len() as int));
        if is_cpu_key(key) {
            Some(before_char(value, '@'))
        } else {
            None
        }
    } else {
        None
    }
}

/// The processor named by the first line that names one.
pub open spec fn cpu_model(lines: Seq<Seq<char>>) -> Option<Seq<char>>
    decreases lines.len(),
{
    if lines.len() == 0 {
        None
    } else {
        match cpu_line_model(lines[0]) {
            Some(m) => Some(m),
            None => cpu_model(lines.drop_first()),
        }
    }
}

/// The processor field: its model and temperature, or `N/A` and the
/// temperature when the CPU description is missing or names no model.
pub open spec fn cpu_text(cpuinfo: Option<String>, temp: Seq<char>) -> Seq<char> {
    match cpuinfo {
        Some(c) => match cpu_model(lines_of(c@)) {
            Some(m) => m + temp,
            None => "N/A "@ + temp,
        },
        None => "N/A "@ + temp,
    }
}

fn cpu_line_model_exec(line: &str) -> (r: Option<String>)
    ensures
        match r {
            Some(m) => cpu_line_model(line@) == Some(m@),
            None => cpu_line_model(line@) is None,
        },
{
    proof {
        reveal_strlit(": ");
    }
    match find_str(line, ": ") {
        None => None,
        Some(p) => {
            let n = line.unicode_len();
            let key = trim_range(line, 0, p);
            let value = trim_range(line, p + 2, n);
            if cpu_key(key.as_str()) {
                Some(before_char_exec(value.as_str(), '@'))
            } else {
                None
            }
        },
    }
}

/// The processor field from the CPU description (`None` when it could not
/// be read) and the temperature text.
pub fn cpu_info(cpuinfo: &Option<String>, temp: &str) -> (r: String)
    ensures
        r@ == cpu_text(*cpuinfo, temp@),
{
    match cpuinfo {
        None => {
            let mut r = owned("N/A ");
            push_str(&mut r, temp);
            r
        },
        Some(c) => {
            let lines = split_lines(c.as_str());
            let ghost ls = lines@.map_values(|l: String| l@);
            let mut i: usize = 0;
            assert(ls.subrange(0, ls.len() as int) =~= ls);
            while i < lines.len()
                invariant
                    i <= lines@.len(),
                    ls == lines@.map_values(|l: String| l@),
                    ls == lines_of(c@),
                    *cpuinfo == Some(*c),
                    cpu_model(ls) == cpu_model(ls.subrange(i as int, ls.len() as int)),
                decreases lines@.len() - i,
            {
                assert(ls.subrange(i as int, ls.len() as int).drop_first() =~= ls.subrange(
                    i + 1,
                    ls.len() as int,
                ));
                assert(ls.subrange(i as int, ls.len() as int)[0] == lines@[i as int]@);
                match cpu_line_model_exec(lines[i].as_str()) {
                    Some(m) => {
                        assert(cpu_model(ls.subrange(i as int, ls.len() as int)) == Some(m@));
                        let mut r = m;
                        push_str(&mut r, temp);
                        return r;
                    },
                    None => {},
                }
                i = i + 1;
            }
            let mut r = owned("N/A ");
            push_str(&mut r, temp);
            r
        },
    }
}

/// The pattern that finds the package temperature in the output of `sensors`.
pub const CPU_TEMP_PATTERN: &'static str = "Package id 0:\\s+\\+(\\d+\\.\\d+)\u{b0}C";

/// The text of capture group `group` in the leftmost match of the regular
/// expression `pattern` in `hay`, as the `regex` crate finds it.
pub uninterp spec fn regex_capture(pattern: Seq<char>, hay: Seq<char>, group: nat) -> Option<Seq<char>>;

/// Relies on regex's `Regex::new`, `Regex::captures` and `Captures::get`: the
/// text of group `group` in the leftmost match of `pattern` in `hay`; `None`
/// when the pattern does not compile, nothing matches, or the group took no part.
#[verifier::external_body]
fn capture_group(pattern: &str, hay: &str, group: usize) -> (r: Option<String>)
    ensures
        match r {
            Some(v) => regex_capture(pattern@, hay@, group as nat) == Some(v@),
            None => regex_capture(pattern@, hay@, group as nat) is None,
        },
{
    let re = regex::Regex::new(pattern).ok()?;
    let caps = re.captures(hay)?;
    let m = caps.get(group)?;
    Some(m.as_str().to_string())
}

/// A temperature reading in parentheses, in degrees Celsius, or `(N/A)`.
pub open spec fn temp_text(reading: Option<Seq<char>>) -> Seq<char> {
    match reading {
        Some(t) => "("@ + t + "\u{b0}C)"@,
        None => "(N/A)"@,
    }
}

/// Writes a temperature reading (the digits that were found, if any).
pub fn temp_label(reading: &Option<String>) -> (r: String)
    ensures
        r@ == temp_text(
            match reading {
                Some(t) => Some(t@),
                None => None,
            },
        ),
{
    match reading {
        Some(t) => {
            let mut r = owned("(");
            push_str(&mut r, t.as_str());
            push_str(&mut r, "\u{b0}C)");
            r
        },
        None => owned("(N/A)"),
    }
}

/// The processor temperature read from the output of `sensors`.
pub fn cpu_temp(sensors_output: &str) -> (r: String)
    ensures
        r@ == temp_text(regex_capture(CPU_TEMP_PATTERN@, sensors_output@, 1)),
{
    let reading = capture_group(CPU_TEMP_PATTERN, sensors_output, 1);
    temp_label(&reading)
}

/// The first line that begins with `p`.
pub open spec fn first_with_prefix(lines: Seq<Seq<char>>, p: Seq<char>) -> Option<Seq<char>>
    decreases lines.len(),
{
    if lines.len() == 0 {
        None
    } else if has_prefix(lines[0], p) {
        Some(lines[0])
    } else {
        first_with_prefix(lines.drop_first(), p)
    }
}

/// The disk field from the output of `df -h` (`None` when it failed): the
/// first file system whose line begins with `/`, as `(device) used / size (use%)`.
pub open spec fn disk_text(df: Option<String>) -> Seq<char> {
    match df {
        None => "N/A"@,
        Some(o) => match first_with_prefix(lines_of(o@), "/"@) {
            Some(l) => {
                let w = words(l);
                if w.len() >= 5 {
                    "("@ + w[0] + ") "@ + w[2] + " / "@ + w[1] + " ("@ + w[4] + ")"@
                } else {
                    Seq::empty()
                }
            },
            None => Seq::empty(),
        },
    }
}

fn first_line_with_prefix(lines: &Vec<String>, p: &str) -> (r: Option<usize>)
    ensures
        match r {
            Some(i) => i < lines@.len() && first_with_prefix(lines@.map_values(|l: String| l@), p@)
                == Some(lines@[i as int]@),
            None => first_with_prefix(lines@.map_values(|l: String| l@), p@) is None,
        },
{
    let ghost ls = lines@.map_values(|l: String| l@);
    let mut i: usize = 0;
    assert(ls.subrange(0, ls.len() as int) =~= ls);
    while i < lines.len()
        invariant
            i <= lines@.len(),
            ls == lines@.map_values(|l: String| l@),
            first_with_prefix(ls, p@) == first_with_prefix(ls.subrange(i as int, ls.len() as int), p@),
        decreases lines@.len() - i,
    {
        assert(ls.subrange(i as int, ls.len() as int).drop_first() =~= ls.subrange(
            i + 1,
            ls.len() as int,
        ));
        if starts_with(lines[i].as_str(), p) {
            return Some(i);
        }
        i = i + 1;
    }
    None
}

/// The disk field from the output of `df -h`.
pub fn disk_usage(df_output: &Option<String>) -> (r: String)
    ensures
        r@ == disk_text(*df_output),
{
    match df_output {
        None => owned("N/A"),
        Some(o) => {
            let lines = split_lines(o.as_str());
            match first_line_with_prefix(&lines, "/") {
                None => String::new(),
                Some(i) => {
                    let w = split_words(lines[i].as_str());
                    if w.len() >= 5 {
                        let mut r = owned("(");
                        push_str(&mut r, w[0].as_str());
                        push_str(&mut r, ") ");
                        push_str(&mut r, w[2].as_str());
                        push_str(&mut r, " / ");
                        push_str(&mut r, w[1].as_str());
                        push_str(&mut r, " (");
                        push_str(&mut r, w[4].as_str());
                        push_str(&mut r, ")");
                        r
                    } else {
                        String::new()
                    }
                },
            }
        },
    }
}

/// The first word that holds `c`.
pub open spec fn first_word_with(ws: Seq<Seq<char>>, c: char) -> Option<Seq<char>>
    decreases ws.len(),
{
    if ws.len() == 0 {
        None
    } else if find_char(ws[0], c) < ws[0].len() {
        Some(ws[0])
    } else {
        first_word_with(ws.drop_first(), c)
    }
}

/// The mode of a connected output in one line of `xrandr --query`: the
/// first word after ` connected` that holds an `x`, up to its first `+`.
pub open spec fn line_resolution(line: Seq<char>) -> Option<Seq<char>> {
    let i = first_infix(line, " connected"@);
    if 0 <= i < line.len() {
        match first_word_with(words(line.subrange(i + 1, line.len() as int)), 'x') {
            Some(w) => Some(before_char(w, '+')),
            None => None,
        }
    } else {
        None
    }
}

/// The modes of all connected outputs, in order.
pub open spec fn resolutions(lines: Seq<Seq<char>>) -> Seq<Seq<char>>
    decreases lines.len(),
{
    if lines.len() == 0 {
        Seq::empty()
    } else {
        match line_resolution(lines[0]) {
            Some(r) => seq![r] + resolutions(lines.drop_first()),
            None => resolutions(lines.drop_first()),
        }
    }
}

/// The resolution field from the output of `xrandr --query` (`None` when it
/// could not run): the modes of the connected outputs, comma separated.
pub open spec fn res_text(xrandr: Option<String>) -> Seq<char> {
    match xrandr {
        None => "N/A"@,
        Some(o) => joined(resolutions(lines_of(o@)), ", "@),
    }
}

fn line_resolution_exec(line: &str) -> (r: Option<String>)
    ensures
        match r {
            Some(v) => line_resolution(line@) == Some(v@),
            None => line_resolution(line@) is None,
        },
{
    let n = line.unicode_len();
    match find_str(line, " connected") {
        None => None,
        Some(i) => {
            if i >= n {
                return None;
            }
            let rest = substring(line, i + 1, n);
            let ws = split_words(rest.as_str());
            let ghost wv = ws@.map_values(|w: String| w@);
            let mut k: usize = 0;
            assert(wv.subrange(0, wv.len() as int) =~= wv);
            while k < ws.len()
                invariant
                    k <= ws@.len(),
                    wv == ws@.map_values(|w: String| w@),
                    wv == words(rest@),
                    i < n,
                    n == line@.len(),
                    first_infix(line@, " connected"@) == i,
                    rest@ == line@.subrange(i + 1, n as int),
                    first_word_with(wv, 'x') == first_word_with(
                        wv.subrange(k as int, wv.len() as int),
                        'x',
                    ),
                decreases ws@.len() - k,
            {
                assert(wv.subrange(k as int, wv.len() as int).drop_first() =~= wv.subrange(
                    k + 1,
                    wv.len() as int,
                ));
                assert(wv.subrange(k as int, wv.len() as int)[0] == ws@[k as int]@);
                let w = ws[k].as_str();
                let e = find_char_from(w, 'x', 0);
                assert(w@.subrange(0, w@.len() as int) =~= w@);
                if e < w.unicode_len() {
                    return Some(before_char_exec(w, '+'));
                }
                k = k + 1;
            }
            None
        },
    }
}

/// The resolution field from the output of `xrandr --query`.
pub fn res(xrandr_output: &Option<String>) -> (r: String)
    ensures
        r@ == res_text(*xrandr_output),
{
    match xrandr_output {
        None => owned("N/A"),
        Some(o) => {
            let lines = split_lines(o.as_str());
            let ghost ls = lines@.map_values(|l: String| l@);
            let mut found: Vec<String> = Vec::new();
            let mut i: usize = 0;
            assert(ls.subrange(0, ls.len() as int) =~= ls);
            while i < lines.len()
                invariant
                    i <= lines@.len(),
                    ls == lines@.map_values(|l: String| l@),
                    resolutions(ls) == found@.map_values(|f: String| f@) + resolutions(
                        ls.subrange(i as int, ls.len() as int),
                    ),
                decreases lines@.len() - i,
            {
                let ghost sub = ls.subrange(i as int, ls.len() as int);
                assert(sub.drop_first() =~= ls.subrange(i + 1, ls.len() as int));
                assert(sub[0] == lines@[i as int]@);
                let ghost before = found@.map_values(|f: String| f@);
                match line_resolution_exec(lines[i].as_str()) {
                    Some(v) => {
                        found.push(v);
                        assert(found@.map_values(|f: String| f@) =~= before.push(v@));
                        assert(before.push(v@) + resolutions(sub.drop_first()) =~= before + (seq![v@]
                            + resolutions(sub.drop_first())));
                    },
                    None => {},
                }
                i = i + 1;
            }
            assert(resolutions(ls.subrange(ls.len() as int, ls.len() as int)) =~= Seq::<
                Seq<char>,
            >::empty());
            assert(found@.map_values(|f: String| f@) + Seq::<Seq<char>>::empty() =~= found@.map_values(
                |f: String| f@,
            ));
            assert(ls == lines_of(o@));
            join(&found, ", ")
        },
    }
}

/// The first variable that is set.
pub open spec fn first_set(vars: Seq<Option<String>>) -> Option<Seq<char>>
    decreases vars.len(),
{
    if vars.len() == 0 {
        None
    } else {
        match vars[0] {
            Some(v) => Some(v@),
            None => first_set(vars.drop_first()),
        }
    }
}

/// The desktop field: nothing without a display; else the first session
/// variable that is set; else the last word of the last line of the X
/// start-up script; else `N/A`.
pub open spec fn desktop_text(display_set: bool, session_vars: Seq<Option<String>>, xinitrc: Option<
    String,
>) -> Seq<char> {
    if !display_set {
        Seq::empty()
    } else {
        match first_set(session_vars) {
            Some(v) => v,
            None => match xinitrc {
                Some(x) => {
                    let ls = lines_of(x@);
                    if ls.len() > 0 {
                        after_last(ls.last(), ' ')
                    } else {
                        "N/A"@
                    }
                },
                None => "N/A"@,
            },
        }
    }
}

/// The desktop field from whether a display is set, the session variables
/// in order of preference, and the X start-up script if it could be read.
pub fn wm(display_set: bool, session_vars: &Vec<Option<String>>, xinitrc: &Option<String>) -> (r:
    String)
    ensures
        r@ == desktop_text(display_set, session_vars@, *xinitrc),
{
    if !display_set {
        return String::new();
    }
    let ghost vs = session_vars@;
    let mut i: usize = 0;
    assert(vs.subrange(0, vs.len() as int) =~= vs);
    while i < session_vars.len()
        invariant
            display_set,
            i <= vs.len(),
            vs == session_vars@,
            first_set(vs) == first_set(vs.subrange(i as int, vs.len() as int)),
        decreases vs.len() - i,
    {
        assert(vs.subrange(i as int, vs.len() as int).drop_first() =~= vs.subrange(
            i + 1,
            vs.len() as int,
        ));
        assert(vs.subrange(i as int, vs.len() as int)[0] == session_vars@[i as int]);
        match &session_vars[i] {
            Some(v) => {
                return v.clone();
            },
            None => {},
        }
        i = i + 1;
    }
    match xinitrc {
        Some(x) => {
            let lines = split_lines(x.as_str());
            if lines.len() > 0 {
                assert(lines@.map_values(|l: String| l@).last() == lines@[lines@.len() - 1]@);
                after_last_char(lines[lines.len() - 1].as_str(), ' ')
            } else {
                owned("N/A")
            }
        },
        None => owned("N/A"),
    }
}

/// The part of `s` after its last `c`.
fn after_last_char(s: &str, c: char) -> (r: String)
    ensures
        r@ == after_last(s@, c),
{
    let n = s.unicode_len();
    let mut start: usize = 0;
    let mut i: usize = 0;
    while i < n
        invariant
            n == s@.len(),
            i <= n,
            start <= i,
            start as int == last_index_of(s@.subrange(0, i as int), c) + 1,
        decreases n - i,
    {
        assert(s@.subrange(0, i + 1).drop_last() =~= s@.subrange(0, i as int));
        if s.get_char(i) == c {
            start = i + 1;
        }
        i = i + 1;
    }
    assert(s@.subrange(0, n as int) =~= s@);
    substring(s, start, n)
}

/// What `split(t).last()` gives: the text after the last of the
/// occurrences of `t` found from the left, each search starting after the
/// previous occurrence.
pub open spec fn split_last(s: Seq<char>, t: Seq<char>) -> Seq<char>
    decreases s.len(),
{
    let i = first_infix(s, t);
    if t.len() > 0 && 0 <= i && i + t.len() <= s.len() {
        split_last(s.subrange(i + t.len(), s.len() as int), t)
    } else {
        s
    }
}

/// The time-zone field: the trimmed contents of the time-zone file when it
/// could be read; else the part after `/zoneinfo/` of the local-time link's
/// target; else nothing.
pub open spec fn timezone_text(tz_file: Option<String>, link_target: Option<String>) -> Seq<char> {
    match tz_file {
        Some(t) => trimmed(t@),
        None => match link_target {
            Some(l) => if first_infix(l@, "/zoneinfo/"@) >= 0 {
                split_last(l@, "/zoneinfo/"@)
            } else {
                Seq::empty()
            },
            None => Seq::empty(),
        },
    }
}

/// The time-zone field from the time-zone file and the local-time link target.
pub fn timezone(tz_file: &Option<String>, link_target: &Option<String>) -> (r: String)
    ensures
        r@ == timezone_text(*tz_file, *link_target),
{
    match tz_file {
        Some(t) => trim(t.as_str()),
        None => match link_target {
            None => String::new(),
            Some(l) => {
                proof {
                    reveal_strlit("/zoneinfo/");
                }
                match find_str(l.as_str(), "/zoneinfo/") {
                    None => String::new(),
                    Some(_) => {
                        let mut cur = l.clone();
                        loop
                            invariant
                                *tz_file is None,
                                *link_target == Some(*l),
                                first_infix(l@, "/zoneinfo/"@) >= 0,
                                split_last(l@, "/zoneinfo/"@) == split_last(cur@, "/zoneinfo/"@),
                                "/zoneinfo/"@.len() == 10,
                            decreases cur@.len(),
                        {
                            match find_str(cur.as_str(), "/zoneinfo/") {
                                None => {
                                    return cur;
                                },
                                Some(i) => {
                                    let n = cur.unicode_len();
                                    cur = substring(cur.as_str(), i + 10, n);
                                },
                            }
                        }
                    },
                }
            },
        },
    }
}

/// Where the vendor of a graphics line is named: the first `NVIDIA`, else
/// the first `AMD`, else the first `Intel`; -1 when none is.
pub open spec fn vendor_at(line: Seq<char>) -> int {
    if first_infix(line, "NVIDIA"@) >= 0 {
        first_infix(line, "NVIDIA"@)
    } else if first_infix(line, "AMD"@) >= 0 {
        first_infix(line, "AMD"@)
    } else {
        first_infix(line, "Intel"@)
    }
}

/// The vendor label put before the model name.
pub open spec fn vendor_label(line: Seq<char>) -> Seq<char> {
    if first_infix(line, "NVIDIA"@) >= 0 {
        "NVIDIA"@
    } else if first_infix(line, "AMD"@) >= 0 {
        if first_infix(line, "Radeon"@) >= 0 {
            "AMD"@
        } else {
            "AMD Radeon"@
        }
    } else {
        "Intel Integrated"@
    }
}

/// `x`, but no more than `n`.
pub open spec fn clamp(x: int, n: int) -> int {
    if x > n {
        n
    } else {
        x
    }
}

/// The model name of a graphics line: the text in the first brackets found
/// after the vendor name (as long as the label), trimmed. Positions that
/// would run past the end of the line stop at it.
pub open spec fn gpu_model(line: Seq<char>) -> Seq<char> {
    let n = line.len() as int;
    let s0 = clamp(vendor_at(line) + vendor_label(line).len(), n);
    let j = find_char(line.subrange(s0, n), '[');
    let s1 = clamp(s0 + (if s0 + j < n { j } else { 0 }) + 1, n);
    let k = find_char(line.subrange(s1, n), ']');
    let e = s1 + (if s1 + k < n { k } else { 0 });
    trimmed(line.subrange(s1, e))
}

/// The graphics card of the first line of `lspci -nnk` that names a known vendor.
pub open spec fn gpu_first(lines: Seq<Seq<char>>) -> Option<Seq<char>>
    decreases lines.len(),
{
    if lines.len() == 0 {
        None
    } else if vendor_at(lines[0]) >= 0 {
        Some(vendor_label(lines[0]) + " "@ + gpu_model(lines[0]))
    } else {
        gpu_first(lines.drop_first())
    }
}

/// The graphics field: vendor, model and temperature, or `N/A` and the temperature.
pub open spec fn gpu_text(lspci: Seq<char>, temp: Seq<char>) -> Seq<char> {
    match gpu_first(lines_of(lspci)) {
        Some(g) => g + " "@ + temp,
        None => "N/A "@ + temp,
    }
}

fn vendor(line: &str) -> (r: (Option<usize>, &'static str))
    ensures
        match r.0 {
            Some(i) => vendor_at(line@) == i as int && i <= line@.len(),
            None => vendor_at(line@) < 0,
        },
        r.1@ == vendor_label(line@),
{
    match find_str(line, "NVIDIA") {
        Some(i) => (Some(i), "NVIDIA"),
        None => match find_str(line, "AMD") {
            Some(i) => {
                let label = match find_str(line, "Radeon") {
                    Some(_) => "AMD",
                    None => "AMD Radeon",
                };
                (Some(i), label)
            },
            None => (find_str(line, "Intel"), "Intel Integrated"),
        },
    }
}

fn gpu_line(line: &str) -> (r: Option<String>)
    ensures
        match r {
            Some(g) => vendor_at(line@) >= 0 && g@ == vendor_label(line@) + " "@ + gpu_model(line@),
            None => vendor_at(line@) < 0,
        },
{
    let (at, label) = vendor(line);
    match at {
        None => None,
        Some(i) => {
            let n = line.unicode_len();
            let plen = label.unicode_len();
            let s0 = if plen > n - i {
                n
            } else {
                i + plen
            };
            let j = find_char_from(line, '[', s0) - s0;
            let s1 = if s0 + j < n {
                s0 + j + 1
            } else if s0 < n {
                s0 + 1
            } else {
                n
            };
            let k = find_char_from(line, ']', s1) - s1;
            let e = if s1 + k < n {
                s1 + k
            } else {
                s1
            };
            let model = trim_range(line, s1, e);
            let mut r = owned(label);
            push_str(&mut r, " ");
            push_str(&mut r, model.as_str());
            Some(r)
        },
    }
}

/// The graphics field from the output of `lspci -nnk` (empty when it could
/// not run) and the temperature text.
pub fn gpu_info(lspci_output: &str, temp: &str) -> (r: String)
    ensures
        r@ == gpu_text(lspci_output@, temp@),
{
    let lines = split_lines(lspci_output);
    let ghost ls = lines@.map_values(|l: String| l@);
    let mut i: usize = 0;
    assert(ls.subrange(0, ls.len() as int) =~= ls);
    while i < lines.len()
        invariant
            i <= lines@.len(),
            ls == lines@.map_values(|l: String| l@),
            ls == lines_of(lspci_output@),
            gpu_first(ls) == gpu_first(ls.subrange(i as int, ls.len() as int)),
        decreases lines@.len() - i,
    {
        let ghost sub = ls.subrange(i as int, ls.len() as int);
        assert(sub.drop_first() =~= ls.subrange(i + 1, ls.len() as int));
        assert(sub[0] == lines@[i as int]@);
        match gpu_line(lines[i].as_str()) {
            Some(g) => {
                let mut r = g;
                push_str(&mut r, " ");
                push_str(&mut r, temp);
                return r;
            },
            None => {},
        }
        i = i + 1;
    }
    let mut r = owned("N/A ");
    push_str(&mut r, temp);
    r
}

/// The decimal digits `0` to `9`.
pub open spec fn is_digit(c: char) -> bool {
    '0' <= c && c <= '9'
}

/// The number that a run of decimal digits writes.
pub open spec fn digits_value(s: Seq<char>) -> int
    decreases s.len(),
{
    if s.len() == 0 {
        0
    } else {
        digits_value(s.drop_last()) * 10 + ((s.last() as u32) as int - 48)
    }
}

/// `s` without the `+` it may begin with.
pub open spec fn unsigned_part(s: Seq<char>) -> Seq<char> {
    if s.len() > 0 && s[0] == '+' {
        s.drop_first()
    } else {
        s
    }
}

/// Every character of `s` is a decimal digit.
pub open spec fn all_digits(s: Seq<char>) -> bool {
    forall|i: int| 0 <= i < s.len() ==> is_digit(#[trigger] s[i])
}

/// What `str::parse::<u64>` accepts: an optional `+`, then one or more
/// decimal digits whose value fits in a `u64`.
pub open spec fn parsed_u64(s: Seq<char>) -> Option<int> {
    let d = unsigned_part(s);
    if d.len() > 0 && all_digits(d) && digits_value(d) <= u64::MAX {
        Some(digits_value(d))
    } else {
        None
    }
}

/// Reads a decimal `u64`.
pub fn parse_u64(s: &str) -> (r: Option<u64>)
    ensures
        match r {
            Some(v) => parsed_u64(s@) == Some(v as int),
            None => parsed_u64(s@) is None,
        },
{
    let n = s.unicode_len();
    let start: usize = if n > 0 && s.get_char(0) == '+' {
        1
    } else {
        0
    };
    let ghost d = unsigned_part(s@);
    assert(d =~= s@.subrange(start as int, n as int));
    if start >= n {
        return None;
    }
    let mut acc: u128 = 0;
    let mut over = false;
    let mut i: usize = start;
    while i < n
        invariant
            n == s@.len(),
            start <= i <= n,
            d == s@.subrange(start as int, n as int),
            d == unsigned_part(s@),
            forall|k: int| start <= k < i ==> is_digit(#[trigger] s@[k]),
            over ==> digits_value(s@.subrange(start as int, i as int)) > u64::MAX,
            !over ==> acc as int == digits_value(s@.subrange(start as int, i as int)) && acc
                <= u64::MAX,
        decreases n - i,
    {
        let c = s.get_char(i);
        if !('0' <= c && c <= '9') {
            assert(!is_digit(d[i - start]));
            return None;
        }
        let ghost pre = s@.subrange(start as int, i as int);
        assert(s@.subrange(start as int, i + 1).drop_last() =~= pre);
        assert(digits_value(s@.subrange(start as int, i + 1)) == digits_value(pre) * 10 + ((c as u32) as int
            - 48));
        if !over {
            let next: u128 = acc * 10 + ((c as u32) - 48) as u128;
            if next > u64::MAX as u128 {
                over = true;
            } else {
                acc = next;
            }
        }
        i = i + 1;
    }
    assert forall|k: int| 0 <= k < d.len() implies is_digit(#[trigger] d[k]) by {
        assert(d[k] == s@[start + k]);
    }
    assert(s@.subrange(start as int, n as int) == d);
    if over {
        None
    } else {
        Some(acc as u64)
    }
}

/// The number in the second word of a memory-statistics line; 0 when there
/// is none or it does not read as a `u64`.
pub open spec fn mem_line_value(line: Seq<char>) -> int {
    let w = words(line);
    if w.len() >= 2 {
        match parsed_u64(w[1]) {
            Some(v) => v,
            None => 0,
        }
    } else {
        0
    }
}

/// The value of the last line that begins with `key`; 0 when none does.
pub open spec fn meminfo_value(lines: Seq<Seq<char>>, key: Seq<char>) -> int
    decreases lines.len(),
{
    if lines.len() == 0 {
        0
    } else if has_prefix(lines.last(), key) {
        mem_line_value(lines.last())
    } else {
        meminfo_value(lines.drop_last(), key)
    }
}

/// Reads the number in the second word of a memory-statistics line.
pub fn parse_memory_value(line: &str) -> (r: u64)
    ensures
        r as int == mem_line_value(line@),
{
    let w = split_words(line);
    if w.len() >= 2 {
        assert(w@.map_values(|x: String| x@)[1] == w@[1]@);
        match parse_u64(w[1].as_str()) {
            Some(v) => v,
            None => 0,
        }
    } else {
        0
    }
}

/// The memory field from the memory statistics (`None` when they could not
/// be read): `MemTotal` less `MemAvailable` in use, out of `MemTotal`.
pub open spec fn mem_text(meminfo: Option<String>) -> Seq<char> {
    match meminfo {
        None => "N/A"@,
        Some(m) => {
            let ls = lines_of(m@);
            memory_text(
                meminfo_value(ls, "MemTotal:"@) as nat,
                meminfo_value(ls, "MemAvailable:"@) as nat,
            )
        },
    }
}

proof fn lemma_meminfo_value_range(lines: Seq<Seq<char>>, key: Seq<char>)
    ensures
        0 <= meminfo_value(lines, key) <= u64::MAX,
    decreases lines.len(),
{
    if lines.len() > 0 {
        lemma_meminfo_value_range(lines.drop_last(), key);
        let w = words(lines.last());
        if w.len() >= 2 && parsed_u64(w[1]) is Some {
            lemma_digits_value_nonneg(unsigned_part(w[1]));
        }
    }
}

proof fn lemma_digits_value_nonneg(s: Seq<char>)
    requires
        all_digits(s),
    ensures
        digits_value(s) >= 0,
    decreases s.len(),
{
    if s.len() > 0 {
        assert(is_digit(s[s.len() - 1]));
        lemma_digits_value_nonneg(s.drop_last());
    }
}

/// The memory field from the memory statistics.
pub fn mem(meminfo: &Option<String>) -> (r: String)
    ensures
        r@ == mem_text(*meminfo),
{
    match meminfo {
        None => owned("N/A"),
        Some(m) => {
            let lines = split_lines(m.as_str());
            let ghost ls = lines@.map_values(|l: String| l@);
            let mut total: u64 = 0;
            let mut available: u64 = 0;
            let mut i: usize = 0;
            while i < lines.len()
                invariant
                    i <= lines@.len(),
                    ls == lines@.map_values(|l: String| l@),
                    total as int == meminfo_value(ls.subrange(0, i as int), "MemTotal:"@),
                    available as int == meminfo_value(ls.subrange(0, i as int), "MemAvailable:"@),
                decreases lines@.len() - i,
            {
                let ghost next = ls.subrange(0, i + 1);
                assert(next.drop_last() =~= ls.subrange(0, i as int));
                assert(next.last() == lines@[i as int]@);
                let line = lines[i].as_str();
                if starts_with(line, "MemTotal:") {
                    total = parse_memory_value(line);
                    proof {
                        if has_prefix(next.last(), "MemAvailable:"@) {
                            reveal_strlit("MemTotal:");
                            reveal_strlit("MemAvailable:");
                            assert(next.last()[3] == "MemTotal:"@[3]);
                            assert(next.last()[3] == "MemAvailable:"@[3]);
                        }
                    }
                } else if starts_with(line, "MemAvailable:") {
                    available = parse_memory_value(line);
                }
                i = i + 1;
            }
            assert(ls.subrange(0, ls.len() as int) =~= ls);
            assert(ls == lines_of(m@));
            proof {
                lemma_meminfo_value_range(ls, "MemTotal:"@);
                lemma_meminfo_value_range(ls, "MemAvailable:"@);
            }
            mem_usage(total, available)
        },
    }
}

/// The value of the last line that begins with `k1` or with `k2`; 0 when none does.
pub open spec fn meminfo_value_either(lines: Seq<Seq<char>>, k1: Seq<char>, k2: Seq<char>) -> int
    decreases lines.len(),
{
    if lines.len() == 0 {
        0
    } else if has_prefix(lines.last(), k1) || has_prefix(lines.last(), k2) {
        mem_line_value(lines.last())
    } else {
        meminfo_value_either(lines.drop_last(), k1, k2)
    }
}

/// The memory field as NetBSD's memory statistics give it: `MemTotal` less
/// the last of `MemAvailable` and `MemFree` in use, out of `MemTotal`.
pub open spec fn mem_text_netbsd(meminfo: Option<String>) -> Seq<char> {
    match meminfo {
        None => "N/A"@,
        Some(m) => {
            let ls = lines_of(m@);
            memory_text(
                meminfo_value(ls, "MemTotal:"@) as nat,
                meminfo_value_either(ls, "MemAvailable:"@, "MemFree:"@) as nat,
            )
        },
    }
}

proof fn lemma_meminfo_value_either_range(lines: Seq<Seq<char>>, k1: Seq<char>, k2: Seq<char>)
    ensures
        0 <= meminfo_value_either(lines, k1, k2) <= u64::MAX,
    decreases lines.len(),
{
    if lines.len() > 0 {
        lemma_meminfo_value_either_range(lines.drop_last(), k1, k2);
        let w = words(lines.last());
        if w.len() >= 2 && parsed_u64(w[1]) is Some {
            lemma_digits_value_nonneg(unsigned_part(w[1]));
        }
    }
}

/// The memory field from NetBSD's memory statistics.
pub fn mem_netbsd(meminfo: &Option<String>) -> (r: String)
    ensures
        r@ == mem_text_netbsd(*meminfo),
{
    match meminfo {
        None => owned("N/A"),
        Some(m) => {
            let lines = split_lines(m.as_str());
            let ghost ls = lines@.map_values(|l: String| l@);
            let mut total: u64 = 0;
            let mut free: u64 = 0;
            let mut i: usize = 0;
            while i < lines.len()
                invariant
                    i <= lines@.len(),
                    ls == lines@.map_values(|l: String| l@),
                    total as int == meminfo_value(ls.subrange(0, i as int), "MemTotal:"@),
                    free as int == meminfo_value_either(
                        ls.subrange(0, i as int),
                        "MemAvailable:"@,
                        "MemFree:"@,
                    ),
                decreases lines@.len() - i,
            {
                let ghost next = ls.subrange(0, i + 1);
                assert(next.drop_last() =~= ls.subrange(0, i as int));
                assert(next.last() == lines@[i as int]@);
                let line = lines[i].as_str();
                if starts_with(line, "MemTotal:") {
                    total = parse_memory_value(line);
                    proof {
                        reveal_strlit("MemTotal:");
                        reveal_strlit("MemAvailable:");
                        reveal_strlit("MemFree:");
                        if has_prefix(next.last(), "MemAvailable:"@) {
                            assert(next.last()[3] == "MemTotal:"@[3]);
                            assert(next.last()[3] == "MemAvailable:"@[3]);
                        }
                        if has_prefix(next.last(), "MemFree:"@) {
                            assert(next.last()[3] == "MemTotal:"@[3]);
                            assert(next.last()[3] == "MemFree:"@[3]);
                        }
                    }
                } else if starts_with(line, "MemAvailable:") || starts_with(line, "MemFree:") {
                    free = parse_memory_value(line);
                }
                i = i + 1;
            }
            assert(ls.subrange(0, ls.len() as int) =~= ls);
            assert(ls == lines_of(m@));
            proof {
                lemma_meminfo_value_range(ls, "MemTotal:"@);
                lemma_meminfo_value_either_range(ls, "MemAvailable:"@, "MemFree:"@);
            }
            mem_usage(total, free)
        },
    }
}

} // verus!
