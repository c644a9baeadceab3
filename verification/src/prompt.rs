use vstd::prelude::*;
use crate::text::{trim, trimmed, words, split_whitespace, same_text, parse_i32, parse_i32_spec, chars_of};

verus! {

/// What the line-oriented prompt does with a line of input.
#[derive(PartialEq, Eq, Structural, Clone, Copy)]
pub enum Command {
    /// Print the total and used memory.
    MemoryInfo,
    /// Print the network counters.
    NetworkInfo,
    /// A recognised command that does nothing (`sysinfo`, `hddtemp`,
    /// `gputemp`, `sensors`).
    Nothing,
    /// Print the list of commands.
    Help,
    /// Look a process up by pid; holds the line's second word read as a pid,
    /// if it is one.
    FindById(Option<i32>),
    /// Kill the demonstration process.
    Kill,
    /// Look processes up by name.
    FindByName,
    /// Print the process table by increasing pid (the `desc` command).
    SortAscending,
    /// Print the process table unsorted (the `PT` command).
    ProcessTable,
    /// Print the process table by decreasing pid (the `asc` command).
    SortDescending,
    /// Leave the prompt.
    Quit,
    /// Anything else: print the list of commands.
    Unknown,
}

/// The command a line of input asks for, once its surrounding white space is
/// removed.
pub open spec fn command_of(line: Seq<char>) -> Command {
    let t = trimmed(line);
    if t == "memory info "@ {
        Command::MemoryInfo
    } else if t == "Network info"@ {
        Command::NetworkInfo
    } else if t == "sysinfo"@ || t == "hddtemp"@ || t == "gputemp"@ || t == "sensors"@ {
        Command::Nothing
    } else if t == "help"@ {
        Command::Help
    } else if t == "findbyid"@ {
        Command::FindById(if words(line).len() > 1 { parse_i32_spec(words(line)[1]) } else { None })
    } else if t == "kill"@ {
        Command::Kill
    } else if t == "finsbyname"@ {
        Command::FindByName
    } else if t == "desc"@ {
        Command::SortAscending
    } else if t == "PT"@ {
        Command::ProcessTable
    } else if t == "asc"@ {
        Command::SortDescending
    } else if t == "quit"@ {
        Command::Quit
    } else {
        Command::Unknown
    }
}

/// The command a line of input asks for (see `command_of`).
pub fn command(line: &str) -> (c: Command)
    ensures
        c == command_of(line@),
{
    let t = trim(line);
    let t = t.as_str();
    if same_text(t, "memory info ") {
        Command::MemoryInfo
    } else if same_text(t, "Network info") {
        Command::NetworkInfo
    } else if same_text(t, "sysinfo") || same_text(t, "hddtemp") || same_text(t, "gputemp") || same_text(t, "sensors") {
        Command::Nothing
    } else if same_text(t, "help") {
        Command::Help
    } else if same_text(t, "findbyid") {
        let parts = split_whitespace(line);
        if parts.len() > 1 {
            Command::FindById(parse_i32(parts[1].as_str()))
        } else {
            Command::FindById(None)
        }
    } else if same_text(t, "kill") {
        Command::Kill
    } else if same_text(t, "finsbyname") {
        Command::FindByName
    } else if same_text(t, "desc") {
        Command::SortAscending
    } else if same_text(t, "PT") {
        Command::ProcessTable
    } else if same_text(t, "asc") {
        Command::SortDescending
    } else if same_text(t, "quit") {
        Command::Quit
    } else {
        Command::Unknown
    }
}

/// A process as the name search sees it: its pid, and its name when the
/// operating system could report one.
pub struct NamedProcess {
    pub pid: u32,
    pub name: Option<String>,
}

impl Clone for NamedProcess {
    fn clone(&self) -> (r: Self)
        ensures
            r == *self,
    {
        NamedProcess {
            pid: self.pid,
            name: match &self.name {
                Some(n) => Some(n.clone()),
                None => None,
            },
        }
    }
}

/// The lowercase form of a text, as `str::to_lowercase` maps it (Unicode's
/// full lowercase mapping, with the final-sigma rule).
pub uninterp spec fn lowercase(s: Seq<char>) -> Seq<char>;

/// `str::to_lowercase`: the lowercase form of `s`, which depends on the
/// characters of `s` alone.
#[verifier::external_body]
fn to_lowercase(s: &str) -> (r: String)
    ensures
        r@ == lowercase(s@),
{
    s.to_lowercase()
}

/// Whether every character of `s` is ASCII.
pub open spec fn is_ascii_text(s: Seq<char>) -> bool {
    forall|i: int| 0 <= i < s.len() ==> (#[trigger] s[i] as u32) < 128
}

/// The lowercase form of an ASCII character: `A` to `Z` become `a` to `z`,
/// every other character stays as it is.
pub open spec fn ascii_lower_char(c: char) -> char {
    if 65 <= (c as u32) && (c as u32) <= 90 {
        ((c as u32) + 32) as char
    } else {
        c
    }
}

/// The lowercase form of a text as `str::to_lowercase` gives it: on ASCII
/// text each letter is lowered on its own place; other text goes by
/// Unicode's full mapping.
pub open spec fn fold_case(s: Seq<char>) -> Seq<char> {
    if is_ascii_text(s) {
        s.map_values(|c: char| ascii_lower_char(c))
    } else {
        lowercase(s)
    }
}

/// The lowercase form of `c`, for an ASCII character.
fn lower_ascii_char(c: char) -> (r: char)
    requires
        (c as u32) < 128,
    ensures
        r == ascii_lower_char(c),
{
    let n = c as u32;
    if 65 <= n && n <= 90 {
        let b: u8 = (n + 32) as u8;
        b as char
    } else {
        c
    }
}

/// The lowercase form of `s`: ASCII text is lowered here letter by letter,
/// other text by `str::to_lowercase`.
fn fold_case_of(s: &str) -> (r: String)
    ensures
        r@ == fold_case(s@),
{
    let v = chars_of(s);
    let mut ascii = true;
    let mut i: usize = 0;
    while i < v.len()
        invariant
            v@ == s@,
            i <= v@.len(),
            ascii == (forall|k: int| 0 <= k < i ==> (#[trigger] v@[k] as u32) < 128),
        decreases v.len() - i,
    {
        if (v[i] as u32) >= 128 {
            ascii = false;
        }
        i += 1;
    }
    if !ascii {
        return to_lowercase(s);
    }
    let mut r = String::new();
    let mut j: usize = 0;
    while j < v.len()
        invariant
            v@ == s@,
            j <= v@.len(),
            is_ascii_text(v@),
            r@ == v@.take(j as int).map_values(|c: char| ascii_lower_char(c)),
        decreases v.len() - j,
    {
        let c = lower_ascii_char(v[j]);
        r.push(c);
        j += 1;
        assert(v@.take(j as int).map_values(|c: char| ascii_lower_char(c))
            =~= v@.take(j - 1).map_values(|c: char| ascii_lower_char(c)).push(ascii_lower_char(v@[j - 1])));
    }
    assert(v@.take(j as int) =~= v@);
    r
}

/// Whether the process is named `name`, ignoring case.
pub open spec fn named(p: NamedProcess, name: Seq<char>) -> bool {
    match p.name {
        Some(n) => fold_case(n@) == fold_case(name),
        None => false,
    }
}

/// The processes of `ps` named `name` (ignoring case), in order.
pub open spec fn named_processes(ps: Seq<NamedProcess>, name: Seq<char>) -> Seq<NamedProcess>
    decreases ps.len(),
{
    if ps.len() == 0 {
        Seq::empty()
    } else {
        let rest = named_processes(ps.drop_last(), name);
        if named(ps.last(), name) { rest.push(ps.last()) } else { rest }
    }
}

/// The processes whose name equals `name` once both are lowercased, in
/// order; processes without a name never match.
pub fn findbyname(processes: &Vec<NamedProcess>, name: &str) -> (found: Vec<NamedProcess>)
    ensures
        found@ == named_processes(processes@, name@),
{
    let wanted = fold_case_of(name);
    let mut found: Vec<NamedProcess> = Vec::new();
    let mut i: usize = 0;
    while i < processes.len()
        invariant
            i <= processes@.len(),
            wanted@ == fold_case(name@),
            found@ == named_processes(processes@.take(i as int), name@),
        decreases processes.len() - i,
    {
        let p = &processes[i];
        assert(processes@.take(i + 1).drop_last() =~= processes@.take(i as int));
        assert(processes@.take(i + 1).last() == processes@[i as int]);
        let matches = match &p.name {
            Some(n) => {
                let lower = fold_case_of(n.as_str());
                same_text(lower.as_str(), wanted.as_str())
            },
            None => false,
        };
        if matches {
            found.push(p.clone());
        }
        i += 1;
    }
    assert(processes@.take(i as int) =~= processes@);
    found
}


/// The name search ignores case: two names with the same lowercase form
/// find the same processes.
pub proof fn law_name_search_ignores_case(ps: Seq<NamedProcess>, a: Seq<char>, b: Seq<char>)
    requires
        fold_case(a) == fold_case(b),
    ensures
        named_processes(ps, a) == named_processes(ps, b),
    decreases ps.len(),
{
    if ps.len() > 0 {
        law_name_search_ignores_case(ps.drop_last(), a, b);
    }
}

/// Two characters with the same code are the same character.
proof fn lemma_same_code_same_char(a: char, b: char)
    requires
        (a as u32) == (b as u32),
    ensures
        a == b,
{
    assert((a as int) == (b as int));
}

/// Whether two ASCII characters are equal once letter case is ignored: the
/// same character, or an upper-case letter and its lower-case form.
pub open spec fn same_ignoring_case(a: char, b: char) -> bool {
    ||| a == b
    ||| (65 <= (a as u32) <= 90 && (b as u32) == (a as u32) + 32)
    ||| (65 <= (b as u32) <= 90 && (a as u32) == (b as u32) + 32)
}

/// For ASCII names the search compares letter by letter: a process matches
/// exactly when its name has as many characters as `name` and each of them
/// equals the one of `name` at the same place, up to letter case. So names
/// of different lengths, or that differ in a digit or any other
/// non-letter, never match.
pub proof fn law_ascii_names_match_letter_by_letter(p: NamedProcess, name: Seq<char>)
    requires
        p.name is Some,
        is_ascii_text(p.name.unwrap()@),
        is_ascii_text(name),
    ensures
        named(p, name) <==> (p.name.unwrap()@.len() == name.len() && forall|i: int|
            0 <= i < name.len() ==> #[trigger] same_ignoring_case(p.name.unwrap()@[i], name[i])),
{
    let n = p.name.unwrap()@;
    let fa = n.map_values(|c: char| ascii_lower_char(c));
    let fb = name.map_values(|c: char| ascii_lower_char(c));
    if n.len() == name.len() && forall|i: int| 0 <= i < n.len() ==> #[trigger] same_ignoring_case(n[i], name[i]) {
        assert forall|i: int| 0 <= i < n.len() implies fa[i] == fb[i] by {
            assert(same_ignoring_case(n[i], name[i]));
            assert((n[i] as u32) < 128);
            assert((name[i] as u32) < 128);
        }
        assert(fa =~= fb);
    }
    if fa == fb {
        assert(fa.len() == n.len());
        assert forall|i: int| 0 <= i < n.len() implies #[trigger] same_ignoring_case(n[i], name[i]) by {
            assert(fa[i] == fb[i]);
            let a = n[i];
            let b = name[i];
            assert((a as u32) < 128);
            assert((b as u32) < 128);
            let la = ascii_lower_char(a);
            let lb = ascii_lower_char(b);
            assert(la as u32 == if 65 <= (a as u32) <= 90 { (a as u32) + 32 } else { (a as u32) as int });
            assert(lb as u32 == if 65 <= (b as u32) <= 90 { (b as u32) + 32 } else { (b as u32) as int });
            assert(la as u32 == lb as u32);
            if 65 <= (a as u32) <= 90 {
                if 65 <= (b as u32) <= 90 {
                    lemma_same_code_same_char(a, b);
                } else {
                    assert((b as u32) == (a as u32) + 32);
                }
            } else if 65 <= (b as u32) <= 90 {
                assert((a as u32) == (b as u32) + 32);
            } else {
                lemma_same_code_same_char(a, b);
            }
        }
    }
}
} // verus!
