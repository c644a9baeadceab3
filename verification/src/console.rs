use vstd::prelude::*;
use crate::text::{
    words, split_whitespace, same_text, chars_of, text_of, push_text, parse_i32,
    parse_i32_spec, decimal, pad_right_spec, push_padded_right, u64_text,
};
use crate::process::texts;

verus! {

/// Whether keys edit the command line.
#[derive(PartialEq, Eq, Structural, Clone, Copy)]
pub enum InputMode {
    Normal,
    Editing,
}

/// The interactive screen: the command line being typed, whether it is being
/// edited, the commands entered so far and the output of the last one.
pub struct App {
    /// Current value of the input box.
    pub input: String,
    /// Current input mode.
    pub input_mode: InputMode,
    pub messages: Vec<String>,
    pub output: Vec<String>,
}

/// What the key loop keeps between keys: whether the output is a process
/// table that can be scrolled, how many processes it lists, the argument of
/// the last report command, and the rows scrolled out of view.
pub struct Session {
    pub flag: bool,
    pub num: i32,
    pub arg: String,
    pub history: Vec<String>,
}

/// A key press, as far as the screen tells keys apart.
#[derive(PartialEq, Eq, Structural, Clone, Copy)]
pub enum Key {
    Char(char),
    Enter,
    Backspace,
    Esc,
    Up,
    Down,
    Other,
}

/// What the key loop must do after a key: nothing, stop, or fetch and show
/// something (the loop hands the result back to the screen).
pub enum Action {
    Continue,
    Quit,
    KernelVersion,
    OsVersion,
    HostName,
    SystemInformation,
    Sensors,
    Disks(String),
    DriveTemperatures(String),
    Cpus,
    GpuTemperatures(String),
    Kill(i32),
    Ignite(String),
    ProcessTable,
}

/// The abstract state of the screen and key loop.
#[verifier::ext_equal]
pub struct Console {
    pub input: Seq<char>,
    pub editing: bool,
    pub messages: Seq<Seq<char>>,
    pub output: Seq<Seq<char>>,
    pub flag: bool,
    pub num: i32,
    pub arg: Seq<char>,
    pub history: Seq<Seq<char>>,
}

/// The abstract form of an `Action`.
pub enum Order {
    Continue,
    Quit,
    KernelVersion,
    OsVersion,
    HostName,
    SystemInformation,
    Sensors,
    Disks(Seq<char>),
    DriveTemperatures(Seq<char>),
    Cpus,
    GpuTemperatures(Seq<char>),
    Kill(i32),
    Ignite(Seq<char>),
    ProcessTable,
}

impl Action {
    pub open spec fn order(self) -> Order {
        match self {
            Action::Continue => Order::Continue,
            Action::Quit => Order::Quit,
            Action::KernelVersion => Order::KernelVersion,
            Action::OsVersion => Order::OsVersion,
            Action::HostName => Order::HostName,
            Action::SystemInformation => Order::SystemInformation,
            Action::Sensors => Order::Sensors,
            Action::Disks(a) => Order::Disks(a@),
            Action::DriveTemperatures(a) => Order::DriveTemperatures(a@),
            Action::Cpus => Order::Cpus,
            Action::GpuTemperatures(a) => Order::GpuTemperatures(a@),
            Action::Kill(p) => Order::Kill(p),
            Action::Ignite(p) => Order::Ignite(p@),
            Action::ProcessTable => Order::ProcessTable,
        }
    }
}

/// The abstract state of a screen and its key loop.
pub open spec fn console(app: App, s: Session) -> Console {
    Console {
        input: app.input@,
        editing: app.input_mode == InputMode::Editing,
        messages: texts(app.messages@),
        output: texts(app.output@),
        flag: s.flag,
        num: s.num,
        arg: s.arg@,
        history: texts(s.history@),
    }
}

/// Whether a report command takes an argument (`df`, `hddtemp`, `gputemp`).
pub open spec fn takes_unit(cmd: Seq<char>) -> bool {
    cmd == "df"@ || cmd == "hddtemp"@ || cmd == "gputemp"@
}

/// What Enter does to the command line `c.input`: the line moves to the
/// messages, the output is cleared, and the first word picks the command.
pub open spec fn enter(c: Console) -> (Console, Order) {
    let parts = words(c.input);
    let cmd = parts[0];
    let base = Console { input: Seq::empty(), output: Seq::empty(), messages: c.messages.push(c.input), ..c };
    let off = Console { flag: false, ..base };
    let arg = if parts.len() == 2 { parts[1].drop_first() } else { c.arg };
    if cmd == "uname"@ {
        (off, Order::KernelVersion)
    } else if cmd == "release"@ {
        (off, Order::OsVersion)
    } else if cmd == "hostname"@ {
        (off, Order::HostName)
    } else if cmd == "sysinfo"@ {
        (off, Order::SystemInformation)
    } else if cmd == "sensors"@ {
        (off, Order::Sensors)
    } else if cmd == "df"@ {
        (Console { arg, ..off }, Order::Disks(arg))
    } else if cmd == "hddtemp"@ {
        (Console { arg, ..off }, Order::DriveTemperatures(arg))
    } else if cmd == "lscpu"@ {
        (off, Order::Cpus)
    } else if cmd == "gputemp"@ {
        (Console { arg, ..off }, Order::GpuTemperatures(arg))
    } else if cmd == "kill"@ {
        (off, if parts.len() == 2 { Order::Kill(parse_i32_spec(parts[1]).unwrap()) } else { Order::Continue })
    } else if cmd == "ignite"@ {
        (off, if parts.len() == 2 { Order::Ignite(parts[1]) } else { Order::Continue })
    } else if cmd == "ptable"@ {
        (base, Order::ProcessTable)
    } else if cmd == "clear"@ {
        (off, Order::Continue)
    } else {
        (Console { output: seq![": command not found\n"@], ..base }, Order::Continue)
    }
}

/// The effect of one key on the screen, and what the key loop must do next.
pub open spec fn step(c: Console, key: Key) -> (Console, Order) {
    if !c.editing {
        match key {
            Key::Char(ch) => {
                if ch == 'e' || ch == 'E' {
                    (Console { editing: true, ..c }, Order::Continue)
                } else if ch == 'q' || ch == 'Q' {
                    (c, Order::Quit)
                } else {
                    (c, Order::Continue)
                }
            },
            _ => (c, Order::Continue),
        }
    } else {
        match key {
            Key::Down => {
                if c.flag && c.output.len() > 0 && c.history.len() <= c.num - 45 {
                    (Console { output: c.output.remove(1), history: c.history.push(c.output[1]), ..c }, Order::Continue)
                } else {
                    (c, Order::Continue)
                }
            },
            Key::Up => {
                if c.flag && c.history.len() > 0 {
                    (Console { output: c.output.insert(1, c.history.last()), history: c.history.drop_last(), ..c }, Order::Continue)
                } else {
                    (c, Order::Continue)
                }
            },
            Key::Enter => enter(c),
            Key::Char(ch) => (Console { input: c.input.push(ch), ..c }, Order::Continue),
            Key::Backspace => {
                (Console { input: if c.input.len() > 0 { c.input.drop_last() } else { c.input }, ..c }, Order::Continue)
            },
            Key::Esc => (Console { editing: false, ..c }, Order::Continue),
            Key::Other => (c, Order::Continue),
        }
    }
}

/// Whether a key makes the screen fail: Enter on a blank line; a unit
/// argument that does not start with a one-byte character; a `kill` argument
/// that is not an `i32`; scrolling a process table that lists fewer than 45
/// processes or has too few rows left; scrolling back into an empty output.
pub open spec fn panics(c: Console, key: Key) -> bool {
    c.editing && match key {
        Key::Down => c.flag && c.output.len() > 0 && (c.num < 45 || (c.history.len() <= c.num - 45
            && c.output.len() < 2)),
        Key::Up => c.flag && c.history.len() > 0 && c.output.len() == 0,
        Key::Enter => {
            let parts = words(c.input);
            ||| parts.len() == 0
            ||| parts.len() == 2 && takes_unit(parts[0]) && !((parts[1][0] as u32) < 128)
            ||| parts.len() == 2 && parts[0] == "kill"@ && parse_i32_spec(parts[1]) is None
        },
        _ => false,
    }
}

/// The heading of the `ptable` output.
pub open spec fn ptable_heading() -> Seq<char> {
    pad_right_spec("PID"@, 10) + " "@ + pad_right_spec("%CPU"@, 10) + " "@ + pad_right_spec("%MEM"@, 20) + " "@
        + pad_right_spec("COMMAND"@, 30)
}

/// The `ptable` row of a process with a command line.
pub open spec fn ptable_row(pid: u32, cpu: Seq<char>, mem: Seq<char>, cmd: Seq<char>) -> Seq<char> {
    pad_right_spec(decimal(pid as nat), 10) + " "@ + pad_right_spec(cpu, 10) + " "@ + pad_right_spec(mem, 20) + " "@
        + pad_right_spec(cmd, 30)
}

/// One process of the `ptable` command, its usage figures rendered as text;
/// `cmdline` is `None` for a process without a command line.
pub struct Ptable {
    pub pid: u32,
    pub cpu: String,
    pub mem: String,
    pub cmdline: Option<String>,
}

/// The rows of the processes of `es` that have a command line, in order.
pub open spec fn ptable_rows(es: Seq<Ptable>) -> Seq<Seq<char>>
    decreases es.len(),
{
    if es.len() == 0 {
        Seq::empty()
    } else {
        let e = es.last();
        let rest = ptable_rows(es.drop_last());
        match e.cmdline {
            Some(cmd) => rest.push(ptable_row(e.pid, e.cpu@, e.mem@, cmd@)),
            None => rest,
        }
    }
}

/// The help line's pieces and whether each is bold.
pub open spec fn help_spec(editing: bool) -> Seq<(Seq<char>, bool)> {
    if editing {
        seq![("Press "@, false), ("Esc"@, true), (" to stop editing, "@, false), ("Enter"@, true), (" to record the message"@, false)]
    } else {
        seq![("Press "@, false), ("q"@, true), (" to exit, "@, false), ("e"@, true), (" to start editing."@, false)]
    }
}

/// The width of a text on a terminal, in columns, as `UnicodeWidthStr::width`
/// counts it.
pub uninterp spec fn display_width(s: Seq<char>) -> usize;

/// `UnicodeWidthStr::width`: the terminal width of `s`, a function of its
/// characters alone.
#[verifier::external_body]
fn text_width(s: &str) -> (w: usize)
    ensures
        w == display_width(s@),
{
    unicode_width::UnicodeWidthStr::width(s)
}

/// Whether every character of `s` is a printable ASCII character (a space
/// up to `~`).
pub open spec fn printable_ascii(s: Seq<char>) -> bool {
    forall|i: int| 0 <= i < s.len() ==> 32 <= (#[trigger] s[i] as u32) && (s[i] as u32) <= 126
}

/// The width of a text on a terminal, in columns: one column for each
/// printable ASCII character, and `UnicodeWidthStr::width` for any other
/// text.
pub open spec fn columns(s: Seq<char>) -> usize {
    if printable_ascii(s) {
        s.len() as usize
    } else {
        display_width(s)
    }
}

/// The width of `s` on a terminal: printable ASCII text is counted here,
/// other text by `UnicodeWidthStr::width`.
fn text_columns(s: &str) -> (w: usize)
    ensures
        w == columns(s@),
{
    let v = chars_of(s);
    let mut i: usize = 0;
    while i < v.len()
        invariant
            v@ == s@,
            i <= v@.len(),
            forall|k: int| 0 <= k < i ==> 32 <= (#[trigger] v@[k] as u32) && (v@[k] as u32) <= 126,
        decreases v.len() - i,
    {
        let n = v[i] as u32;
        if n < 32 || n > 126 {
            return text_width(s);
        }
        i += 1;
    }
    v.len()
}

/// A piece of the help line.
pub struct Span {
    pub text: String,
    pub bold: bool,
}

/// The colour of the input box.
#[derive(PartialEq, Eq, Structural, Clone, Copy)]
pub enum Tint {
    Yellow,
    Green,
}

/// What the screen shows: the help line (blinking outside editing), the
/// input box and its colour, the cursor (only while editing) and the output.
pub struct Screen {
    pub help: Vec<Span>,
    pub help_blinks: bool,
    pub input: String,
    pub input_tint: Tint,
    pub cursor: Option<(u16, u16)>,
    pub output: Vec<String>,
}

/// The cursor position while editing: past the end of the text of the input
/// box whose top-left corner is at (`x`, `y`), the width taken modulo 2^16.
pub open spec fn cursor_spec(x: u16, y: u16, width: usize) -> (u16, u16) {
    ((x + width % 65536 + 1) as u16, (y + 1) as u16)
}

/// Whether the cursor position fits in the terminal's coordinates.
pub open spec fn cursor_fits(x: u16, y: u16, width: usize) -> bool {
    x + width % 65536 + 1 <= u16::MAX && y + 1 <= u16::MAX
}

/// The cursor position past the end of an input of terminal width `width`
/// in a box with top-left corner (`x`, `y`).
pub fn cursor_at(x: u16, y: u16, width: usize) -> (p: (u16, u16))
    requires
        cursor_fits(x, y, width),
    ensures
        p == cursor_spec(x, y, width),
{
    let w = (width % 65536) as u16;
    (x + w + 1, y + 1)
}

fn push_span(v: &mut Vec<Span>, text: &str, bold: bool)
    ensures
        final(v)@.len() == old(v)@.len() + 1,
        forall|k: int| 0 <= k < old(v)@.len() ==> final(v)@[k] == old(v)@[k],
        final(v)@.last().text@ == text@,
        final(v)@.last().bold == bold,
{
    v.push(Span { text: text_of(text), bold });
}

fn copy_lines(v: &Vec<String>) -> (r: Vec<String>)
    ensures
        texts(r@) == texts(v@),
{
    let r = v.clone();
    assert(texts(r@) =~= texts(v@));
    r
}

impl Session {
    /// The key loop's state before the first key: no table, no count, no
    /// argument, nothing scrolled.
    pub fn new() -> (s: Session)
        ensures
            !s.flag,
            s.num == 0,
            s.arg@.len() == 0,
            s.history@.len() == 0,
    {
        Session { flag: false, num: 0, arg: String::new(), history: Vec::new() }
    }
}

impl App {
    /// An empty screen in normal mode.
    pub fn default() -> (app: App)
        ensures
            app.input@.len() == 0,
            app.input_mode == InputMode::Normal,
            app.messages@.len() == 0,
            app.output@.len() == 0,
    {
        App { input: String::new(), input_mode: InputMode::Normal, messages: Vec::new(), output: Vec::new() }
    }

    /// Whether `key` would make the screen fail in this state (see `panics`).
    pub fn key_panics(&self, session: &Session, key: Key) -> (r: bool)
        ensures
            r == panics(console(*self, *session), key),
    {
        if self.input_mode != InputMode::Editing {
            return false;
        }
        match key {
            Key::Down => {
                session.flag && self.output.len() > 0 && (session.num < 45
                    || (session.history.len() <= (session.num - 45) as usize && self.output.len() < 2))
            },
            Key::Up => session.flag && session.history.len() > 0 && self.output.len() == 0,
            Key::Enter => {
                let parts = split_whitespace(self.input.as_str());
                if parts.len() == 0 {
                    return true;
                }
                if parts.len() != 2 {
                    return false;
                }
                let cmd = parts[0].as_str();
                let unit = same_text(cmd, "df") || same_text(cmd, "hddtemp") || same_text(cmd, "gputemp");
                let arg_chars = chars_of(parts[1].as_str());
                proof {
                    crate::text::lemma_words_nonempty(self.input@);
                    assert(words(self.input@)[1].len() > 0);
                }
                if unit && !((arg_chars[0] as u32) < 128) {
                    return true;
                }
                if same_text(cmd, "kill") {
                    return parse_i32(parts[1].as_str()).is_none();
                }
                false
            },
            _ => false,
        }
    }
}


/// `s` without its first character.
fn without_first(s: &String) -> (r: String)
    requires
        s@.len() > 0,
    ensures
        r@ == s@.drop_first(),
{
    let v = chars_of(s.as_str());
    let mut r = String::new();
    crate::text::push_chars(&mut r, &v, 1, v.len());
    assert(v@.subrange(1, v.len() as int) =~= s@.drop_first());
    r
}

impl App {
    /// Applies one key to the screen and the key loop's state, as `step`
    /// says, and tells the loop what to do next.
    pub fn handle_key(&mut self, session: &mut Session, key: Key) -> (action: Action)
        requires
            !panics(console(*old(self), *old(session)), key),
        ensures
            console(*final(self), *final(session)) == step(console(*old(self), *old(session)), key).0,
            action.order() == step(console(*old(self), *old(session)), key).1,
    {
        let ghost c0 = console(*self, *session);
        if self.input_mode == InputMode::Normal {
            match key {
                Key::Char(c) => {
                    if c == 'e' || c == 'E' {
                        self.input_mode = InputMode::Editing;
                        assert(console(*self, *session) =~= step(c0, key).0);
                        return Action::Continue;
                    }
                    if c == 'q' || c == 'Q' {
                        return Action::Quit;
                    }
                    Action::Continue
                },
                _ => Action::Continue,
            }
        } else {
            match key {
                Key::Down => {
                    if session.flag && self.output.len() > 0 && session.history.len() <= (session.num - 45) as usize {
                        let ghost out0 = self.output@;
                        let line = self.output.remove(1);
                        session.history.push(line);
                        assert(texts(self.output@) =~= texts(out0).remove(1));
                        assert(console(*self, *session) =~= step(c0, key).0);
                    }
                    Action::Continue
                },
                Key::Up => {
                    if session.flag && session.history.len() > 0 {
                        let ghost hist0 = session.history@;
                        let ghost out0 = self.output@;
                        match session.history.pop() {
                            Some(line) => {
                                self.output.insert(1, line);
                                assert(texts(session.history@) =~= texts(hist0).drop_last());
                                assert(texts(self.output@) =~= texts(out0).insert(1, texts(hist0).last()));
                                assert(console(*self, *session) =~= step(c0, key).0);
                            },
                            None => {},
                        }
                    }
                    Action::Continue
                },
                Key::Enter => self.enter(session),
                Key::Char(c) => {
                    self.input.push(c);
                    assert(console(*self, *session) =~= step(c0, key).0);
                    Action::Continue
                },
                Key::Backspace => {
                    let v = chars_of(self.input.as_str());
                    if v.len() > 0 {
                        let mut shorter = String::new();
                        crate::text::push_chars(&mut shorter, &v, 0, v.len() - 1);
                        self.input = shorter;
                        assert(v@.subrange(0, v.len() - 1) =~= c0.input.drop_last());
                    }
                    assert(console(*self, *session) =~= step(c0, key).0);
                    Action::Continue
                },
                Key::Esc => {
                    self.input_mode = InputMode::Normal;
                    assert(console(*self, *session) =~= step(c0, key).0);
                    Action::Continue
                },
                Key::Other => Action::Continue,
            }
        }
    }

    /// Enter: see `enter`.
    fn enter(&mut self, session: &mut Session) -> (action: Action)
        requires
            old(self).input_mode == InputMode::Editing,
            !panics(console(*old(self), *old(session)), Key::Enter),
        ensures
            console(*final(self), *final(session)) == enter(console(*old(self), *old(session))).0,
            action.order() == enter(console(*old(self), *old(session))).1,
    {
        let ghost c0 = console(*self, *session);
        let parts = split_whitespace(self.input.as_str());
        proof {
            crate::text::lemma_words_nonempty(c0.input);
        }
        self.output.clear();
        let line = self.input.clone();
        self.input = String::new();
        self.messages.push(line);
        let ghost parts_v = words(c0.input);
        assert(parts@[0]@ == parts_v[0]);
        let ghost base = Console { input: Seq::empty(), output: Seq::empty(), messages: c0.messages.push(c0.input), ..c0 };
        assert(console(*self, *session) =~= base);
        let cmd = parts[0].as_str();
        if same_text(cmd, "uname") {
            session.flag = false;
            assert(console(*self, *session) =~= enter(c0).0);
            return Action::KernelVersion;
        }
        if same_text(cmd, "release") {
            session.flag = false;
            assert(console(*self, *session) =~= enter(c0).0);
            return Action::OsVersion;
        }
        if same_text(cmd, "hostname") {
            session.flag = false;
            assert(console(*self, *session) =~= enter(c0).0);
            return Action::HostName;
        }
        if same_text(cmd, "sysinfo") {
            session.flag = false;
            assert(console(*self, *session) =~= enter(c0).0);
            return Action::SystemInformation;
        }
        if same_text(cmd, "sensors") {
            session.flag = false;
            assert(console(*self, *session) =~= enter(c0).0);
            return Action::Sensors;
        }
        let is_df = same_text(cmd, "df");
        let is_hdd = !is_df && same_text(cmd, "hddtemp");
        let is_cpu = !is_df && !is_hdd && same_text(cmd, "lscpu");
        let is_gpu = !is_df && !is_hdd && !is_cpu && same_text(cmd, "gputemp");
        if is_cpu {
            session.flag = false;
            assert(console(*self, *session) =~= enter(c0).0);
            return Action::Cpus;
        }
        if is_df || is_hdd || is_gpu {
            session.flag = false;
            if parts.len() == 2 {
                assert(parts@[1]@ == parts_v[1]);
                session.arg = without_first(&parts[1]);
            }
            assert(console(*self, *session) =~= enter(c0).0);
            let arg = session.arg.clone();
            if is_df {
                return Action::Disks(arg);
            } else if is_hdd {
                return Action::DriveTemperatures(arg);
            } else {
                return Action::GpuTemperatures(arg);
            }
        }
        if same_text(cmd, "kill") {
            session.flag = false;
            assert(console(*self, *session) =~= enter(c0).0);
            if parts.len() == 2 {
                assert(parts@[1]@ == parts_v[1]);
                match parse_i32(parts[1].as_str()) {
                    Some(pid) => {
                        return Action::Kill(pid);
                    },
                    None => {
                        assert(false);
                        return Action::Continue;
                    },
                }
            }
            return Action::Continue;
        }
        if same_text(cmd, "ignite") {
            session.flag = false;
            assert(console(*self, *session) =~= enter(c0).0);
            if parts.len() == 2 {
                assert(parts@[1]@ == parts_v[1]);
                return Action::Ignite(parts[1].clone());
            }
            return Action::Continue;
        }
        if same_text(cmd, "ptable") {
            assert(console(*self, *session) =~= enter(c0).0);
            return Action::ProcessTable;
        }
        if same_text(cmd, "clear") {
            session.flag = false;
            self.output.clear();
            assert(console(*self, *session) =~= enter(c0).0);
            return Action::Continue;
        }
        let mut message = String::new();
        push_text(&mut message, self.input.as_str());
        push_text(&mut message, ": command not found\n");
        self.output.push(message);
        assert(console(*self, *session) =~= enter(c0).0);
        Action::Continue
    }
}

/// How many processes of `es` have a command line.
pub open spec fn with_cmdline(es: Seq<Ptable>) -> nat
    decreases es.len(),
{
    if es.len() == 0 {
        0
    } else {
        with_cmdline(es.drop_last()) + if es.last().cmdline is Some { 1nat } else { 0nat }
    }
}

fn ptable_header() -> (s: String)
    ensures
        s@ == ptable_heading(),
{
    let mut s = String::new();
    push_padded_right(&mut s, "PID", 10);
    push_text(&mut s, " ");
    push_padded_right(&mut s, "%CPU", 10);
    push_text(&mut s, " ");
    push_padded_right(&mut s, "%MEM", 20);
    push_text(&mut s, " ");
    push_padded_right(&mut s, "COMMAND", 30);
    s
}

impl App {
    /// The `ptable` command: appends the heading and one row per process
    /// with a command line (pid, CPU and memory usage, command line), and
    /// returns how many processes it listed.
    pub fn printptable(&mut self, processes: &Vec<Ptable>) -> (num: i32)
        requires
            with_cmdline(processes@) <= i32::MAX,
        ensures
            num == with_cmdline(processes@),
            texts(final(self).output@) == texts(old(self).output@).push(ptable_heading()) + ptable_rows(processes@),
            final(self).input == old(self).input,
            final(self).input_mode == old(self).input_mode,
            final(self).messages == old(self).messages,
    {
        let mut num: i32 = 0;
        let ghost start = texts(self.output@).push(ptable_heading());
        self.output.push(ptable_header());
        assert(texts(self.output@) =~= start);
        let mut i: usize = 0;
        assert(processes@.take(0) =~= Seq::<Ptable>::empty());
        assert(start + ptable_rows(Seq::<Ptable>::empty()) =~= start);
        while i < processes.len()
            invariant
                i <= processes@.len(),
                with_cmdline(processes@) <= i32::MAX,
                num == with_cmdline(processes@.take(i as int)),
                texts(self.output@) == start + ptable_rows(processes@.take(i as int)),
                self.input == old(self).input,
                self.input_mode == old(self).input_mode,
                self.messages == old(self).messages,
            decreases processes.len() - i,
        {
            let p = &processes[i];
            assert(processes@.take(i + 1).drop_last() =~= processes@.take(i as int));
            assert(processes@.take(i + 1).last() == processes@[i as int]);
            proof {
                lemma_with_cmdline_prefix(processes@, i as int + 1);
            }
            match &p.cmdline {
                None => {},
                Some(cmd) => {
                    num = num + 1;
                    let row = u64_text(p.pid as u64);
                    let mut line = String::new();
                    push_padded_right(&mut line, row.as_str(), 10);
                    push_text(&mut line, " ");
                    push_padded_right(&mut line, p.cpu.as_str(), 10);
                    push_text(&mut line, " ");
                    push_padded_right(&mut line, p.mem.as_str(), 20);
                    push_text(&mut line, " ");
                    push_padded_right(&mut line, cmd.as_str(), 30);
                    let ghost before = self.output@;
                    self.output.push(line);
                    assert(texts(self.output@) =~= texts(before).push(line@));
                },
            }
            i += 1;
        }
        assert(processes@.take(i as int) =~= processes@);
        num
    }

    /// Shows the process table and makes it scrollable: the key loop now
    /// knows how many processes it lists.
    pub fn load_ptable(&mut self, session: &mut Session, processes: &Vec<Ptable>)
        requires
            with_cmdline(processes@) <= i32::MAX,
        ensures
            texts(final(self).output@) == texts(old(self).output@).push(ptable_heading()) + ptable_rows(processes@),
            final(self).input == old(self).input,
            final(self).input_mode == old(self).input_mode,
            final(self).messages == old(self).messages,
            final(session).num == with_cmdline(processes@),
            final(session).flag,
            final(session).arg == old(session).arg,
            final(session).history == old(session).history,
    {
        let num = self.printptable(processes);
        session.num = num;
        session.flag = true;
    }

    /// Appends one line to the output.
    pub fn show(&mut self, line: String)
        ensures
            texts(final(self).output@) == texts(old(self).output@).push(line@),
            final(self).input == old(self).input,
            final(self).input_mode == old(self).input_mode,
            final(self).messages == old(self).messages,
    {
        let ghost before = self.output@;
        self.output.push(line);
        assert(texts(self.output@) =~= texts(before).push(line@));
    }

    /// Replaces the output with `lines`.
    pub fn set_output(&mut self, lines: Vec<String>)
        ensures
            final(self).output == lines,
            final(self).input == old(self).input,
            final(self).input_mode == old(self).input_mode,
            final(self).messages == old(self).messages,
    {
        self.output = lines;
    }

    /// Reports the outcome of a `kill`: success, or the error's text.
    pub fn report_kill(&mut self, outcome: Result<(), String>)
        ensures
            texts(final(self).output@) == texts(old(self).output@).push(
                match outcome {
                    Ok(_) => "Process with killed successfully.\n"@,
                    Err(e) => "Error killing process: "@ + e@ + "\n"@,
                },
            ),
            final(self).input == old(self).input,
            final(self).input_mode == old(self).input_mode,
            final(self).messages == old(self).messages,
    {
        let mut line = String::new();
        match outcome {
            Ok(_) => push_text(&mut line, "Process with killed successfully.\n"),
            Err(e) => {
                push_text(&mut line, "Error killing process: ");
                push_text(&mut line, e.as_str());
                push_text(&mut line, "\n");
            },
        }
        self.show(line);
    }

    /// What the screen shows when the input box's top-left corner is at
    /// (`x`, `y`): see `Screen`. `None` when the cursor position past the end
    /// of the input does not fit in the terminal's coordinates.
    pub fn screen(&self, x: u16, y: u16) -> (s: Option<Screen>)
        ensures
            match s {
                None => self.input_mode == InputMode::Editing && !cursor_fits(x, y, columns(self.input@)),
                Some(sc) => {
                    let editing = self.input_mode == InputMode::Editing;
                    &&& sc.help@.len() == help_spec(editing).len()
                    &&& forall|k: int| 0 <= k < sc.help@.len() ==>
                        (#[trigger] sc.help@[k]).text@ == help_spec(editing)[k].0 && sc.help@[k].bold == help_spec(editing)[k].1
                    &&& sc.help_blinks == !editing
                    &&& sc.input@ == self.input@
                    &&& sc.input_tint == (if editing { Tint::Green } else { Tint::Yellow })
                    &&& sc.cursor == (if editing { Some(cursor_spec(x, y, columns(self.input@))) } else { None })
                    &&& texts(sc.output@) == texts(self.output@)
                },
            },
    {
        let editing = self.input_mode == InputMode::Editing;
        let mut help: Vec<Span> = Vec::new();
        push_span(&mut help, "Press ", false);
        if editing {
            push_span(&mut help, "Esc", true);
            push_span(&mut help, " to stop editing, ", false);
            push_span(&mut help, "Enter", true);
            push_span(&mut help, " to record the message", false);
        } else {
            push_span(&mut help, "q", true);
            push_span(&mut help, " to exit, ", false);
            push_span(&mut help, "e", true);
            push_span(&mut help, " to start editing.", false);
        }
        let cursor = if editing {
            let w = text_columns(self.input.as_str());
            if !((x as u64) + ((w % 65536) as u64) + 1 <= 65535 && (y as u64) + 1 <= 65535) {
                return None;
            }
            Some(cursor_at(x, y, w))
        } else {
            None
        };
        Some(Screen {
            help,
            help_blinks: !editing,
            input: self.input.clone(),
            input_tint: if editing { Tint::Green } else { Tint::Yellow },
            cursor,
            output: copy_lines(&self.output),
        })
    }
}

proof fn lemma_with_cmdline_prefix(es: Seq<Ptable>, k: int)
    requires
        0 <= k <= es.len(),
    ensures
        with_cmdline(es.take(k)) <= with_cmdline(es),
    decreases es.len(),
{
    if k < es.len() {
        assert(es.drop_last().take(k) =~= es.take(k));
        lemma_with_cmdline_prefix(es.drop_last(), k);
    } else {
        assert(es.take(k) =~= es);
    }
}

/// While editing, typing a character and then pressing Backspace leaves the
/// screen as it was.
pub proof fn law_backspace_undoes_typing(c: Console, ch: char)
    requires
        c.editing,
    ensures
        step(step(c, Key::Char(ch)).0, Key::Backspace).0 == c,
        step(c, Key::Char(ch)).1 is Continue,
{
    let typed = step(c, Key::Char(ch)).0;
    assert(typed.input.drop_last() =~= c.input);
    assert(step(typed, Key::Backspace).0 =~= c);
}

/// In a scrollable process table, scrolling down one row and then up again
/// leaves the output and the scrolled rows as they were.
pub proof fn law_up_undoes_down(c: Console)
    requires
        c.editing,
        c.flag,
        c.output.len() >= 2,
        c.num >= 45,
        c.history.len() <= c.num - 45,
    ensures
        !panics(c, Key::Down),
        !panics(step(c, Key::Down).0, Key::Up),
        step(step(c, Key::Down).0, Key::Up).0 == c,
{
    let down = step(c, Key::Down).0;
    assert(down.history.last() == c.output[1]);
    assert(down.history.drop_last() =~= c.history);
    assert(down.output.insert(1, c.output[1]) =~= c.output);
    assert(step(down, Key::Up).0 =~= c);
}

/// Leaving editing with Esc and coming back with `e` leaves the screen as it
/// was.
pub proof fn law_escape_and_return(c: Console)
    requires
        c.editing,
    ensures
        step(step(c, Key::Esc).0, Key::Char('e')).0 == c,
{
    assert(step(step(c, Key::Esc).0, Key::Char('e')).0 =~= c);
}

/// Outside editing, `q` stops the loop and changes nothing; no key other
/// than `e`/`E` changes the screen.
pub proof fn law_normal_mode_keys(c: Console, key: Key)
    requires
        !c.editing,
    ensures
        !panics(c, key),
        step(c, Key::Char('q')) == (c, Order::Quit),
        !(key == Key::Char('e') || key == Key::Char('E')) ==> step(c, key).0 == c,
{
}

/// Enter on a non-blank line records the line among the messages, empties
/// the input and clears the earlier output (the output then holds at most a
/// `command not found` line).
pub proof fn law_enter_records_line(c: Console)
    requires
        c.editing,
        words(c.input).len() > 0,
    ensures
        step(c, Key::Enter).0.messages == c.messages.push(c.input),
        step(c, Key::Enter).0.input.len() == 0,
        step(c, Key::Enter).0.output.len() <= 1,
        step(c, Key::Enter).0.history == c.history,
        step(c, Key::Enter).0.editing,
{
}

/// Enter dispatches on the first word of the line alone: whatever words
/// follow it, `uname` asks for the kernel version, `release` for the OS
/// version, `hostname` for the host name, `sysinfo` for the system summary,
/// `sensors` for the sensors, `lscpu` for the processors and `ptable` for
/// the process table; `clear` empties the output and asks for nothing. None
/// of these prints `command not found`.
pub proof fn law_enter_dispatches_on_first_word(c: Console)
    requires
        c.editing,
        words(c.input).len() > 0,
    ensures
        words(c.input)[0] == "uname"@ ==> step(c, Key::Enter).1 == Order::KernelVersion,
        words(c.input)[0] == "release"@ ==> step(c, Key::Enter).1 == Order::OsVersion,
        words(c.input)[0] == "hostname"@ ==> step(c, Key::Enter).1 == Order::HostName,
        words(c.input)[0] == "sysinfo"@ ==> step(c, Key::Enter).1 == Order::SystemInformation,
        words(c.input)[0] == "sensors"@ ==> step(c, Key::Enter).1 == Order::Sensors,
        words(c.input)[0] == "lscpu"@ ==> step(c, Key::Enter).1 == Order::Cpus,
        words(c.input)[0] == "ptable"@ ==> step(c, Key::Enter).1 == Order::ProcessTable,
        words(c.input)[0] == "clear"@ ==> step(c, Key::Enter).1 == Order::Continue
            && step(c, Key::Enter).0.output.len() == 0,
        words(c.input)[0] == "uname"@ || words(c.input)[0] == "release"@ || words(c.input)[0] == "hostname"@
            || words(c.input)[0] == "sysinfo"@ || words(c.input)[0] == "sensors"@ || words(c.input)[0] == "lscpu"@
            || words(c.input)[0] == "ptable"@ || words(c.input)[0] == "clear"@
            ==> step(c, Key::Enter).0.output.len() == 0,
{
    reveal_strlit("uname");
    reveal_strlit("release");
    reveal_strlit("hostname");
    reveal_strlit("sysinfo");
    reveal_strlit("sensors");
    reveal_strlit("lscpu");
    reveal_strlit("ptable");
    reveal_strlit("clear");
    reveal_strlit("df");
    reveal_strlit("hddtemp");
    reveal_strlit("gputemp");
    reveal_strlit("kill");
    reveal_strlit("ignite");
    assert("uname"@.len() == 5 && "uname"@[0] == 'u' && "uname"@[1] == 'n');
    assert("release"@.len() == 7 && "release"@[0] == 'r' && "release"@[1] == 'e');
    assert("hostname"@.len() == 8 && "hostname"@[0] == 'h' && "hostname"@[1] == 'o');
    assert("sysinfo"@.len() == 7 && "sysinfo"@[0] == 's' && "sysinfo"@[1] == 'y');
    assert("sensors"@.len() == 7 && "sensors"@[0] == 's' && "sensors"@[1] == 'e');
    assert("lscpu"@.len() == 5 && "lscpu"@[0] == 'l' && "lscpu"@[1] == 's');
    assert("ptable"@.len() == 6 && "ptable"@[0] == 'p' && "ptable"@[1] == 't');
    assert("clear"@.len() == 5 && "clear"@[0] == 'c' && "clear"@[1] == 'l');
    assert("df"@.len() == 2 && "df"@[0] == 'd' && "df"@[1] == 'f');
    assert("hddtemp"@.len() == 7 && "hddtemp"@[0] == 'h' && "hddtemp"@[1] == 'd');
    assert("gputemp"@.len() == 7 && "gputemp"@[0] == 'g' && "gputemp"@[1] == 'p');
    assert("kill"@.len() == 4 && "kill"@[0] == 'k' && "kill"@[1] == 'i');
    assert("ignite"@.len() == 6 && "ignite"@[0] == 'i' && "ignite"@[1] == 'g');
}

/// Printable ASCII text takes one column per character, so the cursor sits
/// just past the last character typed, and typing a space (a trailing one
/// too) moves it one column to the right.
pub proof fn law_cursor_counts_ascii_columns(input: Seq<char>, x: u16, y: u16)
    requires
        printable_ascii(input),
        input.len() < usize::MAX,
    ensures
        columns(input) == input.len(),
        cursor_spec(x, y, columns(input)) == ((x + input.len() % 65536 + 1) as u16, (y + 1) as u16),
        printable_ascii(input.push(' ')),
        columns(input.push(' ')) == columns(input) + 1,
{
    assert(printable_ascii(input.push(' '))) by {
        assert forall|i: int| 0 <= i < input.push(' ').len() implies 32 <= (#[trigger] input.push(' ')[i] as u32)
            && (input.push(' ')[i] as u32) <= 126 by {
            if i < input.len() {
                assert(input.push(' ')[i] == input[i]);
            }
        }
    }
}
} // verus!
