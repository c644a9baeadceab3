use vstd::prelude::*;
use crate::text::{
    decimal, pad_right_spec, has_infix, contains, push_text, push_padded_right, same_text, u64_text,
};
use crate::process::texts;

verus! {

/// A hardware sensor, with its readings already rendered as text.
pub struct Component {
    pub label: String,
    pub temperature: String,
    pub max: String,
    /// The critical temperature, where the sensor reports one.
    pub critical: Option<String>,
}

/// A mounted disk.
pub struct Disk {
    pub name: String,
    pub mount_point: String,
    pub file_system: String,
    pub total_space: u64,
    pub available_space: u64,
}

/// A processor.
pub struct Cpu {
    pub brand: String,
    pub vendor_id: String,
    pub name: String,
    pub frequency: u64,
}

/// The lines of the system summary: name, kernel version, OS version and
/// host name, each after its label.
pub open spec fn system_information_lines(name: Seq<char>, kernel: Seq<char>, os: Seq<char>, host: Seq<char>) -> Seq<Seq<char>> {
    seq!["Name: "@ + name, "Kernel version: "@ + kernel, "OS version: "@ + os, "Host name: "@ + host]
}

fn labelled(label: &str, value: &str) -> (s: String)
    ensures
        s@ == label@ + value@,
{
    let mut s = String::new();
    push_text(&mut s, label);
    push_text(&mut s, value);
    s
}

/// The system summary: `Name: ...`, `Kernel version: ...`, `OS version: ...`
/// and `Host name: ...`.
pub fn get_system_information(name: &str, kernel_version: &str, os_version: &str, host_name: &str) -> (lines: Vec<String>)
    ensures
        texts(lines@) == system_information_lines(name@, kernel_version@, os_version@, host_name@),
{
    let mut lines: Vec<String> = Vec::new();
    lines.push(labelled("Name: ", name));
    lines.push(labelled("Kernel version: ", kernel_version));
    lines.push(labelled("OS version: ", os_version));
    lines.push(labelled("Host name: ", host_name));
    assert(texts(lines@) =~= system_information_lines(name@, kernel_version@, os_version@, host_name@));
    lines
}

/// Which reading of a sensor a report shows.
pub enum Reading {
    Current,
    Max,
    Critical,
}

/// The reading a temperature report shows for `arg` (`""`: the current one,
/// `"max"`, `"crit"`), if the report shows any; `allow_critical` says whether
/// `"crit"` is recognised.
pub open spec fn reading_for(arg: Seq<char>, allow_critical: bool) -> Option<Reading> {
    if arg == ""@ {
        Some(Reading::Current)
    } else if arg == "max"@ {
        Some(Reading::Max)
    } else if allow_critical && arg == "crit"@ {
        Some(Reading::Critical)
    } else {
        None
    }
}

/// The text of a reading of `c` (the critical one only where it exists).
pub open spec fn reading_text(c: Component, r: Reading) -> Seq<char> {
    match r {
        Reading::Current => c.temperature@,
        Reading::Max => c.max@,
        Reading::Critical => c.critical.unwrap()@,
    }
}

/// Whether the sensor `label` belongs to a drive (it mentions `SSD` or `HDD`).
pub open spec fn is_drive(label: Seq<char>) -> bool {
    has_infix(label, "SSD"@) || has_infix(label, "HDD"@)
}

/// Whether the sensor `label` belongs to a graphics card (it mentions `gpu`).
pub open spec fn is_gpu(label: Seq<char>) -> bool {
    has_infix(label, "gpu"@)
}

/// The report line of one sensor: its label, the reading and `°C`.
pub open spec fn temperature_line(c: Component, r: Reading) -> Seq<char> {
    c.label@ + ": "@ + reading_text(c, r) + "°C"@
}

/// The lines of a temperature report over `cs`: one per sensor that `drives`
/// selects (drive sensors if `drives`, graphics sensors otherwise), in order.
pub open spec fn temperature_lines(cs: Seq<Component>, drives: bool, r: Reading) -> Seq<Seq<char>>
    decreases cs.len(),
{
    if cs.len() == 0 {
        Seq::empty()
    } else {
        let rest = temperature_lines(cs.drop_last(), drives, r);
        let c = cs.last();
        if (if drives { is_drive(c.label@) } else { is_gpu(c.label@) }) {
            rest.push(temperature_line(c, r))
        } else {
            rest
        }
    }
}

/// The temperature report of `components` for `arg`.
pub open spec fn temperature_report(cs: Seq<Component>, arg: Seq<char>, drives: bool) -> Seq<Seq<char>> {
    match reading_for(arg, drives) {
        Some(r) => temperature_lines(cs, drives, r),
        None => Seq::empty(),
    }
}

/// Whether each drive sensor reports a critical temperature.
pub open spec fn drives_have_critical(cs: Seq<Component>) -> bool {
    forall|i: int| 0 <= i < cs.len() && is_drive(#[trigger] cs[i].label@) ==> cs[i].critical is Some
}

/// Whether the sensor `label` belongs to a drive.
pub fn is_drive_label(label: &str) -> (r: bool)
    ensures
        r == is_drive(label@),
{
    contains(label, "SSD") || contains(label, "HDD")
}

/// Whether the sensor `label` belongs to a graphics card.
pub fn is_gpu_label(label: &str) -> (r: bool)
    ensures
        r == is_gpu(label@),
{
    contains(label, "gpu")
}

fn reading(arg: &str, allow_critical: bool) -> (r: Option<Reading>)
    ensures
        r == reading_for(arg@, allow_critical),
{
    if same_text(arg, "") {
        Some(Reading::Current)
    } else if same_text(arg, "max") {
        Some(Reading::Max)
    } else if allow_critical && same_text(arg, "crit") {
        Some(Reading::Critical)
    } else {
        None
    }
}

fn temperatures(cs: &Vec<Component>, drives: bool, r: Reading) -> (lines: Vec<String>)
    requires
        r is Critical ==> drives && drives_have_critical(cs@),
    ensures
        texts(lines@) == temperature_lines(cs@, drives, r),
{
    let mut lines: Vec<String> = Vec::new();
    let mut i: usize = 0;
    while i < cs.len()
        invariant
            i <= cs@.len(),
            r is Critical ==> drives && drives_have_critical(cs@),
            texts(lines@) == temperature_lines(cs@.take(i as int), drives, r),
        decreases cs.len() - i,
    {
        let c = &cs[i];
        let selected = if drives { is_drive_label(c.label.as_str()) } else { is_gpu_label(c.label.as_str()) };
        assert(cs@.take(i + 1).drop_last() =~= cs@.take(i as int));
        assert(cs@.take(i + 1).last() == cs@[i as int]);
        if selected {
            let mut line = String::new();
            push_text(&mut line, c.label.as_str());
            push_text(&mut line, ": ");
            match r {
                Reading::Current => push_text(&mut line, c.temperature.as_str()),
                Reading::Max => push_text(&mut line, c.max.as_str()),
                Reading::Critical => {
                    match &c.critical {
                        Some(t) => push_text(&mut line, t.as_str()),
                        None => {
                            assert(false);
                        },
                    }
                },
            }
            push_text(&mut line, "°C");
            let ghost before = lines@;
            lines.push(line);
            assert(texts(lines@) =~= texts(before).push(line@));
        }
        i += 1;
    }
    assert(cs@.take(i as int) =~= cs@);
    lines
}

/// The drive temperature report: for `arg` `""` the current reading, for
/// `"max"` the highest one, for `"crit"` the critical one, of each sensor
/// whose label mentions `SSD` or `HDD`; nothing for any other `arg`.
pub fn get_hddtemp(components: &Vec<Component>, arg: &str) -> (lines: Vec<String>)
    requires
        arg@ == "crit"@ ==> drives_have_critical(components@),
    ensures
        texts(lines@) == temperature_report(components@, arg@, true),
{
    match reading(arg, true) {
        Some(r) => temperatures(components, true, r),
        None => Vec::new(),
    }
}

/// The graphics temperature report: for `arg` `""` the current reading, for
/// `"max"` the highest one, of each sensor whose label mentions `gpu`;
/// nothing for any other `arg`.
pub fn get_gputemp(components: &Vec<Component>, arg: &str) -> (lines: Vec<String>)
    ensures
        texts(lines@) == temperature_report(components@, arg@, false),
{
    match reading(arg, false) {
        Some(r) => temperatures(components, false, r),
        None => Vec::new(),
    }
}

/// The binary order of magnitude of the unit `arg` asks for: `"k"` kibi
/// (10), `"m"` mebi (20), anything else bytes (0).
pub open spec fn unit_power(arg: Seq<char>) -> nat {
    if arg == "k"@ { 10 } else if arg == "m"@ { 20 } else { 0 }
}

/// `2` to the power `p`, for the powers the disk report uses.
pub open spec fn two_to(p: nat) -> nat {
    if p == 10 { 1024 } else if p == 20 { 1048576 } else { 1 }
}

/// Whether the available space of each disk does not exceed its total space
/// once both are counted in the unit of `arg`.
pub open spec fn spaces_ordered(ds: Seq<Disk>, arg: Seq<char>) -> bool {
    forall|i: int| 0 <= i < ds.len() ==>
        (#[trigger] ds[i]).available_space as nat / two_to(unit_power(arg)) <= ds[i].total_space as nat / two_to(unit_power(arg))
}

/// Cells joined by single spaces, each padded on the right to 50 columns.
pub open spec fn columns(cells: Seq<Seq<char>>) -> Seq<char>
    decreases cells.len(),
{
    if cells.len() == 0 {
        Seq::empty()
    } else if cells.len() == 1 {
        pad_right_spec(cells[0], 50)
    } else {
        columns(cells.drop_last()) + " "@ + pad_right_spec(cells.last(), 50)
    }
}

/// The row of one disk: name, mount point, file system, total, available and
/// used space in the unit `2^p`.
pub open spec fn disk_row(d: Disk, p: nat) -> Seq<char> {
    columns(seq![
        d.name@,
        d.mount_point@,
        d.file_system@,
        decimal(d.total_space as nat / two_to(p)),
        decimal(d.available_space as nat / two_to(p)),
        decimal((d.total_space as nat / two_to(p) - d.available_space as nat / two_to(p)) as nat),
    ])
}

/// The heading of the disk report.
pub open spec fn disk_heading() -> Seq<char> {
    columns(seq!["Name"@, "Mount Point"@, "Filesystem"@, "Total Space"@, "Available Space"@, "Used Space"@])
}

/// The row of one processor: brand, vendor, name and frequency.
pub open spec fn cpu_row(c: Cpu) -> Seq<char> {
    columns(seq![c.brand@, c.vendor_id@, c.name@, decimal(c.frequency as nat)])
}

/// The heading of the processor report.
pub open spec fn cpu_heading() -> Seq<char> {
    columns(seq!["Brand"@, "Vendor ID"@, "Name"@, "Frequency"@])
}

/// Joins the cells as `columns` does.
fn join_columns(cells: &Vec<String>) -> (s: String)
    ensures
        s@ == columns(texts(cells@)),
{
    let mut s = String::new();
    let mut i: usize = 0;
    while i < cells.len()
        invariant
            i <= cells@.len(),
            s@ == columns(texts(cells@).take(i as int)),
        decreases cells.len() - i,
    {
        assert(texts(cells@).take(i + 1).drop_last() =~= texts(cells@).take(i as int));
        assert(texts(cells@).take(i + 1).last() == cells@[i as int]@);
        if i > 0 {
            push_text(&mut s, " ");
        } else {
            assert(texts(cells@).take(0) =~= Seq::<Seq<char>>::empty());
            assert(texts(cells@).take(1) =~= seq![cells@[0]@]);
        }
        push_padded_right(&mut s, cells[i].as_str(), 50);
        i += 1;
    }
    assert(texts(cells@).take(i as int) =~= texts(cells@));
    s
}

fn push_cell(v: &mut Vec<String>, s: String)
    ensures
        texts(final(v)@) == texts(old(v)@).push(s@),
{
    let ghost before = v@;
    v.push(s);
    assert(texts(v@) =~= texts(before).push(s@));
}

fn text_cells(a: &str, b: &str, c: &str, d: &str) -> (v: Vec<String>)
    ensures
        texts(v@) == seq![a@, b@, c@, d@],
{
    let mut v: Vec<String> = Vec::new();
    v.push(crate::text::text_of(a));
    v.push(crate::text::text_of(b));
    v.push(crate::text::text_of(c));
    v.push(crate::text::text_of(d));
    assert(texts(v@) =~= seq![a@, b@, c@, d@]);
    v
}

/// The disk report: a heading, then one row per disk with its name, mount
/// point, file system, and total, available and used space counted in bytes
/// (`arg` `""` or anything unrecognised), kibibytes (`"k"`) or mebibytes
/// (`"m"`), rounded down.
pub fn get_disks_information(disks: &Vec<Disk>, arg: &str) -> (lines: Vec<String>)
    requires
        spaces_ordered(disks@, arg@),
    ensures
        texts(lines@) == seq![disk_heading()] + disks@.map_values(|d: Disk| disk_row(d, unit_power(arg@))),
{
    let power: u64 = if same_text(arg, "k") { 10 } else if same_text(arg, "m") { 20 } else { 0 };
    let unit: u64 = if power == 10 { 1024 } else if power == 20 { 1048576 } else { 1 };
    assert(unit == two_to(unit_power(arg@)));
    let mut lines: Vec<String> = Vec::new();
    let mut head = text_cells("Name", "Mount Point", "Filesystem", "Total Space");
    push_cell(&mut head, crate::text::text_of("Available Space"));
    push_cell(&mut head, crate::text::text_of("Used Space"));
    assert(texts(head@) =~= seq!["Name"@, "Mount Point"@, "Filesystem"@, "Total Space"@, "Available Space"@, "Used Space"@]);
    lines.push(join_columns(&head));
    let ghost rows = disks@.map_values(|d: Disk| disk_row(d, unit_power(arg@)));
    let mut i: usize = 0;
    while i < disks.len()
        invariant
            i <= disks@.len(),
            unit == two_to(unit_power(arg@)),
            unit > 0,
            spaces_ordered(disks@, arg@),
            rows == disks@.map_values(|d: Disk| disk_row(d, unit_power(arg@))),
            texts(lines@) == seq![disk_heading()] + rows.take(i as int),
        decreases disks.len() - i,
    {
        let d = &disks[i];
        let total = d.total_space / unit;
        let available = d.available_space / unit;
        assert(disks@[i as int].available_space as nat / two_to(unit_power(arg@)) <= disks@[i as int].total_space as nat / two_to(unit_power(arg@)));
        let mut cells = text_cells(d.name.as_str(), d.mount_point.as_str(), d.file_system.as_str(), u64_text(total).as_str());
        push_cell(&mut cells, u64_text(available));
        push_cell(&mut cells, u64_text(total - available));
        assert(texts(cells@) =~= seq![
            d.name@,
            d.mount_point@,
            d.file_system@,
            decimal(d.total_space as nat / two_to(unit_power(arg@))),
            decimal(d.available_space as nat / two_to(unit_power(arg@))),
            decimal((d.total_space as nat / two_to(unit_power(arg@)) - d.available_space as nat / two_to(unit_power(arg@))) as nat),
        ]);
        let row = join_columns(&cells);
        let ghost before = lines@;
        lines.push(row);
        assert(texts(lines@) =~= texts(before).push(row@));
        assert(rows.take(i + 1) =~= rows.take(i as int).push(rows[i as int]));
        i += 1;
    }
    assert(rows.take(i as int) =~= rows);
    lines
}

/// The processor report: a heading, then one row per processor with its
/// brand, vendor, name and frequency.
pub fn get_cpu_information(cpus: &Vec<Cpu>) -> (lines: Vec<String>)
    ensures
        texts(lines@) == seq![cpu_heading()] + cpus@.map_values(|c: Cpu| cpu_row(c)),
{
    let mut lines: Vec<String> = Vec::new();
    let head = text_cells("Brand", "Vendor ID", "Name", "Frequency");
    lines.push(join_columns(&head));
    let ghost rows = cpus@.map_values(|c: Cpu| cpu_row(c));
    let mut i: usize = 0;
    while i < cpus.len()
        invariant
            i <= cpus@.len(),
            rows == cpus@.map_values(|c: Cpu| cpu_row(c)),
            texts(lines@) == seq![cpu_heading()] + rows.take(i as int),
        decreases cpus.len() - i,
    {
        let c = &cpus[i];
        let cells = text_cells(c.brand.as_str(), c.vendor_id.as_str(), c.name.as_str(), u64_text(c.frequency).as_str());
        let row = join_columns(&cells);
        let ghost before = lines@;
        lines.push(row);
        assert(texts(lines@) =~= texts(before).push(row@));
        assert(rows.take(i + 1) =~= rows.take(i as int).push(rows[i as int]));
        i += 1;
    }
    assert(rows.take(i as int) =~= rows);
    lines
}

} // verus!
