use sysmon::process::Process;
use sysmon::report::{
    get_cpu_information, get_disks_information, get_gputemp, get_hddtemp, get_system_information,
    is_drive_label, is_gpu_label, Component, Cpu, Disk,
};
use sysmon::table::{processtable, sortasc, sortdesc, TableEntry};
use sysmon::tree::pstree_new;

fn entry(pid: i32, name: &str, start: u64) -> TableEntry {
    TableEntry {
        pid,
        name: name.to_string(),
        memory: "1.5 MB".to_string(),
        cpu: "0.5".to_string(),
        status: "Run".to_string(),
        start_time: start,
    }
}

fn row(pid: i32, part: &str, dur: &str, w: usize) -> String {
    format!(" {:<8}  {:<100}  {:>10}  {:>w$}%  {:>20}  {} ", pid, part, "1.5 MB", "0.5", dur, "Run", w = w)
}

#[test]
fn status_cell_is_not_padded() {
    // A process status displays as its bare word whatever the column width.
    assert_eq!(format!("{:<70}", sysinfo::ProcessStatus::Idle), "Idle");
    let mut e = entry(5, "idle", 0);
    e.status = format!("{}", sysinfo::ProcessStatus::Idle);
    let rows = processtable(&vec![e], 0, 0);
    assert_eq!(rows.len(), 2);
    assert!(rows[1].ends_with("00:00  Idle "));
    assert_eq!(rows[1].chars().count(), 1 + 8 + 2 + 100 + 2 + 10 + 2 + 10 + 3 + 20 + 2 + 4 + 1);
}

#[test]
fn sorted_tables() {
    let es = vec![entry(30, "web server", 0), entry(2, "init", 61), entry(7, "", 5)];
    let head = format!("| {:<8} | {:<100} | {:<10} | {:<20} | {:<20} |{:<70}", "PID", "Name", "Memory", "cpu", "process_duration", "status");
    let asc = sortasc(&es, 100, 40);
    assert_eq!(asc, vec![head.clone(), row(2, "init", "02:01", 20), row(30, "web", "01:00", 20), row(30, "server", "01:00", 20)]);
    let desc = sortdesc(&es, 100, 40);
    assert_eq!(desc, vec![head, row(30, "web", "01:00", 20), row(30, "server", "01:00", 20), row(2, "init", "02:01", 20)]);
}

#[test]
fn unsorted_table() {
    let es = vec![entry(30, "a  b", 0), entry(2, "c", 0)];
    let head = format!("| {:<8} | {:<95} | {:<10} | {:<10}  | {:<20} | {:<70}", "PID", "Name", "Memory", "cpu", "process_duration", "status");
    assert_eq!(processtable(&es, 3600, 0), vec![head, row(30, "a", "00:00", 10), row(30, "b", "00:00", 10), row(2, "c", "00:00", 10)]);
}

#[test]
fn system_summary() {
    assert_eq!(
        get_system_information("Linux", "6.1", "12", "box"),
        vec!["Name: Linux", "Kernel version: 6.1", "OS version: 12", "Host name: box"]
    );
}

fn sensor(label: &str, t: &str, max: &str, crit: Option<&str>) -> Component {
    Component { label: label.to_string(), temperature: t.to_string(), max: max.to_string(), critical: crit.map(|c| c.to_string()) }
}

#[test]
fn drive_temperatures() {
    let cs = vec![
        sensor("Samsung SSD", "40.0", "70.0", Some("85.0")),
        sensor("amdgpu edge", "50", "90", None),
        sensor("WD HDD", "35.5", "60.0", Some("75.0")),
    ];
    assert_eq!(get_hddtemp(&cs, ""), vec!["Samsung SSD: 40.0°C", "WD HDD: 35.5°C"]);
    assert_eq!(get_hddtemp(&cs, "max"), vec!["Samsung SSD: 70.0°C", "WD HDD: 60.0°C"]);
    assert_eq!(get_hddtemp(&cs, "crit"), vec!["Samsung SSD: 85.0°C", "WD HDD: 75.0°C"]);
    assert!(get_hddtemp(&cs, "min").is_empty());
    assert!(is_drive_label("WD HDD"));
    assert!(!is_drive_label("ssd"));
}

#[test]
fn gpu_temperatures() {
    let cs = vec![sensor("amdgpu edge", "50", "90", None), sensor("cpu", "30", "80", None)];
    assert_eq!(get_gputemp(&cs, ""), vec!["amdgpu edge: 50°C"]);
    assert_eq!(get_gputemp(&cs, "max"), vec!["amdgpu edge: 90°C"]);
    assert!(get_gputemp(&cs, "crit").is_empty());
    assert!(is_gpu_label("gpu"));
    assert!(!is_gpu_label("GPU"));
}

fn disk(total: u64, avail: u64) -> Disk {
    Disk { name: "sda1".to_string(), mount_point: "/".to_string(), file_system: "ext4".to_string(), total_space: total, available_space: avail }
}

fn disk_line(a: &str, b: &str, c: &str, d: u64, e: u64, f: u64) -> String {
    format!("{:<50} {:<50} {:<50} {:<50} {:<50} {:<50}", a, b, c, d, e, f)
}

#[test]
fn disk_report_units() {
    let ds = vec![disk(10 * 1048576 + 5, 3 * 1048576)];
    let head = disk_line_str();
    assert_eq!(get_disks_information(&ds, ""), vec![head.clone(), disk_line("sda1", "/", "ext4", 10 * 1048576 + 5, 3 * 1048576, 7 * 1048576 + 5)]);
    assert_eq!(get_disks_information(&ds, "k"), vec![head.clone(), disk_line("sda1", "/", "ext4", 10240, 3072, 7168)]);
    assert_eq!(get_disks_information(&ds, "m"), vec![head.clone(), disk_line("sda1", "/", "ext4", 10, 3, 7)]);
    assert_eq!(get_disks_information(&ds, "g"), get_disks_information(&ds, ""));
    assert_eq!(get_disks_information(&vec![], "m"), vec![head]);
}

fn disk_line_str() -> String {
    format!("{:<50} {:<50} {:<50} {:<50} {:<50} {:<50}", "Name", "Mount Point", "Filesystem", "Total Space", "Available Space", "Used Space")
}

#[test]
fn cpu_report() {
    let cpus = vec![Cpu { brand: "Ryzen".to_string(), vendor_id: "AMD".to_string(), name: "cpu0".to_string(), frequency: 3600 }];
    assert_eq!(
        get_cpu_information(&cpus),
        vec![
            format!("{:<50} {:<50} {:<50} {:<50}", "Brand", "Vendor ID", "Name", "Frequency"),
            format!("{:<50} {:<50} {:<50} {:<50}", "Ryzen", "AMD", "cpu0", 3600),
        ]
    );
}

#[test]
fn tree_item_groups_children_by_parent() {
    let ps = vec![
        Process::new(30, "vim".to_string(), 0, 0, 0, Some(20)),
        Process::new(1, "init".to_string(), 0, 0, 0, None),
        Process::new(20, "bash".to_string(), 0, 0, 0, Some(1)),
        Process::new(2, "kthreadd".to_string(), 0, 0, 0, None),
        Process::new(25, "sh".to_string(), 0, 0, 0, Some(1)),
    ];
    let item = pstree_new(&ps);
    assert_eq!(item.text, "root");
    let leaves: Vec<String> = item.children.iter().map(|c| c.text.clone()).collect();
    assert_eq!(leaves, vec!["1", " ", "20", " ", "30", " "]);
    assert!(item.children.iter().all(|c| c.children.is_empty()));
    let empty = pstree_new(&vec![]);
    assert_eq!(empty.text, "root");
    assert!(empty.children.is_empty());
}
