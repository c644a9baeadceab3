use sysmon::order::sort_pids;
use sysmon::process::{cpu_string, parent_string, Process};
use sysmon::system::{Sample, System};
use sysmon::table::findbypid;

fn proc(pid: i32, name: &str, parent: Option<i32>) -> Process {
    Process::new(pid, name.to_string(), 1234, 2048, 3725, parent)
}

#[test]
fn process_new_starts_without_elapsed_time() {
    let p = Process::new(7, "init".to_string(), 5, 10, 20, None);
    assert_eq!(p.pid, 7);
    assert_eq!(p.name, "init");
    assert_eq!(p.cpu, 5);
    assert_eq!(p.mem, 10);
    assert_eq!(p.start_time, 20);
    assert_eq!(p.elapsed_time, 0);
    assert_eq!(p.parent, None);
}

#[test]
fn short_row_cells() {
    let p = proc(42, "bash", Some(1));
    assert_eq!(p.pstableformat(), vec!["42", "bash", "01:02:05", "1"]);
    let q = proc(-3, "orphan", None);
    assert_eq!(q.pstableformat(), vec!["-3", "orphan", "01:02:05", "N/A"]);
}

#[test]
fn full_row_cells() {
    let p = proc(42, "bash", Some(1));
    assert_eq!(p.format("2.05 MB"), vec!["42", "bash", "12.34%", "2.05 MB", "01:02:05", "1"]);
}

#[test]
fn cpu_and_parent_texts() {
    assert_eq!(cpu_string(0), "0.00%");
    assert_eq!(cpu_string(5), "0.05%");
    assert_eq!(cpu_string(1234), "12.34%");
    assert_eq!(cpu_string(10000), "100.00%");
    assert_eq!(cpu_string(25.5f64 as u64 * 100), format!("{:.2}%", 25.0f32));
    assert_eq!(parent_string(Some(-1)), "-1");
    assert_eq!(parent_string(None), "N/A");
}

#[test]
fn new_system_has_zero_histories() {
    let s = System::new(10, 4, 1000);
    assert_eq!(s.cpu_usage_history, vec![0; 5]);
    assert_eq!(s.mem_usage_history, vec![0; 5]);
    assert_eq!(s.cpu_num_cores, 3);
    assert_eq!(s.mem_total, 1000);
    assert_eq!(s.cpu_current_usage, 0);
    assert!(s.processes.is_empty());
    let t = System::new(1, 1, 0);
    assert!(t.cpu_usage_history.is_empty());
    assert_eq!(t.cpu_num_cores, 0);
}

fn sample(cpu: u64, used: u64) -> Sample {
    Sample { cpu_usage: cpu, core_usages: vec![1, 2], mem_used: used, mem_free: 5, processes: vec![proc(1, "init", None)] }
}

#[test]
fn update_slides_the_history_window() {
    let mut s = System::new(6, 2, 100);
    let copy = s.update(sample(50, 10));
    assert_eq!(s.cpu_usage_history, vec![0, 0, 50]);
    assert_eq!(s.mem_usage_history, vec![0, 0, 10]);
    s.update(sample(60, 20));
    s.update(sample(70, 30));
    s.update(sample(80, 40));
    assert_eq!(s.cpu_usage_history, vec![60, 70, 80]);
    assert_eq!(s.mem_usage_history, vec![20, 30, 40]);
    assert_eq!(s.cpu_current_usage, 80);
    assert_eq!(s.mem_used, 40);
    assert_eq!(s.mem_free, 5);
    assert_eq!(s.cpu_core_usages, vec![1, 2]);
    assert_eq!(s.processes.len(), 1);
    assert_eq!(copy.cpu_usage_history, vec![0, 0, 50]);
    assert_eq!(copy.cpu_current_usage, 50);
    assert_eq!(copy.cpu_num_cores, 1);
    assert_eq!(copy.mem_total, 100);
    assert_eq!(copy.processes[0].name, "init");
}

#[test]
fn history_length_kept_over_many_updates() {
    let mut s = System::new(9, 2, 100);
    for k in 0..25u64 {
        s.update(sample(k, 2 * k));
        assert_eq!(s.cpu_usage_history.len(), 4);
        assert_eq!(s.mem_usage_history.len(), 4);
    }
    assert_eq!(s.cpu_usage_history, vec![21, 22, 23, 24]);
    assert_eq!(s.mem_usage_history, vec![42, 44, 46, 48]);
}

#[test]
fn update_on_empty_history_keeps_it_empty() {
    let mut s = System::new(1, 1, 0);
    s.update(sample(9, 9));
    assert!(s.cpu_usage_history.is_empty());
    assert!(s.mem_usage_history.is_empty());
    assert_eq!(s.cpu_current_usage, 9);
}

#[test]
fn tree_text_indents_by_ancestry() {
    let mut s = System::new(2, 1, 0);
    s.update(Sample {
        cpu_usage: 0,
        core_usages: vec![],
        mem_used: 0,
        mem_free: 0,
        processes: vec![
            proc(30, "vim", Some(20)),
            proc(1, "init", Some(0)),
            proc(20, "bash", Some(1)),
            proc(5, "lonely", None),
        ],
    });
    assert_eq!(
        s.pstree(),
        "initN/A (1)\nlonelyN/A (5)\n  bashN/A (20)\n    vimN/A (30)\n"
    );
}

#[test]
fn empty_tree() {
    let s = System::new(2, 1, 0);
    assert_eq!(s.pstree(), "");
}

#[test]
fn pids_sorted() {
    assert_eq!(sort_pids(&vec![5, -1, 3, 3, 0]), vec![-1, 0, 3, 3, 5]);
    assert_eq!(sort_pids(&vec![]), Vec::<i32>::new());
}

#[test]
fn find_by_pid() {
    let ps = vec![proc(3, "a", None), proc(9, "b", Some(3))];
    assert_eq!(findbypid(&ps, 9).map(|p| p.name), Some("b".to_string()));
    assert!(findbypid(&ps, 4).is_none());
}
