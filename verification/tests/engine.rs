use file_search::engine::{criteria_of, search_roots, Search};
use file_search::orchestrator::{
    walker_roots, Aggregator, Event, CHANNEL_CAPACITY, RECEIVE_TIMEOUT_MS,
};
use file_search::volumes::{mount_points, DiskInfo};
use file_search::classifier::default_denylist;
use file_search::walker::{Entry, FileSearchResult, Step, Walker};

fn hit(path: &str, size: u64) -> FileSearchResult {
    FileSearchResult {
        path: path.to_string(),
        name: path.rsplit('/').next().unwrap().to_string(),
        size,
        disk: "/vol".to_string(),
    }
}

fn entry(path: &str, is_dir: bool, depth: usize) -> Entry {
    Entry {
        path: path.to_string(),
        name: path.rsplit('/').next().map(|s| s.to_string()),
        is_dir,
        depth,
        size: Some(1),
    }
}

fn disk(name: &str, mount_point: &str) -> DiskInfo {
    DiskInfo {
        name: name.to_string(),
        mount_point: mount_point.to_string(),
        available_space: 5,
        total_space: 9,
    }
}

#[test]
fn walkers_start_on_visible_top_level_directories_only() {
    let children = vec![
        entry("/vol", true, 0),
        entry("/vol/a", true, 1),
        entry("/vol/top.txt", false, 1),
        entry("/vol/.cache", true, 1),
        entry("/vol/sys", true, 1),
        entry("/vol/b", true, 1),
        entry("/vol/b/deeper", true, 2),
    ];
    let deny = vec!["/vol/sys".to_string()];
    assert_eq!(walker_roots(&children, &deny), vec!["/vol/a".to_string(), "/vol/b".to_string()]);
    assert!(walker_roots(&Vec::new(), &deny).is_empty());
}

#[test]
fn channel_settings() {
    assert_eq!(CHANNEL_CAPACITY, 10000);
    assert_eq!(RECEIVE_TIMEOUT_MS, 100);
}

#[test]
fn aggregator_keeps_every_match_in_arrival_order() {
    let mut agg = Aggregator::new(1);
    let n = 25000;
    for i in 0..n {
        assert!(!agg.on_event(Event::Received(hit("/vol/a/f", i))));
    }
    assert!(agg.on_event(Event::WalkerDone));
    let out = agg.into_results();
    assert_eq!(out.len(), n as usize);
    for i in 0..n {
        assert_eq!(out[i as usize].size, i);
    }
}

#[test]
fn silence_does_not_end_aggregation_while_a_walker_runs() {
    let mut agg = Aggregator::new(3);
    assert!(!agg.is_complete());
    assert!(!agg.on_event(Event::Received(hit("/vol/fast/1", 1))));
    assert!(!agg.on_event(Event::WalkerDone));
    assert!(!agg.on_event(Event::WalkerDone));
    assert!(!agg.on_event(Event::Silence));
    assert!(!agg.on_event(Event::Silence));
    assert!(!agg.on_event(Event::Received(hit("/vol/slow/2", 2))));
    assert!(agg.on_event(Event::WalkerDone));
    assert!(agg.is_complete());
    assert_eq!(agg.into_results(), vec![hit("/vol/fast/1", 1), hit("/vol/slow/2", 2)]);
}

#[test]
fn aggregation_without_walkers_is_complete_at_once() {
    let mut agg = Aggregator::new(0);
    assert!(agg.is_complete());
    assert!(agg.on_event(Event::Silence));
    assert!(agg.on_event(Event::WalkerDone));
    assert!(agg.into_results().is_empty());
}

#[test]
fn closed_channel_ends_aggregation() {
    let mut agg = Aggregator::new(2);
    assert!(!agg.on_event(Event::Received(hit("/vol/a", 1))));
    assert!(agg.on_event(Event::Closed));
    assert!(agg.on_event(Event::Silence));
    assert_eq!(agg.into_results(), vec![hit("/vol/a", 1)]);
}

#[test]
fn mount_points_in_enumeration_order() {
    let disks = vec![disk("System", "/"), disk("Data", "/mnt/data")];
    assert_eq!(mount_points(&disks), vec!["/".to_string(), "/mnt/data".to_string()]);
    assert!(mount_points(&Vec::new()).is_empty());
}

#[test]
fn named_volume_is_the_only_root() {
    let mounted = vec!["/".to_string(), "/mnt".to_string()];
    assert_eq!(search_roots("/vol", mounted.clone()), vec!["/vol".to_string()]);
    assert_eq!(search_roots("", mounted.clone()), mounted);
    assert!(search_roots("", Vec::new()).is_empty());
}

#[test]
fn search_over_no_volumes_is_empty() {
    let c = criteria_of(String::new(), String::new(), String::new(), true);
    assert!(c.include_directories);
    let search = Search::new(&c.volume, Vec::new());
    assert_eq!(search.next_root(), None);
    assert!(search.finish().is_empty());
}

#[test]
fn results_are_concatenated_in_volume_order() {
    let mut search = Search::new("", vec!["/v1".to_string(), "/v2".to_string(), "/v3".to_string()]);
    assert_eq!(search.next_root(), Some("/v1".to_string()));
    search.absorb(vec![hit("/v1/a", 1), hit("/v1/b", 2)]);
    assert_eq!(search.next_root(), Some("/v2".to_string()));
    search.absorb(Vec::new());
    assert_eq!(search.next_root(), Some("/v3".to_string()));
    search.absorb(vec![hit("/v3/c", 3)]);
    assert_eq!(search.next_root(), None);
    search.absorb(vec![hit("/v4/d", 4)]);
    assert_eq!(search.finish(), vec![hit("/v1/a", 1), hit("/v1/b", 2), hit("/v3/c", 3)]);
}

#[test]
fn criteria_carry_the_caller_values() {
    let c = criteria_of("Q".to_string(), ".e".to_string(), "/vol".to_string(), false);
    assert_eq!(c.query, "Q");
    assert_eq!(c.extension, ".e");
    assert_eq!(c.volume, "/vol");
    assert!(!c.include_directories);
    let search = Search::new(&c.volume, vec!["/other".to_string()]);
    assert_eq!(search.next_root(), Some("/vol".to_string()));
}

fn sized(path: &str, is_dir: bool, depth: usize, size: u64) -> Entry {
    let mut e = entry(path, is_dir, depth);
    e.size = Some(size);
    e
}

fn subtree(volume: &[Entry], root: &str) -> Vec<Entry> {
    let start = volume.iter().position(|e| e.path == root).unwrap();
    let base = volume[start].depth;
    let mut out = vec![volume[start].clone()];
    for e in &volume[start + 1..] {
        if e.depth <= base {
            break;
        }
        out.push(e.clone());
    }
    for e in out.iter_mut() {
        e.depth -= base;
    }
    out
}

fn run_search(volume: &[Entry], query: &str, disk: &str, folders: bool) -> Vec<FileSearchResult> {
    let criteria = criteria_of(query.to_string(), String::new(), disk.to_string(), folders);
    let denylist = default_denylist();
    let mut search = Search::new(&criteria.volume, Vec::new());
    while let Some(root) = search.next_root() {
        let top: Vec<Entry> = volume.iter().filter(|e| e.depth <= 1).cloned().collect();
        let roots = if volume.first().map(|e| e.path == root).unwrap_or(false) {
            walker_roots(&top, &denylist)
        } else {
            Vec::new()
        };
        let mut aggregator = Aggregator::new(roots.len());
        for walker_root in &roots {
            let walker = Walker::new(walker_root.clone(), criteria.clone(), denylist.clone());
            let listing = subtree(volume, walker_root);
            let mut i = 0;
            while i < listing.len() {
                match walker.visit(&listing[i]) {
                    Step::Prune => {
                        let d = listing[i].depth;
                        i += 1;
                        while i < listing.len() && listing[i].depth > d {
                            i += 1;
                        }
                        continue;
                    }
                    Step::Skip => {}
                    Step::Emit(m) => {
                        aggregator.on_event(Event::Received(m));
                    }
                }
                i += 1;
            }
            aggregator.on_event(Event::WalkerDone);
        }
        assert!(aggregator.is_complete());
        search.absorb(aggregator.into_results());
    }
    search.finish()
}

fn report_volume() -> Vec<Entry> {
    vec![
        sized("/vol", true, 0, 0),
        sized("/vol/a", true, 1, 0),
        sized("/vol/a/report.txt", false, 2, 10),
        sized("/vol/a/.hidden", true, 2, 0),
        sized("/vol/a/.hidden/report.txt", false, 3, 10),
        sized("/vol/b", true, 1, 0),
        sized("/vol/b/old_report.log", false, 2, 31),
    ]
}

#[test]
fn report_search_over_a_volume() {
    let found = run_search(&report_volume(), "report", "/vol", false);
    assert_eq!(found.len(), 2);
    assert_eq!(found[0].path, "/vol/a/report.txt");
    assert_eq!(found[0].size, 10);
    assert_eq!(found[0].disk, "/vol/a");
    assert_eq!(found[1].path, "/vol/b/old_report.log");
    assert_eq!(found[1].size, 31);
    assert_eq!(found[1].disk, "/vol/b");
}

#[test]
fn repeated_searches_return_the_same_matches() {
    let first = run_search(&report_volume(), "Report", "/vol", false);
    let second = run_search(&report_volume(), "report", "/vol", false);
    assert_eq!(first, second);
}

#[test]
fn missing_volume_contributes_nothing() {
    assert!(run_search(&report_volume(), "report", "/absent", true).is_empty());
}

#[test]
fn visiting_entry_by_entry_agrees_with_the_walk() {
    let volume = report_volume();
    let listing = subtree(&volume, "/vol/a");
    let criteria = criteria_of("report".to_string(), String::new(), String::new(), true);
    let walker = Walker::new("/vol/a".to_string(), criteria, Vec::new());
    let by_walk = walker.walk(&listing);
    let by_visit = run_search(&volume, "report", "/vol", true);
    assert_eq!(by_walk, by_visit[..by_walk.len()].to_vec());
}
