use lurge::instances::{collect_many_process_instances, get_many_processes, group_sorted_names};
use lurge::strutil::sort_names;

fn names(list: &[&str]) -> Vec<String> {
    list.iter().map(|s| s.to_string()).collect()
}

#[test]
fn chrome_triple_reported_finder_not() {
    // Sorted process list ["chrome","chrome","chrome","finder"], threshold 1,
    // cap 5: chrome's run of 3 is reported, finder's run of 1 is not.
    let list = names(&["chrome", "chrome", "chrome", "finder"]);
    let groups = group_sorted_names(&list, 1, 5, &Vec::new());
    assert_eq!(groups.len(), 1);
    assert_eq!(groups[0].name, "chrome");
    assert_eq!(groups[0].count, 3);
}

#[test]
fn run_of_exactly_min_count_is_not_reported() {
    // The threshold is strictly greater-than: a run of exactly `min` names
    // yields no group.
    let list = names(&["a", "a"]);
    let groups = group_sorted_names(&list, 2, 5, &Vec::new());
    assert_eq!(groups.len(), 0);
}

#[test]
fn run_of_min_count_plus_one_is_reported() {
    let list = names(&["a", "a", "a"]);
    let groups = group_sorted_names(&list, 2, 5, &Vec::new());
    assert_eq!(groups.len(), 1);
    assert_eq!(groups[0].name, "a");
    assert_eq!(groups[0].count, 3);
}

#[test]
fn long_run_is_capped_at_max_count() {
    let list = names(&["x", "x", "x", "x", "x", "x", "x"]);
    let groups = group_sorted_names(&list, 1, 3, &Vec::new());
    assert_eq!(groups.len(), 1);
    assert_eq!(groups[0].name, "x");
    assert_eq!(groups[0].count, 3);
}

#[test]
fn blacklisted_name_is_never_reported() {
    let list = names(&["zsh", "zsh", "zsh", "zsh", "zsh"]);
    let black_list = vec!["zsh"];
    let groups = group_sorted_names(&list, 1, 4, &black_list);
    assert_eq!(groups.len(), 0);
}

#[test]
fn blacklist_spares_other_names() {
    let list = names(&["sh", "sh", "sh", "vim", "vim", "vim"]);
    let black_list = vec!["sh"];
    let groups = group_sorted_names(&list, 1, 5, &black_list);
    assert_eq!(groups.len(), 1);
    assert_eq!(groups[0].name, "vim");
    assert_eq!(groups[0].count, 3);
}

#[test]
fn each_name_contributes_at_most_one_group() {
    let list = names(&["a", "a", "a", "a", "b", "b", "b"]);
    let groups = group_sorted_names(&list, 1, 3, &Vec::new());
    assert_eq!(groups.len(), 2);
    assert_eq!(groups[0].name, "a");
    assert_eq!(groups[0].count, 3);
    assert_eq!(groups[1].name, "b");
    assert_eq!(groups[1].count, 3);
}

#[test]
fn sort_names_orders_and_keeps_elements() {
    let sorted = sort_names(names(&["beta", "alpha", "gamma", "alpha"]));
    assert_eq!(sorted, names(&["alpha", "alpha", "beta", "gamma"]));
}

#[test]
fn live_scan_respects_thresholds() {
    // A live enumeration: only shape properties can be asserted.
    let groups = collect_many_process_instances(1, 40, Vec::new());
    for g in &groups {
        assert!(g.count > 1 && g.count <= 40);
    }
    for i in 0..groups.len() {
        for j in i + 1..groups.len() {
            assert_ne!(groups[i].name, groups[j].name);
        }
    }
}

#[test]
fn live_scan_envelope_succeeds() {
    let r = get_many_processes(10, 40);
    assert!(r.success);
    assert_eq!(r.error, "");
    for g in &r.result {
        assert!(g.count > 10 && g.count <= 40);
        assert_ne!(g.name, "zsh");
        assert_ne!(g.name, "bash");
    }
}
