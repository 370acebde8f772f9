use homeboy::graph::arrange;

#[test]
fn graph_without_edges_is_arranged_as_it_stands() {
    let found = arrange(&vec![vec![], vec![], vec![]]);
    assert_eq!(found.order, vec![0, 1, 2]);
    assert!(found.pending.is_empty());
}

#[test]
fn empty_graph_has_nothing_to_arrange() {
    let found = arrange(&Vec::new());
    assert!(found.order.is_empty());
    assert!(found.pending.is_empty());
}

#[test]
fn nodes_follow_what_they_wait_for() {
    // 0 waits for 2 and 3, 1 waits for 0, 2 waits for 3, 3 for nothing
    let found = arrange(&vec![vec![2, 3], vec![0], vec![3], vec![]]);
    assert_eq!(found.order, vec![3, 2, 0, 1]);
    assert!(found.pending.is_empty());
}

#[test]
fn nodes_that_become_ready_together_stand_as_in_the_graph() {
    // 4 is the only root; 0, 2 and 3 wait for it; 1 waits for 3 and 0
    let found = arrange(&vec![vec![4], vec![3, 0], vec![4], vec![4], vec![]]);
    assert_eq!(found.order, vec![4, 0, 2, 3, 1]);
}

#[test]
fn earlier_readiness_wins_over_place_in_the_graph() {
    // roots 1 and 2; 0 waits for 2, 3 waits for 1
    let found = arrange(&vec![vec![2], vec![], vec![], vec![1]]);
    assert_eq!(found.order, vec![1, 2, 3, 0]);
}

#[test]
fn round_trip_and_what_waits_for_it_are_pending() {
    // 0 and 1 wait for each other, 2 waits for 1, 3 is free, 4 waits for itself
    let found = arrange(&vec![vec![1], vec![0], vec![1], vec![], vec![4]]);
    assert_eq!(found.order, vec![3]);
    assert_eq!(found.pending, vec![0, 1, 2, 4]);
}

#[test]
fn every_node_is_placed_or_pending() {
    let graph = vec![vec![1, 1], vec![], vec![0, 5], vec![2], vec![3, 4], vec![2]];
    let found = arrange(&graph);
    assert_eq!(found.order, vec![1, 0]);
    assert_eq!(found.pending, vec![2, 3, 4, 5]);
    assert_eq!(found.order.len() + found.pending.len(), graph.len());
}
