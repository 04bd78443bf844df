use cargo_release::graph::sort_workspace;

fn position(order: &[usize], x: usize) -> usize {
    order.iter().position(|&p| p == x).unwrap()
}

#[test]
fn diamond_orders_shared_dependency_first() {
    // 0 depends on 1 and 2; 1 and 2 both depend on 3.
    let deps: Vec<Vec<usize>> = vec![vec![1, 2], vec![3], vec![3], vec![]];
    let order = sort_workspace(&deps);
    assert_eq!(order.len(), 4);
    // Each member appears exactly once.
    let mut seen = [false; 4];
    for &p in &order {
        assert!(!seen[p]);
        seen[p] = true;
    }
    // The shared dependency comes before both of its dependents, and every
    // dependency before its dependent.
    assert!(position(&order, 3) < position(&order, 1));
    assert!(position(&order, 3) < position(&order, 2));
    assert!(position(&order, 1) < position(&order, 0));
    assert!(position(&order, 2) < position(&order, 0));
}

#[test]
fn chain_is_reversed() {
    // 0 -> 1 -> 2.
    let deps: Vec<Vec<usize>> = vec![vec![1], vec![2], vec![]];
    let order = sort_workspace(&deps);
    assert_eq!(order, vec![2, 1, 0]);
}

#[test]
fn independent_members_keep_member_order() {
    let deps: Vec<Vec<usize>> = vec![vec![], vec![], vec![]];
    let order = sort_workspace(&deps);
    assert_eq!(order, vec![0, 1, 2]);
}
