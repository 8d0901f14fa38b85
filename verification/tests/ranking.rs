use ruix_dashboard::rank::top_by_key;

fn stable_reference(keys: &[u64], limit: usize) -> Vec<usize> {
    let mut idx: Vec<usize> = (0..keys.len()).collect();
    idx.sort_by(|a, b| keys[*b].cmp(&keys[*a]));
    idx.truncate(limit);
    idx
}

#[test]
fn picks_largest_first() {
    let keys = vec![10, 50, 20, 40, 30];
    assert_eq!(top_by_key(&keys, 3), vec![1, 3, 4]);
    assert_eq!(top_by_key(&keys, 10), vec![1, 3, 4, 2, 0]);
    assert_eq!(top_by_key(&keys, 0), Vec::<usize>::new());
}

#[test]
fn ties_keep_input_order() {
    let keys = vec![7, 9, 7, 9, 7];
    assert_eq!(top_by_key(&keys, 4), vec![1, 3, 0, 2]);
}

#[test]
fn empty_input() {
    assert_eq!(top_by_key(&Vec::new(), 10), Vec::<usize>::new());
}

#[test]
fn matches_stable_sort_then_truncate() {
    let mut x: u64 = 12345;
    for round in 0..200 {
        let n = (round % 37) as usize;
        let mut keys = Vec::new();
        for _ in 0..n {
            x = x.wrapping_mul(6364136223846793005).wrapping_add(1442695040888963407);
            keys.push((x >> 60) % 6);
        }
        for limit in [0usize, 1, 5, 10, 20, 40] {
            assert_eq!(top_by_key(&keys, limit), stable_reference(&keys, limit));
        }
    }
}

#[test]
fn shorter_ranking_is_prefix_of_longer() {
    let keys = vec![3, 1, 4, 1, 5, 9, 2, 6, 5, 3, 5];
    let long = top_by_key(&keys, 20);
    for k in 0..=keys.len() {
        assert_eq!(top_by_key(&keys, k), long[..k].to_vec());
    }
}
