use pfp::split_into_chunks;

fn sizes(items: &[u32], chunk_size: usize) -> Vec<usize> {
    split_into_chunks(items, chunk_size).iter().map(|c| c.len()).collect()
}

#[test]
fn twelve_items_in_chunks_of_five() {
    let items: Vec<u32> = (0..12).collect();
    assert_eq!(sizes(&items, 5), vec![5, 5, 2]);
}

#[test]
fn chunks_keep_the_given_order() {
    let items: Vec<u32> = (0..12).collect();
    let chunks = split_into_chunks(&items, 5);
    assert_eq!(chunks[0], &[0, 1, 2, 3, 4]);
    assert_eq!(chunks[1], &[5, 6, 7, 8, 9]);
    assert_eq!(chunks[2], &[10, 11]);
    let joined: Vec<u32> = chunks.iter().flat_map(|c| c.iter().copied()).collect();
    assert_eq!(joined, items);
}

#[test]
fn no_items_give_no_chunks() {
    let items: Vec<u32> = Vec::new();
    assert!(split_into_chunks(&items, 3).is_empty());
}

#[test]
fn exact_multiple_gives_full_chunks() {
    let items: Vec<u32> = (0..10).collect();
    assert_eq!(sizes(&items, 5), vec![5, 5]);
}

#[test]
fn chunk_larger_than_items_gives_one_chunk() {
    let items: Vec<u32> = (0..7).collect();
    assert_eq!(sizes(&items, 50), vec![7]);
}

#[test]
fn chunk_size_one_gives_one_chunk_per_item() {
    let items: Vec<u32> = (0..4).collect();
    assert_eq!(sizes(&items, 1), vec![1, 1, 1, 1]);
}

#[test]
fn chunk_count_is_the_ceiling_for_many_sizes() {
    for n in 0..40usize {
        let items: Vec<u32> = (0..n as u32).collect();
        for k in 1..12usize {
            let s = sizes(&items, k);
            assert_eq!(s.len(), (n + k - 1) / k);
            assert!(s.iter().all(|&len| len <= k));
            assert_eq!(s.iter().sum::<usize>(), n);
        }
    }
}
