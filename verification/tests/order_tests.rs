use replay_toolbox::{sort_by_key, stream_file_key, strip_keys};

#[test]
fn reverse_completion_order_is_restored() {
    // N fan-out tasks completing in reverse order: the final list is still
    // ascending by index
    let completed: Vec<(u64, String)> = (0..6u64)
        .rev()
        .map(|i| (i, format!("chunk{}", i)))
        .collect();
    let sorted = sort_by_key(completed);
    for (pos, (key, payload)) in sorted.iter().enumerate() {
        assert_eq!(*key, pos as u64);
        assert_eq!(payload, &format!("chunk{}", pos));
    }
}

#[test]
fn arbitrary_completion_order_is_restored() {
    let completed: Vec<(u64, u32)> = vec![(3, 30), (0, 0), (4, 40), (1, 10), (2, 20)];
    let values = strip_keys(sort_by_key(completed));
    assert_eq!(values, vec![0, 10, 20, 30, 40]);
}

#[test]
fn sort_keeps_duplicates() {
    let items: Vec<(u64, char)> = vec![(2, 'a'), (1, 'b'), (2, 'c'), (1, 'd')];
    let sorted = sort_by_key(items);
    let keys: Vec<u64> = sorted.iter().map(|p| p.0).collect();
    assert_eq!(keys, vec![1, 1, 2, 2]);
    assert_eq!(sorted.len(), 4);
    let mut payloads: Vec<char> = sorted.iter().map(|p| p.1).collect();
    payloads.sort();
    assert_eq!(payloads, vec!['a', 'b', 'c', 'd']);
}

#[test]
fn strip_keys_keeps_the_order() {
    let items: Vec<(u64, &str)> = vec![(9, "x"), (3, "y")];
    assert_eq!(strip_keys(items), vec!["x", "y"]);
}

#[test]
fn stream_file_keys_order_by_numeric_index() {
    // "stream.10" sorts after "stream.2", unlike a lexicographic order
    assert!(stream_file_key("stream.2") < stream_file_key("stream.10"));
    assert!(stream_file_key("stream.-1") < stream_file_key("stream.0"));
}
