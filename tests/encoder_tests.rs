use golem_monitor::json_stream::stream_json_array;

fn run(min_chunk: usize, max_chunk: usize, items: &[&str]) -> Vec<Vec<u8>> {
    let mut enc = stream_json_array(min_chunk, max_chunk);
    let mut chunks = Vec::new();
    for it in items {
        chunks.extend(enc.push(it.as_bytes().to_vec()));
    }
    chunks.push(enc.finish().unwrap());
    assert!(enc.finish().is_none());
    chunks
}

#[test]
fn empty_upstream_gives_empty_array() {
    let chunks = run(10, 20, &[]);
    assert_eq!(chunks, vec![b"[]".to_vec()]);
}

#[test]
fn array_has_one_element_per_item() {
    let items = ["{\"a\":\"1\"}", "{\"b\":\"2\"}", "{}"];
    let chunks = run(4, 100, &items);
    let all: Vec<u8> = chunks.concat();
    assert_eq!(String::from_utf8(all.clone()).unwrap(), "[{\"a\":\"1\"},\n{\"b\":\"2\"},\n{}]");
    let v: serde_json::Value = serde_json::from_slice(&all).unwrap();
    assert_eq!(v.as_array().unwrap().len(), 3);
}

#[test]
fn chunks_end_between_elements() {
    let items = ["\"aaaa\"", "\"bbbb\"", "\"cccc\"", "\"dddd\""];
    for (min_chunk, max_chunk) in [(0, 0), (0, 100), (7, 10), (12, 16), (100, 1000)] {
        let chunks = run(min_chunk, max_chunk, &items);
        let mut seen = Vec::new();
        for c in &chunks {
            assert!(!c.is_empty());
            seen.extend_from_slice(c);
            // every chunk ends right after an element, or after the closing bracket
            let last = *seen.last().unwrap();
            assert!(last == b'"' || last == b']', "{:?}", String::from_utf8_lossy(&seen));
        }
        let v: serde_json::Value = serde_json::from_slice(&seen).unwrap();
        assert_eq!(v.as_array().unwrap().len(), 4);
    }
}

#[test]
fn small_min_chunk_flushes_each_element() {
    let chunks = run(0, 1000, &["1", "2"]);
    assert_eq!(chunks, vec![b"[1".to_vec(), b",\n2".to_vec(), b"]".to_vec()]);
}

#[test]
fn chunk_sizes_follow_min_and_max() {
    let items: Vec<String> = (0..40).map(|i| format!("\"{}\"", "x".repeat(i % 7))).collect();
    let refs: Vec<&str> = items.iter().map(|s| s.as_str()).collect();
    let (min_chunk, max_chunk) = (12, 24);
    let chunks = run(min_chunk, max_chunk, &refs);
    for (i, c) in chunks.iter().enumerate() {
        // every element is at most max_chunk - 2 bytes, so no chunk passes max_chunk
        assert!(c.len() <= max_chunk, "chunk {} has {} bytes", i, c.len());
    }
    // a chunk before the last holds more than min_chunk bytes, unless the next
    // element would have taken it past max_chunk
    let mut cut_short = 0;
    for c in &chunks[..chunks.len() - 1] {
        if c.len() <= min_chunk {
            cut_short += 1;
        }
    }
    assert!(cut_short < chunks.len());
    let all: Vec<u8> = chunks.concat();
    let v: serde_json::Value = serde_json::from_slice(&all).unwrap();
    assert_eq!(v.as_array().unwrap().len(), 40);
}

#[test]
fn oversized_element_travels_alone() {
    let big = format!("\"{}\"", "y".repeat(50));
    let chunks = run(4, 10, &["1", &big, "2"]);
    assert_eq!(chunks, vec![b"[1".to_vec(), format!(",\n{}", big).into_bytes(), b",\n2]".to_vec()]);
}
