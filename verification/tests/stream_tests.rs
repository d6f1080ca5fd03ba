use cage::buff::{checkpoint_path, ChunkAction, ChunkerConfig, FileChunker as BuffChunker};
use cage::chunker::file_chunking::{calculate_chunks, estimate_processing_time, get_optimal_chunk_size, FileChunker};
use cage::chunker::jsonm::JsonmProcessor as JsonmV2;
use cage::chunker::jsonm_scan::JsonmProcessor as JsonmScan;
use cage::chunker::plan::plan_ranges;
use cage::chunker::stream_chunker::{optimal_chunk_size, StreamChunker};

#[test]
fn test_chunk_calculation() {
    let chunker = FileChunker::new("data.json", 1000, 300);
    let chunks = chunker.get_chunks();

    assert_eq!(chunks.len(), 4); // 1000 bytes / 300 = 4 chunks
    assert_eq!(chunks[0].size, 300);
    assert_eq!(chunks[3].size, 100); // Last chunk smaller
}

#[test]
fn chunk_plans_partition_the_input() {
    let ranges = plan_ranges(1000, 300);
    assert_eq!(ranges, vec![(0, 299), (300, 599), (600, 899), (900, 999)]);
    assert!(plan_ranges(0, 300).is_empty());
    let chunks = calculate_chunks(600, 300);
    assert_eq!(chunks.len(), 2);
    assert_eq!(chunks[1].start_byte, 300);
    assert_eq!(chunks[1].end_byte, 599);
    assert_eq!(estimate_processing_time(1000, 300), 8);
    assert!(get_optimal_chunk_size(10) > 0);
    assert!(optimal_chunk_size(10) > 0);
    let s = StreamChunker::new("stream", 10, 4);
    assert_eq!(s.get_chunks().len(), 3);
}

#[test]
fn buffered_chunker_plan() {
    let config = ChunkerConfig { chunk_size: 256, checkpoint_dir: None, enable_progress: false };
    let c = BuffChunker::new("/data/big.bin", 1000, config);
    assert_eq!(c.chunks().len(), 4);
    assert_eq!(checkpoint_path("/data/big.bin", None), "/data/big.cage.chunk");
    assert_eq!(checkpoint_path("/data/big.bin", Some(&"/ck".to_string())), "/ck/big.bin.checkpoint");
}

fn token_pairs(json: &str) -> Vec<(String, String)> {
    let mut p = JsonmV2::new();
    p.process_stream(json.as_bytes())
        .unwrap()
        .into_iter()
        .map(|t| (t.key, t.value))
        .collect()
}

#[test]
fn jsonm_simple_object() {
    let tokens = token_pairs(r#"{"name":"Alice","age":25}"#);
    assert_eq!(tokens.len(), 2);
    assert!(tokens.iter().any(|(k, v)| k == "name" && v == "Alice"));
    assert!(tokens.iter().any(|(k, v)| k == "age" && v == "25"));
}

#[test]
fn jsonm_nested_structure() {
    let tokens = token_pairs(r#"{"user":{"name":"Bob","details":{"age":30}}}"#);
    assert!(tokens.iter().any(|(k, v)| k == "user.name" && v == "Bob"));
    assert!(tokens.iter().any(|(k, v)| k == "user.details.age" && v == "30"));
}

#[test]
fn jsonm_array_handling() {
    let tokens = token_pairs(r#"{"items":["a","b","c"]}"#);
    assert!(tokens.iter().any(|(k, v)| k == "items.__i_0" && v == "a"));
    assert!(tokens.iter().any(|(k, v)| k == "items.__i_1" && v == "b"));
    assert!(tokens.iter().any(|(k, v)| k == "items.__i_2" && v == "c"));
}

#[test]
fn jsonm_rejects_invalid_input() {
    let mut p = JsonmV2::new();
    assert!(p.process_stream(br#"{"name":"Alice","age":}"#).is_err());
    let mut p = JsonmV2::new();
    assert!(p.process_stream(br#"{"name":"Alice"]"#).is_err());
    let mut p = JsonmV2::new();
    assert!(p.process_stream(br#"{"open":"#).is_err());
}

#[test]
fn jsonm_scan_balance() {
    let mut p = JsonmScan::new();
    assert!(p.process_stream(br#"{"a":[1,2],"b":{"c":true}}"#).is_ok());
    let mut p = JsonmScan::new();
    assert!(p.process_stream(b"}{").is_err());
}

#[test]
fn chunk_run_resumes_past_completed_chunks() {
    let config = ChunkerConfig { chunk_size: 100, checkpoint_dir: None, enable_progress: false };
    let chunker = BuffChunker::new("data.bin", 250, config);
    let mut checkpoint = chunker.fresh_checkpoint();
    checkpoint.completed_chunks.push(0);
    checkpoint.bytes_processed = 100;
    let mut run = chunker.start_run(checkpoint);

    match chunker.next_action(&mut run).unwrap() {
        ChunkAction::Process(c) => {
            assert_eq!(c.id, 1);
            assert_eq!(c.start, 100);
            assert_eq!(c.size, 100);
        }
        ChunkAction::Done(_) => panic!("chunk 1 is still to do"),
    }
    chunker.chunk_done(&mut run);
    assert_eq!(run.checkpoint().completed_chunks, vec![0, 1]);
    assert_eq!(run.checkpoint().bytes_processed, 200);

    match chunker.next_action(&mut run).unwrap() {
        ChunkAction::Process(c) => assert_eq!((c.id, c.size), (2, 50)),
        ChunkAction::Done(_) => panic!("chunk 2 is still to do"),
    }
    chunker.chunk_done(&mut run);
    match chunker.next_action(&mut run).unwrap() {
        ChunkAction::Done(s) => {
            assert_eq!(s.processed_bytes, 250);
            assert_eq!(s.chunks_total, 3);
            assert_eq!(s.chunks_completed, 3);
            assert!(s.checkpoint_cleared);
        }
        ChunkAction::Process(_) => panic!("every chunk is done"),
    }
}

fn rejection<T>(r: Result<T, String>) -> String {
    match r {
        Ok(_) => panic!("input accepted"),
        Err(e) => e,
    }
}

#[test]
fn jsonm_rejections_name_the_fault() {
    let mut p = JsonmV2::new();
    assert_eq!(rejection(p.process_stream(b"{\"a\" 1}")), "Expected ':', found '1'");
    let mut p = JsonmV2::new();
    assert_eq!(rejection(p.process_stream(b"[1}")), "Bracket mismatch: expected '{', found '['");
    let mut p = JsonmV2::new();
    assert_eq!(rejection(p.process_stream(b"[1")), "Unbalanced JSON structure");
    let mut p = JsonmV2::new();
    assert_eq!(rejection(p.process_stream(b"tru!")), "Invalid literal: tru!");
    let mut p = JsonmV2::new();
    assert_eq!(rejection(p.process_stream(b"]")), "Unexpected structural character ']' when expecting value");

    let mut s = JsonmScan::new();
    assert_eq!(rejection(s.process_stream(b"}")), "Malformed JSON: unmatched closing bracket");
    let mut s = JsonmScan::new();
    assert_eq!(rejection(s.process_stream(b"{")), "Malformed JSON: unbalanced brackets");
}

#[test]
fn empty_file_plan_takes_any_chunk_size() {
    let chunker = FileChunker::new("empty.json", 0, 0);
    assert!(chunker.get_chunks().is_empty());
    assert!(calculate_chunks(0, 0).is_empty());
}

#[test]
fn jsonm_key_frequencies_and_position() {
    let doc = br#"{"a":1,"b":{"a":2}}"#;
    let mut p = JsonmScan::new();
    assert!(p.process_stream(doc).is_ok());
    assert_eq!(p.create_checkpoint().byte_position, doc.len() as u64);
    let freqs = p.key_frequencies();
    assert!(freqs.iter().all(|(_, n)| *n >= 1));
    assert_eq!(freqs.len() as u64, p.get_forensic_stats().total_keys);

    let mut q = JsonmV2::new();
    assert!(q.process_stream(doc).is_ok());
    assert_eq!(q.create_checkpoint().byte_position, doc.len() as u64);
    assert!(!q.key_frequencies().is_empty());
}
