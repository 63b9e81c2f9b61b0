use net4::identity::NodeIdentity;
use net4::storage::{Storage, StorageError};
use net4::types::{Address, InferenceRequest, ModelInfo, ModelThroughput, NodeProfile, NodeStatus};

// Each test opens a store at a path of its own, so tests never contend for
// the same engine lock and leftover state from an earlier run cannot collide
// with the fresh random addresses the tests use.
fn temp_db(name: &str) -> Storage {
    let path = format!("/tmp/net4_test_{}", name);
    Storage::open(&path).expect("failed to open db")
}

fn dummy_profile(address: Address) -> NodeProfile {
    NodeProfile {
        address,
        gpu_name: "RTX 4090".to_string(),
        vram_total_mb: 24576,
        supported_models: vec![ModelInfo {
            model_id: "llama-3-8b".to_string(),
            max_context_length: 8192,
            quantization: "q4_0".to_string(),
        }],
    }
}

// ── NodeProfile tests ──

#[test]
fn put_and_get_node_profile() {
    let mut store = temp_db("put_and_get_node_profile");
    let id = NodeIdentity::generate();
    let profile = dummy_profile(id.address);

    store.put_node_profile(&id.address, &profile).unwrap();
    let loaded = store.get_node_profile(&id.address).unwrap().unwrap();

    assert_eq!(loaded.address, profile.address);
    assert_eq!(loaded.gpu_name, "RTX 4090");
    assert_eq!(loaded.vram_total_mb, 24576);
    assert_eq!(loaded.supported_models.len(), 1);
    assert_eq!(loaded.supported_models[0].model_id, "llama-3-8b");
}

#[test]
fn get_missing_profile_returns_none() {
    let store = temp_db("get_missing_profile_returns_none");
    let id = NodeIdentity::generate();

    let result = store.get_node_profile(&id.address).unwrap();
    assert!(result.is_none());
}

#[test]
fn put_overwrites_existing_profile() {
    let mut store = temp_db("put_overwrites_existing_profile");
    let id = NodeIdentity::generate();

    let profile1 = dummy_profile(id.address);
    store.put_node_profile(&id.address, &profile1).unwrap();

    let profile2 = NodeProfile {
        gpu_name: "A100".to_string(),
        vram_total_mb: 81920,
        ..profile1
    };
    store.put_node_profile(&id.address, &profile2).unwrap();

    let loaded = store.get_node_profile(&id.address).unwrap().unwrap();
    assert_eq!(loaded.gpu_name, "A100");
    assert_eq!(loaded.vram_total_mb, 81920);
}

// ── InferenceRequest tests ──

#[test]
fn put_and_get_request() {
    let mut store = temp_db("put_and_get_request");
    let id = NodeIdentity::generate();

    let req = InferenceRequest {
        request_id: "req-001".to_string(),
        requester: id.address,
        model_id: "llama-3-8b".to_string(),
        prompt: "Hello world".to_string(),
        max_tokens: 256,
        temperature_bits: 0.7f32.to_bits(),
        created_at: 1700000000,
    };

    store.put_request(&req).unwrap();
    let loaded = store.get_request("req-001").unwrap().unwrap();

    assert_eq!(loaded.request_id, "req-001");
    assert_eq!(loaded.requester, id.address);
    assert_eq!(loaded.prompt, "Hello world");
    assert_eq!(loaded.max_tokens, 256);
}

#[test]
fn get_missing_request_returns_none() {
    let store = temp_db("get_missing_request_returns_none");
    assert!(store.get_request("nonexistent").unwrap().is_none());
}

// ── NodeStatus tests ──

#[test]
fn put_and_get_node_status() {
    let mut store = temp_db("put_and_get_node_status");
    let id = NodeIdentity::generate();

    let status = NodeStatus {
        address: id.address,
        loaded_models: vec!["llama-3-8b".to_string()],
        active_jobs: 2,
        max_concurrent_jobs: 4,
        vram_used_mb: 12000,
        throughput: vec![ModelThroughput {
            model_id: "llama-3-8b".to_string(),
            tokens_per_second_bits: 45.5f32.to_bits(),
            avg_latency_ms: 120,
            samples: 100,
        }],
        timestamp: 1700000000,
    };

    store.put_node_status(&id.address, &status).unwrap();
    let loaded = store.get_node_status(&id.address).unwrap().unwrap();

    assert_eq!(loaded.address, id.address);
    assert_eq!(loaded.active_jobs, 2);
    assert_eq!(loaded.loaded_models, vec!["llama-3-8b"]);
    assert_eq!(loaded.throughput.len(), 1);
    assert_eq!(f32::from_bits(loaded.throughput[0].tokens_per_second_bits), 45.5);
}

#[test]
fn profile_and_status_dont_collide() {
    let mut store = temp_db("profile_and_status_dont_collide");
    let id = NodeIdentity::generate();

    let profile = dummy_profile(id.address);
    store.put_node_profile(&id.address, &profile).unwrap();

    let status = NodeStatus {
        address: id.address,
        loaded_models: vec![],
        active_jobs: 0,
        max_concurrent_jobs: 4,
        vram_used_mb: 0,
        throughput: vec![],
        timestamp: 1700000000,
    };
    store.put_node_status(&id.address, &status).unwrap();

    let loaded_profile = store.get_node_profile(&id.address).unwrap().unwrap();
    let loaded_status = store.get_node_status(&id.address).unwrap().unwrap();

    assert_eq!(loaded_profile.gpu_name, "RTX 4090");
    assert_eq!(loaded_status.active_jobs, 0);
}

// ── Meta tests ──

#[test]
fn set_and_get_meta() {
    let mut store = temp_db("set_and_get_meta");

    store.set_meta("version", "0.1.0").unwrap();
    let val = store.get_meta("version").unwrap().unwrap();
    assert_eq!(val, "0.1.0");
}

#[test]
fn get_missing_meta_returns_none() {
    let store = temp_db("get_missing_meta_returns_none");
    assert!(store.get_meta("nonexistent").unwrap().is_none());
}

#[test]
fn meta_round_trips_non_ascii_text() {
    let mut store = temp_db("meta_round_trips_non_ascii_text");
    store.set_meta("motd", "héllo ☀ wörld").unwrap();
    assert_eq!(store.get_meta("motd").unwrap().unwrap(), "héllo ☀ wörld");
}

// ── Flush test ──

#[test]
fn flush_does_not_error() {
    let mut store = temp_db("flush_does_not_error");
    let id = NodeIdentity::generate();
    store
        .put_node_profile(&id.address, &dummy_profile(id.address))
        .unwrap();
    store.flush().unwrap();
}

// ── Error taxonomy ──

#[test]
fn open_fails_with_open_error_on_unusable_location() {
    // A path below a plain file can never be created as a directory.
    let result = Storage::open("/dev/null/net4_db");
    assert!(matches!(result, Err(StorageError::Open(_))));
}

// ── Records with every field populated round-trip wholesale ──

#[test]
fn full_status_round_trips_every_field() {
    let mut store = temp_db("full_status_round_trips_every_field");
    let id = NodeIdentity::generate();

    let status = NodeStatus {
        address: id.address,
        loaded_models: vec!["m-one".to_string(), "m-two".to_string(), String::new()],
        active_jobs: 7,
        max_concurrent_jobs: 9,
        vram_used_mb: 4321,
        throughput: vec![
            ModelThroughput {
                model_id: "m-one".to_string(),
                tokens_per_second_bits: 12.25f32.to_bits(),
                avg_latency_ms: u64::MAX,
                samples: 0,
            },
            ModelThroughput {
                model_id: String::new(),
                tokens_per_second_bits: 0,
                avg_latency_ms: 1,
                samples: u32::MAX,
            },
        ],
        timestamp: 987654321,
    };
    store.put_node_status(&id.address, &status).unwrap();
    let loaded = store.get_node_status(&id.address).unwrap().unwrap();

    assert_eq!(loaded.loaded_models, status.loaded_models);
    assert_eq!(loaded.active_jobs, 7);
    assert_eq!(loaded.max_concurrent_jobs, 9);
    assert_eq!(loaded.vram_used_mb, 4321);
    assert_eq!(loaded.throughput.len(), 2);
    assert_eq!(loaded.throughput[0].model_id, "m-one");
    assert_eq!(loaded.throughput[0].avg_latency_ms, u64::MAX);
    assert_eq!(loaded.throughput[1].samples, u32::MAX);
    assert_eq!(loaded.timestamp, 987654321);
}

#[test]
fn full_request_round_trips_every_field() {
    let mut store = temp_db("full_request_round_trips_every_field");
    let id = NodeIdentity::generate();

    let req = InferenceRequest {
        request_id: "req-αβ-42".to_string(),
        requester: id.address,
        model_id: "mistral-7b".to_string(),
        prompt: String::new(),
        max_tokens: u32::MAX,
        temperature_bits: 1.5f32.to_bits(),
        created_at: 0,
    };
    store.put_request(&req).unwrap();
    let loaded = store.get_request("req-αβ-42").unwrap().unwrap();

    assert_eq!(loaded.request_id, req.request_id);
    assert_eq!(loaded.requester, id.address);
    assert_eq!(loaded.model_id, "mistral-7b");
    assert_eq!(loaded.prompt, "");
    assert_eq!(loaded.max_tokens, u32::MAX);
    assert_eq!(f32::from_bits(loaded.temperature_bits), 1.5);
    assert_eq!(loaded.created_at, 0);
}

#[test]
fn empty_profile_fields_round_trip() {
    let mut store = temp_db("empty_profile_fields_round_trip");
    let id = NodeIdentity::generate();

    let profile = NodeProfile {
        address: id.address,
        gpu_name: String::new(),
        vram_total_mb: 0,
        supported_models: vec![],
    };
    store.put_node_profile(&id.address, &profile).unwrap();
    let loaded = store.get_node_profile(&id.address).unwrap().unwrap();

    assert_eq!(loaded.gpu_name, "");
    assert_eq!(loaded.vram_total_mb, 0);
    assert!(loaded.supported_models.is_empty());
}
