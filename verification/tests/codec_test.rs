use net4::codec::{
    decode_profile, decode_request, decode_status, encode_profile, encode_request, encode_status,
};
use net4::types::{Address, InferenceRequest, ModelInfo, ModelThroughput, NodeProfile, NodeStatus};

fn sample_profile() -> NodeProfile {
    NodeProfile {
        address: Address::from_bytes([7u8; 32]),
        gpu_name: "RTX 3090".to_string(),
        vram_total_mb: 24576,
        supported_models: vec![
            ModelInfo {
                model_id: "llama-3-8b".to_string(),
                max_context_length: 8192,
                quantization: "q4_0".to_string(),
            },
            ModelInfo {
                model_id: "mistral-7b".to_string(),
                max_context_length: 32768,
                quantization: "q8_0".to_string(),
            },
        ],
    }
}

#[test]
fn profile_codec_round_trip() {
    let profile = sample_profile();
    let bytes = encode_profile(&profile);
    let decoded = decode_profile(&bytes).unwrap();
    assert_eq!(decoded.address, profile.address);
    assert_eq!(decoded.gpu_name, profile.gpu_name);
    assert_eq!(decoded.vram_total_mb, profile.vram_total_mb);
    assert_eq!(decoded.supported_models.len(), 2);
    assert_eq!(decoded.supported_models[1].model_id, "mistral-7b");
    assert_eq!(decoded.supported_models[1].max_context_length, 32768);
    assert_eq!(decoded.supported_models[1].quantization, "q8_0");
}

#[test]
fn status_codec_round_trip() {
    let status = NodeStatus {
        address: Address::from_bytes([9u8; 32]),
        loaded_models: vec!["a".to_string(), "b".to_string()],
        active_jobs: 1,
        max_concurrent_jobs: 2,
        vram_used_mb: 3,
        throughput: vec![ModelThroughput {
            model_id: "a".to_string(),
            tokens_per_second_bits: 45.5f32.to_bits(),
            avg_latency_ms: 120,
            samples: 100,
        }],
        timestamp: 1700000000,
    };
    let bytes = encode_status(&status);
    let decoded = decode_status(&bytes).unwrap();
    assert_eq!(decoded.address, status.address);
    assert_eq!(decoded.loaded_models, status.loaded_models);
    assert_eq!(decoded.active_jobs, 1);
    assert_eq!(decoded.max_concurrent_jobs, 2);
    assert_eq!(decoded.vram_used_mb, 3);
    assert_eq!(f32::from_bits(decoded.throughput[0].tokens_per_second_bits), 45.5);
    assert_eq!(decoded.timestamp, 1700000000);
}

#[test]
fn request_codec_round_trip() {
    let req = InferenceRequest {
        request_id: "req-001".to_string(),
        requester: Address::from_bytes([1u8; 32]),
        model_id: "llama-3-8b".to_string(),
        prompt: "Hello world".to_string(),
        max_tokens: 256,
        temperature_bits: 0.7f32.to_bits(),
        created_at: 1700000000,
    };
    let bytes = encode_request(&req);
    let decoded = decode_request(&bytes).unwrap();
    assert_eq!(decoded.request_id, req.request_id);
    assert_eq!(decoded.requester, req.requester);
    assert_eq!(decoded.model_id, req.model_id);
    assert_eq!(decoded.prompt, req.prompt);
    assert_eq!(decoded.max_tokens, req.max_tokens);
    assert_eq!(decoded.temperature_bits, req.temperature_bits);
    assert_eq!(decoded.created_at, req.created_at);
}

#[test]
fn decode_rejects_trailing_bytes() {
    let mut bytes = encode_profile(&sample_profile());
    bytes.push(0);
    assert!(decode_profile(&bytes).is_none());
}

#[test]
fn decode_rejects_truncated_input() {
    let bytes = encode_profile(&sample_profile());
    assert!(decode_profile(&bytes[..bytes.len() - 1]).is_none());
    assert!(decode_profile(&[]).is_none());
}

#[test]
fn decode_rejects_garbage() {
    assert!(decode_profile(&[0xffu8; 60]).is_none());
    assert!(decode_status(&[0xffu8; 60]).is_none());
    assert!(decode_request(&[0xffu8; 60]).is_none());
}
