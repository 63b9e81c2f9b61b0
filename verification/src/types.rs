//! Shared data model: addresses and the record shapes held by the keyed
//! store.
//!
//! Fractional measurements (throughput in tokens per second, sampling
//! temperature, scores) are carried as the raw bit pattern of the 32-bit
//! IEEE 754 value, in a `u32` field whose name ends in `_bits`. The store
//! treats them as opaque integers; arithmetic on them is out of scope.

use vstd::prelude::*;
use vstd::slice::slice_subrange;

verus! {

/// The all-zero address byte sequence.
pub open spec fn zero_address_bytes() -> Seq<u8> {
    Seq::new(32, |i: int| 0u8)
}

/// Lowercase hexadecimal digit for a value below 16.
pub open spec fn hex_digit(n: u8) -> char
    recommends
        n < 16,
{
    seq!['0', '1', '2', '3', '4', '5', '6', '7', '8', '9', 'a', 'b', 'c', 'd', 'e', 'f'][n as int]
}

/// Lowercase hexadecimal rendering of a byte sequence, two digits per byte,
/// most significant digit first.
pub open spec fn hex_of(s: Seq<u8>) -> Seq<char>
    decreases s.len(),
{
    if s.len() == 0 {
        Seq::empty()
    } else {
        seq![hex_digit(s[0] / 16), hex_digit(s[0] % 16)] + hex_of(s.drop_first())
    }
}

/// Relies on hex::encode: lowercase hexadecimal, two digits per byte, most
/// significant digit first.
#[verifier::external_body]
fn hex_encode(bytes: &[u8]) -> (r: String)
    ensures
        r@ == hex_of(bytes@),
{
    hex::encode(bytes)
}

/// A 32-byte identifier derived one-way from a node's public key.
/// Equality is byte equality; the value is immutable once created.
#[derive(Debug, Clone, Copy, PartialEq, Eq, Hash)]
pub struct Address {
    bytes: [u8; 32],
}

impl View for Address {
    type V = Seq<u8>;

    closed spec fn view(&self) -> Seq<u8> {
        self.bytes@
    }
}

/// An address always views as exactly its 32 bytes.
pub broadcast proof fn lemma_address_len(a: Address)
    ensures
        (#[trigger] a@).len() == 32,
{
}

impl Address {
    /// The all-zero address. No honest key hashes to it; it serves as a
    /// sentinel in tests and diagnostics only.
    pub fn zero() -> (a: Address)
        ensures
            a@ == zero_address_bytes(),
    {
        let bytes = [0u8; 32];
        proof {
            assert(bytes@ =~= zero_address_bytes());
        }
        Address { bytes }
    }

    /// The raw 32 bytes; this is the storage key encoding for profiles.
    pub fn as_bytes(&self) -> (r: &[u8; 32])
        ensures
            r@ == self@,
    {
        &self.bytes
    }

    pub fn from_bytes(bytes: [u8; 32]) -> (a: Address)
        ensures
            a@ == bytes@,
    {
        Address { bytes }
    }

    /// Lossy display form: the first eight bytes in hexadecimal, then "..".
    /// Never a valid storage or wire key.
    pub fn short_hex(&self) -> (s: String)
        ensures
            s@ == hex_of(self@.take(8)) + ".."@,
    {
        let prefix = hex_encode(slice_subrange(self.bytes.as_slice(), 0, 8));
        proof {
            assert(self.bytes@.subrange(0, 8) =~= self@.take(8));
        }
        prefix.concat("..")
    }
}

/// Mathematical shape of a [`ModelInfo`].
#[verifier::ext_equal]
pub ghost struct ModelInfoView {
    pub model_id: Seq<char>,
    pub max_context_length: u32,
    pub quantization: Seq<char>,
}

/// Static capability descriptor for one supported model.
#[derive(Debug, Clone)]
pub struct ModelInfo {
    pub model_id: String,
    pub max_context_length: u32,
    pub quantization: String,
}

impl View for ModelInfo {
    type V = ModelInfoView;

    open spec fn view(&self) -> ModelInfoView {
        ModelInfoView {
            model_id: self.model_id@,
            max_context_length: self.max_context_length,
            quantization: self.quantization@,
        }
    }
}

/// Views of a sequence of [`ModelInfo`] values, element for element.
pub open spec fn deep_models(s: Seq<ModelInfo>) -> Seq<ModelInfoView> {
    Seq::new(s.len(), |i: int| s[i]@)
}

/// Mathematical shape of a [`NodeProfile`].
#[verifier::ext_equal]
pub ghost struct NodeProfileView {
    pub address: Seq<u8>,
    pub gpu_name: Seq<char>,
    pub vram_total_mb: u32,
    pub supported_models: Seq<ModelInfoView>,
}

/// Slow-changing capability advertisement, keyed by address, one record per
/// address.
#[derive(Debug, Clone)]
pub struct NodeProfile {
    pub address: Address,
    pub gpu_name: String,
    pub vram_total_mb: u32,
    pub supported_models: Vec<ModelInfo>,
}

impl View for NodeProfile {
    type V = NodeProfileView;

    open spec fn view(&self) -> NodeProfileView {
        NodeProfileView {
            address: self.address@,
            gpu_name: self.gpu_name@,
            vram_total_mb: self.vram_total_mb,
            supported_models: deep_models(self.supported_models@),
        }
    }
}

/// Mathematical shape of a [`ModelThroughput`].
#[verifier::ext_equal]
pub ghost struct ModelThroughputView {
    pub model_id: Seq<char>,
    pub tokens_per_second_bits: u32,
    pub avg_latency_ms: u64,
    pub samples: u32,
}

/// Rolling performance sample, part of a status record.
/// `tokens_per_second_bits` holds the bit pattern of the 32-bit IEEE 754
/// measurement.
#[derive(Debug, Clone)]
pub struct ModelThroughput {
    pub model_id: String,
    pub tokens_per_second_bits: u32,
    pub avg_latency_ms: u64,
    pub samples: u32,
}

impl View for ModelThroughput {
    type V = ModelThroughputView;

    open spec fn view(&self) -> ModelThroughputView {
        ModelThroughputView {
            model_id: self.model_id@,
            tokens_per_second_bits: self.tokens_per_second_bits,
            avg_latency_ms: self.avg_latency_ms,
            samples: self.samples,
        }
    }
}

/// Views of a sequence of strings, element for element.
pub open spec fn deep_strings(s: Seq<String>) -> Seq<Seq<char>> {
    Seq::new(s.len(), |i: int| s[i]@)
}

/// Views of a sequence of [`ModelThroughput`] values, element for element.
pub open spec fn deep_throughputs(s: Seq<ModelThroughput>) -> Seq<ModelThroughputView> {
    Seq::new(s.len(), |i: int| s[i]@)
}

/// Mathematical shape of a [`NodeStatus`].
#[verifier::ext_equal]
pub ghost struct NodeStatusView {
    pub address: Seq<u8>,
    pub loaded_models: Seq<Seq<char>>,
    pub active_jobs: u32,
    pub max_concurrent_jobs: u32,
    pub vram_used_mb: u32,
    pub throughput: Seq<ModelThroughputView>,
    pub timestamp: u64,
}

/// Fast-changing liveness and load snapshot, keyed by address; logically
/// distinct from [`NodeProfile`] though sharing the same address.
#[derive(Debug, Clone)]
pub struct NodeStatus {
    pub address: Address,
    pub loaded_models: Vec<String>,
    pub active_jobs: u32,
    pub max_concurrent_jobs: u32,
    pub vram_used_mb: u32,
    pub throughput: Vec<ModelThroughput>,
    pub timestamp: u64,
}

impl View for NodeStatus {
    type V = NodeStatusView;

    open spec fn view(&self) -> NodeStatusView {
        NodeStatusView {
            address: self.address@,
            loaded_models: deep_strings(self.loaded_models@),
            active_jobs: self.active_jobs,
            max_concurrent_jobs: self.max_concurrent_jobs,
            vram_used_mb: self.vram_used_mb,
            throughput: deep_throughputs(self.throughput@),
            timestamp: self.timestamp,
        }
    }
}

/// Mathematical shape of an [`InferenceRequest`].
#[verifier::ext_equal]
pub ghost struct InferenceRequestView {
    pub request_id: Seq<char>,
    pub requester: Seq<u8>,
    pub model_id: Seq<char>,
    pub prompt: Seq<char>,
    pub max_tokens: u32,
    pub temperature_bits: u32,
    pub created_at: u64,
}

/// A request for inference work, keyed by the caller-chosen `request_id`.
/// `temperature_bits` holds the bit pattern of the 32-bit IEEE 754 sampling
/// temperature.
#[derive(Debug, Clone)]
pub struct InferenceRequest {
    pub request_id: String,
    pub requester: Address,
    pub model_id: String,
    pub prompt: String,
    pub max_tokens: u32,
    pub temperature_bits: u32,
    pub created_at: u64,
}

impl View for InferenceRequest {
    type V = InferenceRequestView;

    open spec fn view(&self) -> InferenceRequestView {
        InferenceRequestView {
            request_id: self.request_id@,
            requester: self.requester@,
            model_id: self.model_id@,
            prompt: self.prompt@,
            max_tokens: self.max_tokens,
            temperature_bits: self.temperature_bits,
            created_at: self.created_at,
        }
    }
}

/// A worker's answer to an inference request, carrying a detached signature
/// over the response contents for non-repudiation. Constructing and checking
/// that signature is a collaborator concern; the core store does not persist
/// this shape. `tokens_per_second_bits` holds the bit pattern of the 32-bit
/// IEEE 754 measurement.
#[derive(Debug, Clone)]
pub struct InferenceResponse {
    pub request_id: String,
    pub worker: Address,
    pub text: String,
    pub tokens_generated: u32,
    pub execution_time_ms: u64,
    pub tokens_per_second_bits: u32,
    pub signature: Vec<u8>,
}

/// Lifecycle tag for a request; a data shape only, no transition logic lives
/// in this core.
#[derive(Debug, Clone)]
pub enum RequestStatus {
    Pending,
    Assigned(Address),
    Running,
    Completed,
    Failed(String),
    Timeout,
}

/// Ranking input and output shape for worker selection; computing it is a
/// collaborator concern. The `_bits` fields hold bit patterns of 32-bit
/// IEEE 754 values.
#[derive(Debug, Clone)]
pub struct WorkerScore {
    pub address: Address,
    pub model_loaded: bool,
    pub estimated_wait_ms: u64,
    pub throughput_tps_bits: u32,
    pub queue_depth: u32,
    pub vram_available_mb: u32,
    pub score_bits: u32,
}

} // verus!
