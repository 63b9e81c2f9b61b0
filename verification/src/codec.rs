//! Serialization of the stored record shapes.
//!
//! Every record is encoded to a flat byte sequence: integers in fixed-width
//! little-endian form, strings as a byte length followed by their UTF-8
//! bytes, sequences as an element count followed by the elements, and
//! addresses as their raw 32 bytes. Decoding is exact: it accepts precisely
//! the encodings this module produces, rejects trailing bytes, and
//! round-trips every record field for field.

use vstd::prelude::*;
use vstd::bytes::*;
use vstd::slice::{slice_subrange, slice_to_vec};
use crate::types::{Address, deep_models, deep_strings, deep_throughputs, InferenceRequest,
    InferenceRequestView, ModelInfo, ModelInfoView, ModelThroughput, ModelThroughputView,
    NodeProfile, NodeProfileView, NodeStatus, NodeStatusView};
use vstd::utf8::{decode_utf8, encode_utf8, encode_utf8_decode_utf8, encode_utf8_valid_utf8,
    valid_utf8};

verus! {

// ---------------------------------------------------------------------------
// Encoding, as spec-level functions over the mathematical record shapes.
// ---------------------------------------------------------------------------

pub open spec fn enc_u32(x: u32) -> Seq<u8> {
    spec_u32_to_le_bytes(x)
}

pub open spec fn enc_u64(x: u64) -> Seq<u8> {
    spec_u64_to_le_bytes(x)
}

/// A string encodes as the length of its UTF-8 form, then that form itself.
pub open spec fn enc_str(s: Seq<char>) -> Seq<u8> {
    enc_u64(encode_utf8(s).len() as u64) + encode_utf8(s)
}

/// A string is encodable when the length of its UTF-8 form fits the length
/// field. Every string held in memory satisfies this.
pub open spec fn wf_str(s: Seq<char>) -> bool {
    encode_utf8(s).len() <= u64::MAX
}

// ---------------------------------------------------------------------------
// Decoding, as spec-level functions from a remaining byte sequence to the
// decoded value and the bytes left over.
// ---------------------------------------------------------------------------

pub open spec fn dec_u32(s: Seq<u8>) -> Option<(u32, Seq<u8>)> {
    if s.len() >= 4 {
        Some((spec_u32_from_le_bytes(s.take(4)), s.skip(4)))
    } else {
        None
    }
}

pub open spec fn dec_u64(s: Seq<u8>) -> Option<(u64, Seq<u8>)> {
    if s.len() >= 8 {
        Some((spec_u64_from_le_bytes(s.take(8)), s.skip(8)))
    } else {
        None
    }
}

pub open spec fn dec_raw(s: Seq<u8>, n: int) -> Option<(Seq<u8>, Seq<u8>)> {
    if 0 <= n <= s.len() {
        Some((s.take(n), s.skip(n)))
    } else {
        None
    }
}

pub open spec fn dec_str(s: Seq<u8>) -> Option<(Seq<char>, Seq<u8>)> {
    match dec_u64(s) {
        Some((n, r)) => {
            if n <= r.len() && valid_utf8(r.take(n as int)) {
                Some((decode_utf8(r.take(n as int)), r.skip(n as int)))
            } else {
                None
            }
        },
        None => None,
    }
}

// ---------------------------------------------------------------------------
// Round trips of the primitives: decoding an encoding yields the encoded
// value and leaves exactly the trailing bytes.
// ---------------------------------------------------------------------------

pub proof fn lemma_dec_enc_u32(x: u32, rest: Seq<u8>)
    ensures
        dec_u32(enc_u32(x) + rest) == Some((x, rest)),
{
    lemma_auto_spec_u32_to_from_le_bytes();
    assert((enc_u32(x) + rest).take(4) =~= enc_u32(x));
    assert((enc_u32(x) + rest).skip(4) =~= rest);
}

pub proof fn lemma_dec_enc_u64(x: u64, rest: Seq<u8>)
    ensures
        dec_u64(enc_u64(x) + rest) == Some((x, rest)),
{
    lemma_auto_spec_u64_to_from_le_bytes();
    assert((enc_u64(x) + rest).take(8) =~= enc_u64(x));
    assert((enc_u64(x) + rest).skip(8) =~= rest);
}

pub proof fn lemma_dec_enc_raw(b: Seq<u8>, rest: Seq<u8>)
    ensures
        dec_raw(b + rest, b.len() as int) == Some((b, rest)),
{
    assert((b + rest).take(b.len() as int) =~= b);
    assert((b + rest).skip(b.len() as int) =~= rest);
}

pub proof fn lemma_dec_enc_str(t: Seq<char>, rest: Seq<u8>)
    requires
        wf_str(t),
    ensures
        dec_str(enc_str(t) + rest) == Some((t, rest)),
{
    let eb = encode_utf8(t);
    let n = eb.len() as u64;
    assert(enc_str(t) + rest =~= enc_u64(n) + (eb + rest));
    lemma_dec_enc_u64(n, eb + rest);
    assert((eb + rest).take(n as int) =~= eb);
    assert((eb + rest).skip(n as int) =~= rest);
    encode_utf8_valid_utf8(t);
    encode_utf8_decode_utf8(t);
}

// ---------------------------------------------------------------------------
// Record shapes: encoding.
// ---------------------------------------------------------------------------

pub open spec fn enc_model_info(m: ModelInfoView) -> Seq<u8> {
    enc_str(m.model_id) + enc_u32(m.max_context_length) + enc_str(m.quantization)
}

pub open spec fn enc_model_infos(ms: Seq<ModelInfoView>) -> Seq<u8>
    decreases ms.len(),
{
    if ms.len() == 0 {
        Seq::empty()
    } else {
        enc_model_info(ms[0]) + enc_model_infos(ms.drop_first())
    }
}

pub open spec fn enc_strs(ss: Seq<Seq<char>>) -> Seq<u8>
    decreases ss.len(),
{
    if ss.len() == 0 {
        Seq::empty()
    } else {
        enc_str(ss[0]) + enc_strs(ss.drop_first())
    }
}

pub open spec fn enc_throughput(t: ModelThroughputView) -> Seq<u8> {
    enc_str(t.model_id) + enc_u32(t.tokens_per_second_bits) + enc_u64(t.avg_latency_ms)
        + enc_u32(t.samples)
}

pub open spec fn enc_throughputs(ts: Seq<ModelThroughputView>) -> Seq<u8>
    decreases ts.len(),
{
    if ts.len() == 0 {
        Seq::empty()
    } else {
        enc_throughput(ts[0]) + enc_throughputs(ts.drop_first())
    }
}

pub open spec fn enc_profile(p: NodeProfileView) -> Seq<u8> {
    p.address + enc_str(p.gpu_name) + enc_u32(p.vram_total_mb)
        + enc_u64(p.supported_models.len() as u64) + enc_model_infos(p.supported_models)
}

pub open spec fn enc_status(v: NodeStatusView) -> Seq<u8> {
    v.address + enc_u64(v.loaded_models.len() as u64) + enc_strs(v.loaded_models)
        + enc_u32(v.active_jobs) + enc_u32(v.max_concurrent_jobs) + enc_u32(v.vram_used_mb)
        + enc_u64(v.throughput.len() as u64) + enc_throughputs(v.throughput)
        + enc_u64(v.timestamp)
}

pub open spec fn enc_request(q: InferenceRequestView) -> Seq<u8> {
    enc_str(q.request_id) + q.requester + enc_str(q.model_id) + enc_str(q.prompt)
        + enc_u32(q.max_tokens) + enc_u32(q.temperature_bits) + enc_u64(q.created_at)
}

// ---------------------------------------------------------------------------
// Record shapes: well-formedness. Every record held in memory satisfies
// these; they only rule out values whose lengths overflow a length field.
// ---------------------------------------------------------------------------

pub open spec fn wf_model_info(m: ModelInfoView) -> bool {
    wf_str(m.model_id) && wf_str(m.quantization)
}

pub open spec fn wf_profile(p: NodeProfileView) -> bool {
    &&& p.address.len() == 32
    &&& wf_str(p.gpu_name)
    &&& p.supported_models.len() <= u64::MAX
    &&& forall|i: int|
        0 <= i < p.supported_models.len() ==> wf_model_info(#[trigger] p.supported_models[i])
}

pub open spec fn wf_throughput(t: ModelThroughputView) -> bool {
    wf_str(t.model_id)
}

pub open spec fn wf_status(v: NodeStatusView) -> bool {
    &&& v.address.len() == 32
    &&& v.loaded_models.len() <= u64::MAX
    &&& forall|i: int| 0 <= i < v.loaded_models.len() ==> wf_str(#[trigger] v.loaded_models[i])
    &&& v.throughput.len() <= u64::MAX
    &&& forall|i: int| 0 <= i < v.throughput.len() ==> wf_throughput(#[trigger] v.throughput[i])
}

pub open spec fn wf_request(q: InferenceRequestView) -> bool {
    &&& wf_str(q.request_id)
    &&& q.requester.len() == 32
    &&& wf_str(q.model_id)
    &&& wf_str(q.prompt)
}

// ---------------------------------------------------------------------------
// Record shapes: decoding.
// ---------------------------------------------------------------------------

pub open spec fn dec_model_info(s: Seq<u8>) -> Option<(ModelInfoView, Seq<u8>)> {
    match dec_str(s) {
        Some((model_id, s1)) => match dec_u32(s1) {
            Some((max_context_length, s2)) => match dec_str(s2) {
                Some((quantization, s3)) => Some(
                    (ModelInfoView { model_id, max_context_length, quantization }, s3),
                ),
                None => None,
            },
            None => None,
        },
        None => None,
    }
}

pub open spec fn dec_model_infos(s: Seq<u8>, n: nat) -> Option<(Seq<ModelInfoView>, Seq<u8>)>
    decreases n,
{
    if n == 0 {
        Some((Seq::empty(), s))
    } else {
        match dec_model_info(s) {
            Some((m, r)) => match dec_model_infos(r, (n - 1) as nat) {
                Some((ms, r2)) => Some((seq![m] + ms, r2)),
                None => None,
            },
            None => None,
        }
    }
}

pub open spec fn dec_strs(s: Seq<u8>, n: nat) -> Option<(Seq<Seq<char>>, Seq<u8>)>
    decreases n,
{
    if n == 0 {
        Some((Seq::empty(), s))
    } else {
        match dec_str(s) {
            Some((t, r)) => match dec_strs(r, (n - 1) as nat) {
                Some((ts, r2)) => Some((seq![t] + ts, r2)),
                None => None,
            },
            None => None,
        }
    }
}

pub open spec fn dec_throughput(s: Seq<u8>) -> Option<(ModelThroughputView, Seq<u8>)> {
    match dec_str(s) {
        Some((model_id, s1)) => match dec_u32(s1) {
            Some((tokens_per_second_bits, s2)) => match dec_u64(s2) {
                Some((avg_latency_ms, s3)) => match dec_u32(s3) {
                    Some((samples, s4)) => Some(
                        (
                            ModelThroughputView {
                                model_id,
                                tokens_per_second_bits,
                                avg_latency_ms,
                                samples,
                            },
                            s4,
                        ),
                    ),
                    None => None,
                },
                None => None,
            },
            None => None,
        },
        None => None,
    }
}

pub open spec fn dec_throughputs(s: Seq<u8>, n: nat) -> Option<(Seq<ModelThroughputView>, Seq<u8>)>
    decreases n,
{
    if n == 0 {
        Some((Seq::empty(), s))
    } else {
        match dec_throughput(s) {
            Some((t, r)) => match dec_throughputs(r, (n - 1) as nat) {
                Some((ts, r2)) => Some((seq![t] + ts, r2)),
                None => None,
            },
            None => None,
        }
    }
}

pub open spec fn dec_profile_prefix(s: Seq<u8>) -> Option<(NodeProfileView, Seq<u8>)> {
    match dec_raw(s, 32) {
        Some((address, s1)) => match dec_str(s1) {
            Some((gpu_name, s2)) => match dec_u32(s2) {
                Some((vram_total_mb, s3)) => match dec_u64(s3) {
                    Some((n, s4)) => match dec_model_infos(s4, n as nat) {
                        Some((supported_models, s5)) => Some(
                            (
                                NodeProfileView {
                                    address,
                                    gpu_name,
                                    vram_total_mb,
                                    supported_models,
                                },
                                s5,
                            ),
                        ),
                        None => None,
                    },
                    None => None,
                },
                None => None,
            },
            None => None,
        },
        None => None,
    }
}

/// The byte sequences that decode as a profile are exactly the encodings of
/// profiles, with nothing following.
pub open spec fn spec_dec_profile(s: Seq<u8>) -> Option<NodeProfileView> {
    match dec_profile_prefix(s) {
        Some((p, rest)) => if rest.len() == 0 {
            Some(p)
        } else {
            None
        },
        None => None,
    }
}

pub open spec fn dec_status_prefix(s: Seq<u8>) -> Option<(NodeStatusView, Seq<u8>)> {
    match dec_raw(s, 32) {
        Some((address, s1)) => match dec_u64(s1) {
            Some((nl, s2)) => match dec_strs(s2, nl as nat) {
                Some((loaded_models, s3)) => match dec_u32(s3) {
                    Some((active_jobs, s4)) => match dec_u32(s4) {
                        Some((max_concurrent_jobs, s5)) => match dec_u32(s5) {
                            Some((vram_used_mb, s6)) => match dec_u64(s6) {
                                Some((nt, s7)) => match dec_throughputs(s7, nt as nat) {
                                    Some((throughput, s8)) => match dec_u64(s8) {
                                        Some((timestamp, s9)) => Some(
                                            (
                                                NodeStatusView {
                                                    address,
                                                    loaded_models,
                                                    active_jobs,
                                                    max_concurrent_jobs,
                                                    vram_used_mb,
                                                    throughput,
                                                    timestamp,
                                                },
                                                s9,
                                            ),
                                        ),
                                        None => None,
                                    },
                                    None => None,
                                },
                                None => None,
                            },
                            None => None,
                        },
                        None => None,
                    },
                    None => None,
                },
                None => None,
            },
            None => None,
        },
        None => None,
    }
}

pub open spec fn spec_dec_status(s: Seq<u8>) -> Option<NodeStatusView> {
    match dec_status_prefix(s) {
        Some((v, rest)) => if rest.len() == 0 {
            Some(v)
        } else {
            None
        },
        None => None,
    }
}

pub open spec fn dec_request_prefix(s: Seq<u8>) -> Option<(InferenceRequestView, Seq<u8>)> {
    match dec_str(s) {
        Some((request_id, s1)) => match dec_raw(s1, 32) {
            Some((requester, s2)) => match dec_str(s2) {
                Some((model_id, s3)) => match dec_str(s3) {
                    Some((prompt, s4)) => match dec_u32(s4) {
                        Some((max_tokens, s5)) => match dec_u32(s5) {
                            Some((temperature_bits, s6)) => match dec_u64(s6) {
                                Some((created_at, s7)) => Some(
                                    (
                                        InferenceRequestView {
                                            request_id,
                                            requester,
                                            model_id,
                                            prompt,
                                            max_tokens,
                                            temperature_bits,
                                            created_at,
                                        },
                                        s7,
                                    ),
                                ),
                                None => None,
                            },
                            None => None,
                        },
                        None => None,
                    },
                    None => None,
                },
                None => None,
            },
            None => None,
        },
        None => None,
    }
}

pub open spec fn spec_dec_request(s: Seq<u8>) -> Option<InferenceRequestView> {
    match dec_request_prefix(s) {
        Some((q, rest)) => if rest.len() == 0 {
            Some(q)
        } else {
            None
        },
        None => None,
    }
}

// ---------------------------------------------------------------------------
// Round trips of the record shapes: decoding an encoding yields the encoded
// record, field for field.
// ---------------------------------------------------------------------------

pub proof fn lemma_dec_enc_model_info(m: ModelInfoView, rest: Seq<u8>)
    requires
        wf_model_info(m),
    ensures
        dec_model_info(enc_model_info(m) + rest) == Some((m, rest)),
{
    let e2 = enc_u32(m.max_context_length);
    let e3 = enc_str(m.quantization);
    assert(enc_model_info(m) + rest =~= enc_str(m.model_id) + (e2 + (e3 + rest)));
    lemma_dec_enc_str(m.model_id, e2 + (e3 + rest));
    lemma_dec_enc_u32(m.max_context_length, e3 + rest);
    lemma_dec_enc_str(m.quantization, rest);
}

pub proof fn lemma_dec_enc_model_infos(ms: Seq<ModelInfoView>, rest: Seq<u8>)
    requires
        forall|i: int| 0 <= i < ms.len() ==> wf_model_info(#[trigger] ms[i]),
    ensures
        dec_model_infos(enc_model_infos(ms) + rest, ms.len()) == Some((ms, rest)),
    decreases ms.len(),
{
    if ms.len() == 0 {
        assert(enc_model_infos(ms) + rest =~= rest);
        assert(Seq::<ModelInfoView>::empty() =~= ms);
    } else {
        let tail = ms.drop_first();
        assert(enc_model_infos(ms) + rest =~= enc_model_info(ms[0]) + (enc_model_infos(tail)
            + rest));
        lemma_dec_enc_model_info(ms[0], enc_model_infos(tail) + rest);
        lemma_dec_enc_model_infos(tail, rest);
        assert(seq![ms[0]] + tail =~= ms);
    }
}

pub proof fn lemma_dec_enc_strs(ss: Seq<Seq<char>>, rest: Seq<u8>)
    requires
        forall|i: int| 0 <= i < ss.len() ==> wf_str(#[trigger] ss[i]),
    ensures
        dec_strs(enc_strs(ss) + rest, ss.len()) == Some((ss, rest)),
    decreases ss.len(),
{
    if ss.len() == 0 {
        assert(enc_strs(ss) + rest =~= rest);
        assert(Seq::<Seq<char>>::empty() =~= ss);
    } else {
        let tail = ss.drop_first();
        assert(enc_strs(ss) + rest =~= enc_str(ss[0]) + (enc_strs(tail) + rest));
        lemma_dec_enc_str(ss[0], enc_strs(tail) + rest);
        lemma_dec_enc_strs(tail, rest);
        assert(seq![ss[0]] + tail =~= ss);
    }
}

pub proof fn lemma_dec_enc_throughput(t: ModelThroughputView, rest: Seq<u8>)
    requires
        wf_throughput(t),
    ensures
        dec_throughput(enc_throughput(t) + rest) == Some((t, rest)),
{
    let e2 = enc_u32(t.tokens_per_second_bits);
    let e3 = enc_u64(t.avg_latency_ms);
    let e4 = enc_u32(t.samples);
    assert(enc_throughput(t) + rest =~= enc_str(t.model_id) + (e2 + (e3 + (e4 + rest))));
    lemma_dec_enc_str(t.model_id, e2 + (e3 + (e4 + rest)));
    lemma_dec_enc_u32(t.tokens_per_second_bits, e3 + (e4 + rest));
    lemma_dec_enc_u64(t.avg_latency_ms, e4 + rest);
    lemma_dec_enc_u32(t.samples, rest);
}

pub proof fn lemma_dec_enc_throughputs(ts: Seq<ModelThroughputView>, rest: Seq<u8>)
    requires
        forall|i: int| 0 <= i < ts.len() ==> wf_throughput(#[trigger] ts[i]),
    ensures
        dec_throughputs(enc_throughputs(ts) + rest, ts.len()) == Some((ts, rest)),
    decreases ts.len(),
{
    if ts.len() == 0 {
        assert(enc_throughputs(ts) + rest =~= rest);
        assert(Seq::<ModelThroughputView>::empty() =~= ts);
    } else {
        let tail = ts.drop_first();
        assert(enc_throughputs(ts) + rest =~= enc_throughput(ts[0]) + (enc_throughputs(tail)
            + rest));
        lemma_dec_enc_throughput(ts[0], enc_throughputs(tail) + rest);
        lemma_dec_enc_throughputs(tail, rest);
        assert(seq![ts[0]] + tail =~= ts);
    }
}

/// Round trip for profiles: decoding the encoding of any well-formed profile
/// record yields that record, every field intact.
pub proof fn lemma_profile_round_trip(p: NodeProfileView)
    requires
        wf_profile(p),
    ensures
        spec_dec_profile(enc_profile(p)) == Some(p),
{
    let n = p.supported_models.len() as u64;
    let e2 = enc_str(p.gpu_name);
    let e3 = enc_u32(p.vram_total_mb);
    let e4 = enc_u64(n);
    let e5 = enc_model_infos(p.supported_models);
    let empty = Seq::<u8>::empty();
    assert(enc_profile(p) =~= p.address + (e2 + (e3 + (e4 + e5))));
    lemma_dec_enc_raw(p.address, e2 + (e3 + (e4 + e5)));
    lemma_dec_enc_str(p.gpu_name, e3 + (e4 + e5));
    lemma_dec_enc_u32(p.vram_total_mb, e4 + e5);
    lemma_dec_enc_u64(n, e5);
    lemma_dec_enc_model_infos(p.supported_models, empty);
    assert(e5 + empty =~= e5);
}

/// Round trip for status records.
pub proof fn lemma_status_round_trip(v: NodeStatusView)
    requires
        wf_status(v),
    ensures
        spec_dec_status(enc_status(v)) == Some(v),
{
    let nl = v.loaded_models.len() as u64;
    let nt = v.throughput.len() as u64;
    let e2 = enc_u64(nl);
    let e3 = enc_strs(v.loaded_models);
    let e4 = enc_u32(v.active_jobs);
    let e5 = enc_u32(v.max_concurrent_jobs);
    let e6 = enc_u32(v.vram_used_mb);
    let e7 = enc_u64(nt);
    let e8 = enc_throughputs(v.throughput);
    let e9 = enc_u64(v.timestamp);
    let empty = Seq::<u8>::empty();
    assert(enc_status(v) =~= v.address + (e2 + (e3 + (e4 + (e5 + (e6 + (e7 + (e8 + e9))))))));
    lemma_dec_enc_raw(v.address, e2 + (e3 + (e4 + (e5 + (e6 + (e7 + (e8 + e9)))))));
    lemma_dec_enc_u64(nl, e3 + (e4 + (e5 + (e6 + (e7 + (e8 + e9))))));
    lemma_dec_enc_strs(v.loaded_models, e4 + (e5 + (e6 + (e7 + (e8 + e9)))));
    lemma_dec_enc_u32(v.active_jobs, e5 + (e6 + (e7 + (e8 + e9))));
    lemma_dec_enc_u32(v.max_concurrent_jobs, e6 + (e7 + (e8 + e9)));
    lemma_dec_enc_u32(v.vram_used_mb, e7 + (e8 + e9));
    lemma_dec_enc_u64(nt, e8 + e9);
    lemma_dec_enc_throughputs(v.throughput, e9);
    lemma_dec_enc_u64(v.timestamp, empty);
    assert(e9 + empty =~= e9);
}

/// Round trip for request records.
pub proof fn lemma_request_round_trip(q: InferenceRequestView)
    requires
        wf_request(q),
    ensures
        spec_dec_request(enc_request(q)) == Some(q),
{
    let e2 = q.requester;
    let e3 = enc_str(q.model_id);
    let e4 = enc_str(q.prompt);
    let e5 = enc_u32(q.max_tokens);
    let e6 = enc_u32(q.temperature_bits);
    let e7 = enc_u64(q.created_at);
    let empty = Seq::<u8>::empty();
    assert(enc_request(q) =~= enc_str(q.request_id) + (e2 + (e3 + (e4 + (e5 + (e6 + e7))))));
    lemma_dec_enc_str(q.request_id, e2 + (e3 + (e4 + (e5 + (e6 + e7)))));
    lemma_dec_enc_raw(q.requester, e3 + (e4 + (e5 + (e6 + e7))));
    lemma_dec_enc_str(q.model_id, e4 + (e5 + (e6 + e7)));
    lemma_dec_enc_str(q.prompt, e5 + (e6 + e7));
    lemma_dec_enc_u32(q.max_tokens, e6 + e7);
    lemma_dec_enc_u32(q.temperature_bits, e7);
    lemma_dec_enc_u64(q.created_at, empty);
    assert(e7 + empty =~= e7);
}

// ---------------------------------------------------------------------------
// Appending one element's encoding extends a sequence encoding at its end.
// ---------------------------------------------------------------------------

proof fn lemma_enc_model_infos_push(ms: Seq<ModelInfoView>, m: ModelInfoView)
    ensures
        enc_model_infos(ms.push(m)) == enc_model_infos(ms) + enc_model_info(m),
    decreases ms.len(),
{
    if ms.len() == 0 {
        reveal_with_fuel(enc_model_infos, 3);
        assert(ms.push(m)[0] == m);
        assert(ms.push(m).drop_first() =~= Seq::<ModelInfoView>::empty());
        assert(enc_model_infos(ms.push(m)) =~= enc_model_infos(ms) + enc_model_info(m));
    } else {
        assert(ms.push(m)[0] == ms[0]);
        assert(ms.push(m).drop_first() =~= ms.drop_first().push(m));
        lemma_enc_model_infos_push(ms.drop_first(), m);
        assert(enc_model_infos(ms.push(m)) =~= enc_model_infos(ms) + enc_model_info(m));
    }
}

proof fn lemma_enc_strs_push(ss: Seq<Seq<char>>, t: Seq<char>)
    ensures
        enc_strs(ss.push(t)) == enc_strs(ss) + enc_str(t),
    decreases ss.len(),
{
    if ss.len() == 0 {
        reveal_with_fuel(enc_strs, 3);
        assert(ss.push(t)[0] == t);
        assert(ss.push(t).drop_first() =~= Seq::<Seq<char>>::empty());
        assert(enc_strs(ss.push(t)) =~= enc_strs(ss) + enc_str(t));
    } else {
        assert(ss.push(t)[0] == ss[0]);
        assert(ss.push(t).drop_first() =~= ss.drop_first().push(t));
        lemma_enc_strs_push(ss.drop_first(), t);
        assert(enc_strs(ss.push(t)) =~= enc_strs(ss) + enc_str(t));
    }
}

proof fn lemma_enc_throughputs_push(ts: Seq<ModelThroughputView>, t: ModelThroughputView)
    ensures
        enc_throughputs(ts.push(t)) == enc_throughputs(ts) + enc_throughput(t),
    decreases ts.len(),
{
    if ts.len() == 0 {
        reveal_with_fuel(enc_throughputs, 3);
        assert(ts.push(t)[0] == t);
        assert(ts.push(t).drop_first() =~= Seq::<ModelThroughputView>::empty());
        assert(enc_throughputs(ts.push(t)) =~= enc_throughputs(ts) + enc_throughput(t));
    } else {
        assert(ts.push(t)[0] == ts[0]);
        assert(ts.push(t).drop_first() =~= ts.drop_first().push(t));
        lemma_enc_throughputs_push(ts.drop_first(), t);
        assert(enc_throughputs(ts.push(t)) =~= enc_throughputs(ts) + enc_throughput(t));
    }
}

// ---------------------------------------------------------------------------
// Encoders.
// ---------------------------------------------------------------------------

fn write_u32(out: &mut Vec<u8>, x: u32)
    ensures
        final(out)@ == old(out)@ + enc_u32(x),
{
    let mut le = u32_to_le_bytes(x);
    out.append(&mut le);
}

fn write_u64(out: &mut Vec<u8>, x: u64)
    ensures
        final(out)@ == old(out)@ + enc_u64(x),
{
    let mut le = u64_to_le_bytes(x);
    out.append(&mut le);
}

fn write_str(out: &mut Vec<u8>, s: &str)
    ensures
        final(out)@ == old(out)@ + enc_str(s@),
        wf_str(s@),
{
    let b = s.as_bytes();
    write_u64(out, b.len() as u64);
    out.extend_from_slice(b);
    proof {
        assert(out@ =~= old(out)@ + enc_str(s@));
    }
}

fn write_model_info(out: &mut Vec<u8>, m: &ModelInfo)
    ensures
        final(out)@ == old(out)@ + enc_model_info(m@),
        wf_model_info(m@),
{
    write_str(out, m.model_id.as_str());
    write_u32(out, m.max_context_length);
    write_str(out, m.quantization.as_str());
    proof {
        assert(out@ =~= old(out)@ + enc_model_info(m@));
    }
}

fn write_model_infos(out: &mut Vec<u8>, ms: &Vec<ModelInfo>)
    ensures
        final(out)@ == old(out)@ + enc_model_infos(deep_models(ms@)),
        forall|j: int| 0 <= j < ms@.len() ==> wf_model_info(#[trigger] deep_models(ms@)[j]),
{
    let ghost base = out@;
    let mut i: usize = 0;
    while i < ms.len()
        invariant
            i <= ms.len(),
            out@ == base + enc_model_infos(deep_models(ms@).take(i as int)),
            forall|j: int| 0 <= j < i ==> wf_model_info(#[trigger] deep_models(ms@)[j]),
        decreases ms.len() - i,
    {
        write_model_info(out, &ms[i]);
        proof {
            assert(deep_models(ms@).take(i + 1 as int) =~= deep_models(ms@).take(
                i as int,
            ).push(ms@[i as int]@));
            lemma_enc_model_infos_push(deep_models(ms@).take(i as int), ms@[i as int]@);
            assert(base + enc_model_infos(deep_models(ms@).take(i as int)) + enc_model_info(
                ms@[i as int]@,
            ) =~= base + enc_model_infos(deep_models(ms@).take(i + 1 as int)));
        }
        i = i + 1;
    }
    proof {
        assert(deep_models(ms@).take(ms@.len() as int) =~= deep_models(ms@));
    }
}

fn write_strs(out: &mut Vec<u8>, ss: &Vec<String>)
    ensures
        final(out)@ == old(out)@ + enc_strs(deep_strings(ss@)),
        forall|j: int| 0 <= j < ss@.len() ==> wf_str(#[trigger] deep_strings(ss@)[j]),
{
    let ghost base = out@;
    let mut i: usize = 0;
    while i < ss.len()
        invariant
            i <= ss.len(),
            out@ == base + enc_strs(deep_strings(ss@).take(i as int)),
            forall|j: int| 0 <= j < i ==> wf_str(#[trigger] deep_strings(ss@)[j]),
        decreases ss.len() - i,
    {
        write_str(out, ss[i].as_str());
        proof {
            assert(deep_strings(ss@).take(i + 1 as int) =~= deep_strings(ss@).take(
                i as int,
            ).push(ss@[i as int]@));
            lemma_enc_strs_push(deep_strings(ss@).take(i as int), ss@[i as int]@);
            assert(base + enc_strs(deep_strings(ss@).take(i as int)) + enc_str(ss@[i as int]@)
                =~= base + enc_strs(deep_strings(ss@).take(i + 1 as int)));
        }
        i = i + 1;
    }
    proof {
        assert(deep_strings(ss@).take(ss@.len() as int) =~= deep_strings(ss@));
    }
}

fn write_throughput(out: &mut Vec<u8>, t: &ModelThroughput)
    ensures
        final(out)@ == old(out)@ + enc_throughput(t@),
        wf_throughput(t@),
{
    write_str(out, t.model_id.as_str());
    write_u32(out, t.tokens_per_second_bits);
    write_u64(out, t.avg_latency_ms);
    write_u32(out, t.samples);
    proof {
        assert(out@ =~= old(out)@ + enc_throughput(t@));
    }
}

fn write_throughputs(out: &mut Vec<u8>, ts: &Vec<ModelThroughput>)
    ensures
        final(out)@ == old(out)@ + enc_throughputs(deep_throughputs(ts@)),
        forall|j: int| 0 <= j < ts@.len() ==> wf_throughput(#[trigger] deep_throughputs(ts@)[j]),
{
    let ghost base = out@;
    let mut i: usize = 0;
    while i < ts.len()
        invariant
            i <= ts.len(),
            out@ == base + enc_throughputs(deep_throughputs(ts@).take(i as int)),
            forall|j: int| 0 <= j < i ==> wf_throughput(#[trigger] deep_throughputs(ts@)[j]),
        decreases ts.len() - i,
    {
        write_throughput(out, &ts[i]);
        proof {
            assert(deep_throughputs(ts@).take(i + 1 as int) =~= deep_throughputs(ts@).take(
                i as int,
            ).push(ts@[i as int]@));
            lemma_enc_throughputs_push(deep_throughputs(ts@).take(i as int), ts@[i as int]@);
            assert(base + enc_throughputs(deep_throughputs(ts@).take(i as int))
                + enc_throughput(ts@[i as int]@) =~= base + enc_throughputs(
                deep_throughputs(ts@).take(i + 1 as int),
            ));
        }
        i = i + 1;
    }
    proof {
        assert(deep_throughputs(ts@).take(ts@.len() as int) =~= deep_throughputs(ts@));
    }
}

/// Encode a profile record to its stored byte form.
pub fn encode_profile(p: &NodeProfile) -> (r: Vec<u8>)
    ensures
        r@ == enc_profile(p@),
        wf_profile(p@),
{
    let mut out: Vec<u8> = Vec::new();
    out.extend_from_slice(p.address.as_bytes().as_slice());
    write_str(&mut out, p.gpu_name.as_str());
    write_u32(&mut out, p.vram_total_mb);
    write_u64(&mut out, p.supported_models.len() as u64);
    write_model_infos(&mut out, &p.supported_models);
    proof {
        assert(out@ =~= enc_profile(p@));
    }
    out
}

/// Encode a status record to its stored byte form.
pub fn encode_status(v: &NodeStatus) -> (r: Vec<u8>)
    ensures
        r@ == enc_status(v@),
        wf_status(v@),
{
    let mut out: Vec<u8> = Vec::new();
    out.extend_from_slice(v.address.as_bytes().as_slice());
    write_u64(&mut out, v.loaded_models.len() as u64);
    write_strs(&mut out, &v.loaded_models);
    write_u32(&mut out, v.active_jobs);
    write_u32(&mut out, v.max_concurrent_jobs);
    write_u32(&mut out, v.vram_used_mb);
    write_u64(&mut out, v.throughput.len() as u64);
    write_throughputs(&mut out, &v.throughput);
    write_u64(&mut out, v.timestamp);
    proof {
        assert(out@ =~= enc_status(v@));
    }
    out
}

/// Encode a request record to its stored byte form.
pub fn encode_request(q: &InferenceRequest) -> (r: Vec<u8>)
    ensures
        r@ == enc_request(q@),
        wf_request(q@),
{
    let mut out: Vec<u8> = Vec::new();
    write_str(&mut out, q.request_id.as_str());
    out.extend_from_slice(q.requester.as_bytes().as_slice());
    write_str(&mut out, q.model_id.as_str());
    write_str(&mut out, q.prompt.as_str());
    write_u32(&mut out, q.max_tokens);
    write_u32(&mut out, q.temperature_bits);
    write_u64(&mut out, q.created_at);
    proof {
        assert(out@ =~= enc_request(q@));
    }
    out
}

// ---------------------------------------------------------------------------
// Decoders. Each reads at a byte offset into the input and returns the
// decoded value with the offset just past it, exactly as the spec-level
// decoder does on the remaining bytes.
// ---------------------------------------------------------------------------

/// Relies on String::from_utf8: succeeds exactly on valid UTF-8 and decodes
/// it to the character sequence those bytes encode.
#[verifier::external_body]
pub(crate) fn string_from_utf8(v: Vec<u8>) -> (r: Option<String>)
    ensures
        r is Some <==> valid_utf8(v@),
        r matches Some(s) ==> s@ == decode_utf8(v@),
{
    String::from_utf8(v).ok()
}

fn bytes32_from_slice(v: &[u8]) -> (r: [u8; 32])
    requires
        v@.len() == 32,
    ensures
        r@ == v@,
{
    let mut arr = [0u8; 32];
    let mut i: usize = 0;
    while i < 32
        invariant
            i <= 32,
            v@.len() == 32,
            forall|j: int| 0 <= j < i ==> arr@[j] == v@[j],
        decreases 32 - i,
    {
        arr[i] = *vstd::slice::slice_index_get(v, i);
        i = i + 1;
    }
    proof {
        assert(arr@ =~= v@);
    }
    arr
}

fn read_u32(bytes: &[u8], pos: usize) -> (r: Option<(u32, usize)>)
    requires
        pos <= bytes@.len(),
    ensures
        match r {
            Some(v) => v.1 <= bytes@.len() && dec_u32(bytes@.skip(pos as int)) == Some(
                (v.0, bytes@.skip(v.1 as int)),
            ),
            None => dec_u32(bytes@.skip(pos as int)) is None,
        },
{
    if bytes.len() - pos >= 4 {
        let sl = slice_subrange(bytes, pos, pos + 4);
        let x = u32_from_le_bytes(sl);
        proof {
            assert(bytes@.skip(pos as int).take(4) =~= bytes@.subrange(
                pos as int,
                pos as int + 4,
            ));
            assert(bytes@.skip(pos as int).skip(4) =~= bytes@.skip(pos as int + 4));
        }
        Some((x, pos + 4))
    } else {
        None
    }
}

fn read_u64(bytes: &[u8], pos: usize) -> (r: Option<(u64, usize)>)
    requires
        pos <= bytes@.len(),
    ensures
        match r {
            Some(v) => v.1 <= bytes@.len() && dec_u64(bytes@.skip(pos as int)) == Some(
                (v.0, bytes@.skip(v.1 as int)),
            ),
            None => dec_u64(bytes@.skip(pos as int)) is None,
        },
{
    if bytes.len() - pos >= 8 {
        let sl = slice_subrange(bytes, pos, pos + 8);
        let x = u64_from_le_bytes(sl);
        proof {
            assert(bytes@.skip(pos as int).take(8) =~= bytes@.subrange(
                pos as int,
                pos as int + 8,
            ));
            assert(bytes@.skip(pos as int).skip(8) =~= bytes@.skip(pos as int + 8));
        }
        Some((x, pos + 8))
    } else {
        None
    }
}

fn read_raw(bytes: &[u8], pos: usize, n: usize) -> (r: Option<(Vec<u8>, usize)>)
    requires
        pos <= bytes@.len(),
    ensures
        match r {
            Some(v) => v.1 <= bytes@.len() && dec_raw(bytes@.skip(pos as int), n as int) == Some(
                (v.0@, bytes@.skip(v.1 as int)),
            ),
            None => dec_raw(bytes@.skip(pos as int), n as int) is None,
        },
{
    if n <= bytes.len() - pos {
        let sl = slice_subrange(bytes, pos, pos + n);
        let v = slice_to_vec(sl);
        proof {
            assert(bytes@.skip(pos as int).take(n as int) =~= bytes@.subrange(
                pos as int,
                pos as int + n,
            ));
            assert(bytes@.skip(pos as int).skip(n as int) =~= bytes@.skip(pos as int + n));
        }
        Some((v, pos + n))
    } else {
        None
    }
}

fn read_string(bytes: &[u8], pos: usize) -> (r: Option<(String, usize)>)
    requires
        pos <= bytes@.len(),
    ensures
        match r {
            Some(v) => v.1 <= bytes@.len() && dec_str(bytes@.skip(pos as int)) == Some(
                (v.0@, bytes@.skip(v.1 as int)),
            ),
            None => dec_str(bytes@.skip(pos as int)) is None,
        },
{
    let (n, p1) = match read_u64(bytes, pos) {
        Some(v) => v,
        None => {
            return None;
        },
    };
    proof {
        assert(bytes@.skip(p1 as int).len() == bytes@.len() - p1);
    }
    if n > (bytes.len() - p1) as u64 {
        return None;
    }
    let (vb, p2) = match read_raw(bytes, p1, n as usize) {
        Some(v) => v,
        None => {
            proof {
                assert(false);
            }
            return None;
        },
    };
    match string_from_utf8(vb) {
        Some(s) => Some((s, p2)),
        None => None,
    }
}

fn read_model_info(bytes: &[u8], pos: usize) -> (r: Option<(ModelInfo, usize)>)
    requires
        pos <= bytes@.len(),
    ensures
        match r {
            Some(v) => v.1 <= bytes@.len() && dec_model_info(bytes@.skip(pos as int)) == Some(
                (v.0@, bytes@.skip(v.1 as int)),
            ),
            None => dec_model_info(bytes@.skip(pos as int)) is None,
        },
{
    let (model_id, p1) = match read_string(bytes, pos) {
        Some(v) => v,
        None => {
            return None;
        },
    };
    let (max_context_length, p2) = match read_u32(bytes, p1) {
        Some(v) => v,
        None => {
            return None;
        },
    };
    let (quantization, p3) = match read_string(bytes, p2) {
        Some(v) => v,
        None => {
            return None;
        },
    };
    let m = ModelInfo { model_id, max_context_length, quantization };
    proof {
        assert(dec_model_info(bytes@.skip(pos as int)) == Some((m@, bytes@.skip(p3 as int))));
    }
    Some((m, p3))
}

fn read_throughput(bytes: &[u8], pos: usize) -> (r: Option<(ModelThroughput, usize)>)
    requires
        pos <= bytes@.len(),
    ensures
        match r {
            Some(v) => v.1 <= bytes@.len() && dec_throughput(bytes@.skip(pos as int)) == Some(
                (v.0@, bytes@.skip(v.1 as int)),
            ),
            None => dec_throughput(bytes@.skip(pos as int)) is None,
        },
{
    let (model_id, p1) = match read_string(bytes, pos) {
        Some(v) => v,
        None => {
            return None;
        },
    };
    let (tokens_per_second_bits, p2) = match read_u32(bytes, p1) {
        Some(v) => v,
        None => {
            return None;
        },
    };
    let (avg_latency_ms, p3) = match read_u64(bytes, p2) {
        Some(v) => v,
        None => {
            return None;
        },
    };
    let (samples, p4) = match read_u32(bytes, p3) {
        Some(v) => v,
        None => {
            return None;
        },
    };
    let t = ModelThroughput { model_id, tokens_per_second_bits, avg_latency_ms, samples };
    proof {
        assert(dec_throughput(bytes@.skip(pos as int)) == Some((t@, bytes@.skip(p4 as int))));
    }
    Some((t, p4))
}

fn read_model_infos(bytes: &[u8], pos: usize, n: u64) -> (r: Option<(Vec<ModelInfo>, usize)>)
    requires
        pos <= bytes@.len(),
    ensures
        match r {
            Some(v) => v.1 <= bytes@.len() && dec_model_infos(bytes@.skip(pos as int), n as nat)
                == Some((deep_models(v.0@), bytes@.skip(v.1 as int))),
            None => dec_model_infos(bytes@.skip(pos as int), n as nat) is None,
        },
{
    let mut acc: Vec<ModelInfo> = Vec::new();
    let mut p = pos;
    let mut k: u64 = 0;
    while k < n
        invariant
            pos <= p <= bytes@.len(),
            k <= n,
            dec_model_infos(bytes@.skip(pos as int), n as nat) == (match dec_model_infos(
                bytes@.skip(p as int),
                (n - k) as nat,
            ) {
                Some((ms, rem)) => Some((deep_models(acc@) + ms, rem)),
                None => None::<(Seq<ModelInfoView>, Seq<u8>)>,
            }),
        decreases n - k,
    {
        match read_model_info(bytes, p) {
            None => {
                return None;
            },
            Some((m, p2)) => {
                proof {
                    let rem_k = (n - k) as nat;
                    let nxt = bytes@.skip(p2 as int);
                    match dec_model_infos(nxt, (rem_k - 1) as nat) {
                        Some((ms2, r2)) => {
                            assert(dec_model_infos(bytes@.skip(p as int), rem_k) == Some(
                                (seq![m@] + ms2, r2),
                            ));
                            assert(deep_models(acc@.push(m)) =~= deep_models(acc@).push(m@));
                            assert(deep_models(acc@) + (seq![m@] + ms2) =~= deep_models(
                                acc@.push(m),
                            ) + ms2);
                        },
                        None => {
                            assert(dec_model_infos(bytes@.skip(p as int), rem_k) is None);
                        },
                    }
                }
                acc.push(m);
                p = p2;
                k = k + 1;
            },
        }
    }
    proof {
        assert(deep_models(acc@) + Seq::<ModelInfoView>::empty() =~= deep_models(acc@));
    }
    Some((acc, p))
}

fn read_strs(bytes: &[u8], pos: usize, n: u64) -> (r: Option<(Vec<String>, usize)>)
    requires
        pos <= bytes@.len(),
    ensures
        match r {
            Some(v) => v.1 <= bytes@.len() && dec_strs(bytes@.skip(pos as int), n as nat) == Some(
                (deep_strings(v.0@), bytes@.skip(v.1 as int)),
            ),
            None => dec_strs(bytes@.skip(pos as int), n as nat) is None,
        },
{
    let mut acc: Vec<String> = Vec::new();
    let mut p = pos;
    let mut k: u64 = 0;
    while k < n
        invariant
            pos <= p <= bytes@.len(),
            k <= n,
            dec_strs(bytes@.skip(pos as int), n as nat) == (match dec_strs(
                bytes@.skip(p as int),
                (n - k) as nat,
            ) {
                Some((ts, rem)) => Some((deep_strings(acc@) + ts, rem)),
                None => None::<(Seq<Seq<char>>, Seq<u8>)>,
            }),
        decreases n - k,
    {
        match read_string(bytes, p) {
            None => {
                return None;
            },
            Some((t, p2)) => {
                proof {
                    let rem_k = (n - k) as nat;
                    let nxt = bytes@.skip(p2 as int);
                    match dec_strs(nxt, (rem_k - 1) as nat) {
                        Some((ts2, r2)) => {
                            assert(dec_strs(bytes@.skip(p as int), rem_k) == Some(
                                (seq![t@] + ts2, r2),
                            ));
                            assert(deep_strings(acc@.push(t)) =~= deep_strings(acc@).push(t@));
                            assert(deep_strings(acc@) + (seq![t@] + ts2) =~= deep_strings(
                                acc@.push(t),
                            ) + ts2);
                        },
                        None => {
                            assert(dec_strs(bytes@.skip(p as int), rem_k) is None);
                        },
                    }
                }
                acc.push(t);
                p = p2;
                k = k + 1;
            },
        }
    }
    proof {
        assert(deep_strings(acc@) + Seq::<Seq<char>>::empty() =~= deep_strings(acc@));
    }
    Some((acc, p))
}

fn read_throughputs(bytes: &[u8], pos: usize, n: u64) -> (r: Option<(Vec<ModelThroughput>, usize)>)
    requires
        pos <= bytes@.len(),
    ensures
        match r {
            Some(v) => v.1 <= bytes@.len() && dec_throughputs(bytes@.skip(pos as int), n as nat)
                == Some((deep_throughputs(v.0@), bytes@.skip(v.1 as int))),
            None => dec_throughputs(bytes@.skip(pos as int), n as nat) is None,
        },
{
    let mut acc: Vec<ModelThroughput> = Vec::new();
    let mut p = pos;
    let mut k: u64 = 0;
    while k < n
        invariant
            pos <= p <= bytes@.len(),
            k <= n,
            dec_throughputs(bytes@.skip(pos as int), n as nat) == (match dec_throughputs(
                bytes@.skip(p as int),
                (n - k) as nat,
            ) {
                Some((ts, rem)) => Some((deep_throughputs(acc@) + ts, rem)),
                None => None::<(Seq<ModelThroughputView>, Seq<u8>)>,
            }),
        decreases n - k,
    {
        match read_throughput(bytes, p) {
            None => {
                return None;
            },
            Some((t, p2)) => {
                proof {
                    let rem_k = (n - k) as nat;
                    let nxt = bytes@.skip(p2 as int);
                    match dec_throughputs(nxt, (rem_k - 1) as nat) {
                        Some((ts2, r2)) => {
                            assert(dec_throughputs(bytes@.skip(p as int), rem_k) == Some(
                                (seq![t@] + ts2, r2),
                            ));
                            assert(deep_throughputs(acc@.push(t)) =~= deep_throughputs(
                                acc@,
                            ).push(t@));
                            assert(deep_throughputs(acc@) + (seq![t@] + ts2) =~= deep_throughputs(
                                acc@.push(t),
                            ) + ts2);
                        },
                        None => {
                            assert(dec_throughputs(bytes@.skip(p as int), rem_k) is None);
                        },
                    }
                }
                acc.push(t);
                p = p2;
                k = k + 1;
            },
        }
    }
    proof {
        assert(deep_throughputs(acc@) + Seq::<ModelThroughputView>::empty() =~= deep_throughputs(
            acc@,
        ));
    }
    Some((acc, p))
}

/// Decode a profile record from its stored byte form. Returns the record
/// exactly when the bytes are a complete encoding of one profile, with
/// nothing following.
pub fn decode_profile(bytes: &[u8]) -> (r: Option<NodeProfile>)
    ensures
        match r {
            Some(p) => spec_dec_profile(bytes@) == Some(p@),
            None => spec_dec_profile(bytes@) is None,
        },
{
    proof {
        assert(bytes@.skip(0) =~= bytes@);
    }
    let (avb, p1) = match read_raw(bytes, 0, 32) {
        Some(v) => v,
        None => {
            return None;
        },
    };
    let address = Address::from_bytes(bytes32_from_slice(avb.as_slice()));
    let (gpu_name, p2) = match read_string(bytes, p1) {
        Some(v) => v,
        None => {
            return None;
        },
    };
    let (vram_total_mb, p3) = match read_u32(bytes, p2) {
        Some(v) => v,
        None => {
            return None;
        },
    };
    let (cnt, p4) = match read_u64(bytes, p3) {
        Some(v) => v,
        None => {
            return None;
        },
    };
    let (supported_models, p5) = match read_model_infos(bytes, p4, cnt) {
        Some(v) => v,
        None => {
            return None;
        },
    };
    if p5 != bytes.len() {
        proof {
            assert(bytes@.skip(p5 as int).len() != 0);
        }
        return None;
    }
    let p = NodeProfile { address, gpu_name, vram_total_mb, supported_models };
    proof {
        assert(bytes@.skip(p5 as int).len() == 0);
        assert(spec_dec_profile(bytes@) == Some(p@));
    }
    Some(p)
}

/// Decode a status record from its stored byte form.
pub fn decode_status(bytes: &[u8]) -> (r: Option<NodeStatus>)
    ensures
        match r {
            Some(v) => spec_dec_status(bytes@) == Some(v@),
            None => spec_dec_status(bytes@) is None,
        },
{
    proof {
        assert(bytes@.skip(0) =~= bytes@);
    }
    let (avb, p1) = match read_raw(bytes, 0, 32) {
        Some(v) => v,
        None => {
            return None;
        },
    };
    let address = Address::from_bytes(bytes32_from_slice(avb.as_slice()));
    let (nl, p2) = match read_u64(bytes, p1) {
        Some(v) => v,
        None => {
            return None;
        },
    };
    let (loaded_models, p3) = match read_strs(bytes, p2, nl) {
        Some(v) => v,
        None => {
            return None;
        },
    };
    let (active_jobs, p4) = match read_u32(bytes, p3) {
        Some(v) => v,
        None => {
            return None;
        },
    };
    let (max_concurrent_jobs, p5) = match read_u32(bytes, p4) {
        Some(v) => v,
        None => {
            return None;
        },
    };
    let (vram_used_mb, p6) = match read_u32(bytes, p5) {
        Some(v) => v,
        None => {
            return None;
        },
    };
    let (nt, p7) = match read_u64(bytes, p6) {
        Some(v) => v,
        None => {
            return None;
        },
    };
    let (throughput, p8) = match read_throughputs(bytes, p7, nt) {
        Some(v) => v,
        None => {
            return None;
        },
    };
    let (timestamp, p9) = match read_u64(bytes, p8) {
        Some(v) => v,
        None => {
            return None;
        },
    };
    if p9 != bytes.len() {
        proof {
            assert(bytes@.skip(p9 as int).len() != 0);
        }
        return None;
    }
    let v = NodeStatus {
        address,
        loaded_models,
        active_jobs,
        max_concurrent_jobs,
        vram_used_mb,
        throughput,
        timestamp,
    };
    proof {
        assert(bytes@.skip(p9 as int).len() == 0);
        assert(spec_dec_status(bytes@) == Some(v@));
    }
    Some(v)
}

/// Decode a request record from its stored byte form.
pub fn decode_request(bytes: &[u8]) -> (r: Option<InferenceRequest>)
    ensures
        match r {
            Some(q) => spec_dec_request(bytes@) == Some(q@),
            None => spec_dec_request(bytes@) is None,
        },
{
    proof {
        assert(bytes@.skip(0) =~= bytes@);
    }
    let (request_id, p1) = match read_string(bytes, 0) {
        Some(v) => v,
        None => {
            return None;
        },
    };
    let (rvb, p2) = match read_raw(bytes, p1, 32) {
        Some(v) => v,
        None => {
            return None;
        },
    };
    let requester = Address::from_bytes(bytes32_from_slice(rvb.as_slice()));
    let (model_id, p3) = match read_string(bytes, p2) {
        Some(v) => v,
        None => {
            return None;
        },
    };
    let (prompt, p4) = match read_string(bytes, p3) {
        Some(v) => v,
        None => {
            return None;
        },
    };
    let (max_tokens, p5) = match read_u32(bytes, p4) {
        Some(v) => v,
        None => {
            return None;
        },
    };
    let (temperature_bits, p6) = match read_u32(bytes, p5) {
        Some(v) => v,
        None => {
            return None;
        },
    };
    let (created_at, p7) = match read_u64(bytes, p6) {
        Some(v) => v,
        None => {
            return None;
        },
    };
    if p7 != bytes.len() {
        proof {
            assert(bytes@.skip(p7 as int).len() != 0);
        }
        return None;
    }
    let q = InferenceRequest {
        request_id,
        requester,
        model_id,
        prompt,
        max_tokens,
        temperature_bits,
        created_at,
    };
    proof {
        assert(bytes@.skip(p7 as int).len() == 0);
        assert(spec_dec_request(bytes@) == Some(q@));
    }
    Some(q)
}

} // verus!
