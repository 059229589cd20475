//! Wire codec: typed messages to and from length-prefixed binary
//! frames.
//!
//! A frame opens with one kind byte, followed by the message's fields
//! in ascending tag order. Each field is `tag (1 byte) ∥ payload length
//! (4 bytes, little endian) ∥ payload`. Strings travel as UTF-8,
//! integers little endian, string lists and string maps as runs of
//! length-prefixed blocks.
//!
//! The decoder is deliberately strict. The kind byte fixes the frame's
//! schema, so the fields must appear with exactly the schema's tags in
//! ascending order; a tag outside the schema is refused as
//! `UnexpectedTag` rather than skipped. Under this reading every frame
//! has exactly one interpretation, and `lemma_message_roundtrip`
//! proves that decoding an encoded message yields the message back. A
//! schema revision that adds fields therefore needs a new kind byte
//! rather than relying on receivers to skip unknown tags.

use vstd::prelude::*;
use vstd::utf8::{
    decode_utf8, encode_utf8, valid_utf8, encode_utf8_valid_utf8, encode_utf8_decode_utf8,
};
use crate::proto::{
    health_code, HealthState, HeartbeatV, RegistrationV, ResponseResultV, ResponseV, TaskV,
};
use crate::ProcessMessageV;

verus! {

/// Frame kind byte for a registration message.
pub const KIND_REGISTRATION: u8 = 0;

/// Frame kind byte for a heartbeat message.
pub const KIND_HEARTBEAT: u8 = 1;

/// Frame kind byte for a task message.
pub const KIND_TASK: u8 = 2;

/// Frame kind byte for a response message.
pub const KIND_RESPONSE: u8 = 3;

/// A `u32` as four little-endian bytes.
pub open spec fn le32(n: u32) -> Seq<u8> {
    seq![
        (n % 256) as u8,
        ((n / 256) % 256) as u8,
        ((n / 65536) % 256) as u8,
        ((n / 16777216) % 256) as u8,
    ]
}

/// The `u32` read back from four little-endian bytes.
pub open spec fn le32_val(b: Seq<u8>) -> u32 {
    (b[0] + b[1] * 256 + b[2] * 65536 + b[3] * 16777216) as u32
}

/// A `u64` as eight little-endian bytes.
pub open spec fn le64(n: u64) -> Seq<u8> {
    le32((n % 4294967296) as u32) + le32((n / 4294967296) as u32)
}

/// The `u64` read back from eight little-endian bytes.
pub open spec fn le64_val(b: Seq<u8>) -> u64 {
    (le32_val(b.subrange(0, 4)) + le32_val(b.subrange(4, 8)) * 4294967296) as u64
}

/// One field: tag, payload length, payload.
pub open spec fn fld(tag: u8, p: Seq<u8>) -> Seq<u8> {
    seq![tag] + le32(p.len() as u32) + p
}

/// One length-prefixed block inside a list payload.
pub open spec fn blk(p: Seq<u8>) -> Seq<u8> {
    le32(p.len() as u32) + p
}

/// A capability list as a run of length-prefixed UTF-8 blocks.
pub open spec fn caps_bytes(caps: Seq<Seq<char>>) -> Seq<u8>
    decreases caps.len(),
{
    if caps.len() == 0 {
        Seq::empty()
    } else {
        blk(encode_utf8(caps[0])) + caps_bytes(caps.drop_first())
    }
}

/// A string map as a run of alternating key and value blocks.
pub open spec fn meta_bytes(m: Seq<(Seq<char>, Seq<char>)>) -> Seq<u8>
    decreases m.len(),
{
    if m.len() == 0 {
        Seq::empty()
    } else {
        blk(encode_utf8(m[0].0)) + (blk(encode_utf8(m[0].1)) + meta_bytes(m.drop_first()))
    }
}

/// The bytes of an encoded registration, after the kind byte.
pub open spec fn enc_registration(m: RegistrationV) -> Seq<u8> {
    fld(1, encode_utf8(m.worker_id)) + (fld(2, le32(m.max_threads as u32)) + (fld(
        3,
        encode_utf8(m.version),
    ) + fld(4, caps_bytes(m.capabilities))))
}

/// The bytes of an encoded heartbeat, after the kind byte.
pub open spec fn enc_heartbeat(m: HeartbeatV) -> Seq<u8> {
    fld(1, encode_utf8(m.worker_id)) + (fld(2, le64(m.timestamp as u64)) + (fld(
        3,
        le32(health_code(m.state)),
    ) + (fld(4, le32(m.cpu_usage)) + (fld(5, le32(m.mem_usage)) + (fld(6, le32(m.net_latency))
        + (fld(7, le32(m.current_tasks)) + fld(8, le32(m.max_tasks))))))))
}

/// The bytes of an encoded task, after the kind byte.
pub open spec fn enc_task(m: TaskV) -> Seq<u8> {
    fld(1, encode_utf8(m.id)) + (fld(2, m.payload) + (fld(3, le64(m.timestamp as u64)) + (fld(
        4,
        meta_bytes(m.metadata),
    ) + (match m.priority {
        Some(p) => fld(5, le32(p)),
        None => Seq::empty(),
    }))))
}

/// The bytes of an encoded response, after the kind byte.
pub open spec fn enc_response(m: ResponseV) -> Seq<u8> {
    fld(1, encode_utf8(m.worker_id)) + (match m.result {
        Some(ResponseResultV::Output(b)) => fld(2, b),
        Some(ResponseResultV::Error(s)) => fld(3, encode_utf8(s)),
        None => Seq::empty(),
    })
}

/// The full frame of a message: kind byte, then the fields.
pub open spec fn enc_message(m: ProcessMessageV) -> Seq<u8> {
    match m {
        ProcessMessageV::Registration(v) => seq![KIND_REGISTRATION] + enc_registration(v),
        ProcessMessageV::Heartbeat(v) => seq![KIND_HEARTBEAT] + enc_heartbeat(v),
        ProcessMessageV::Task(v) => seq![KIND_TASK] + enc_task(v),
        ProcessMessageV::TaskResponse(v) => seq![KIND_RESPONSE] + enc_response(v),
    }
}

/// A string that fits a frame: its UTF-8 form fits a 32-bit length.
pub open spec fn valid_str(s: Seq<char>) -> bool {
    encode_utf8(s).len() <= 0xFFFF_FFFF
}

/// A registration the codec can carry.
pub open spec fn valid_registration(m: RegistrationV) -> bool {
    &&& valid_str(m.worker_id)
    &&& valid_str(m.version)
    &&& forall|i: int| 0 <= i < m.capabilities.len() ==> valid_str(#[trigger] m.capabilities[i])
    &&& caps_bytes(m.capabilities).len() <= 0xFFFF_FFFF
}

/// A heartbeat the codec can carry: utilisation ratios at most full
/// scale.
pub open spec fn valid_heartbeat(m: HeartbeatV) -> bool {
    &&& valid_str(m.worker_id)
    &&& m.cpu_usage <= 1_000_000
    &&& m.mem_usage <= 1_000_000
}

/// A task the codec can carry: metadata keys are distinct, as in a
/// map, and a priority, when given, lies in 1..=10.
pub open spec fn valid_task(m: TaskV) -> bool {
    &&& valid_str(m.id)
    &&& m.payload.len() <= 0xFFFF_FFFF
    &&& forall|i: int|
        0 <= i < m.metadata.len() ==> valid_str((#[trigger] m.metadata[i]).0) && valid_str(
            m.metadata[i].1,
        )
    &&& forall|a: int, b: int| #![trigger m.metadata[a], m.metadata[b]]
        0 <= a < b < m.metadata.len() ==> m.metadata[a].0 != m.metadata[b].0
    &&& meta_bytes(m.metadata).len() <= 0xFFFF_FFFF
    &&& (m.priority matches Some(p) ==> 1 <= p <= 10)
}

/// A response the codec can carry: exactly one of output or error.
pub open spec fn valid_response(m: ResponseV) -> bool {
    &&& valid_str(m.worker_id)
    &&& m.result is Some
    &&& (m.result matches Some(ResponseResultV::Output(b)) ==> b.len() <= 0xFFFF_FFFF)
    &&& (m.result matches Some(ResponseResultV::Error(s)) ==> valid_str(s))
}

/// A message the codec can carry.
pub open spec fn valid_message(m: ProcessMessageV) -> bool {
    match m {
        ProcessMessageV::Registration(v) => valid_registration(v),
        ProcessMessageV::Heartbeat(v) => valid_heartbeat(v),
        ProcessMessageV::Task(v) => valid_task(v),
        ProcessMessageV::TaskResponse(v) => valid_response(v),
    }
}

/// Read one field with the expected tag off the front of `s`,
/// returning its payload and the rest.
pub open spec fn take_fld(s: Seq<u8>, tag: u8) -> Option<(Seq<u8>, Seq<u8>)> {
    if s.len() >= 5 && s[0] == tag {
        let l = le32_val(s.subrange(1, 5)) as int;
        if 5 + l <= s.len() {
            Some((s.subrange(5, 5 + l), s.subrange(5 + l, s.len() as int)))
        } else {
            None
        }
    } else {
        None
    }
}

/// Read a UTF-8 payload as text.
pub open spec fn parse_string(p: Seq<u8>) -> Option<Seq<char>> {
    if valid_utf8(p) {
        Some(decode_utf8(p))
    } else {
        None
    }
}

/// Read a run of length-prefixed UTF-8 blocks as a string list.
pub open spec fn parse_str_blks(s: Seq<u8>) -> Option<Seq<Seq<char>>>
    decreases s.len(),
{
    if s.len() == 0 {
        Some(Seq::empty())
    } else if s.len() >= 4 {
        let l = le32_val(s.subrange(0, 4)) as int;
        if 4 + l <= s.len() {
            match parse_string(s.subrange(4, 4 + l)) {
                None => None,
                Some(x) => match parse_str_blks(s.subrange(4 + l, s.len() as int)) {
                    None => None,
                    Some(r) => Some(seq![x] + r),
                },
            }
        } else {
            None
        }
    } else {
        None
    }
}

/// Read a run of alternating key and value blocks as a string map.
pub open spec fn parse_kv_blks(s: Seq<u8>) -> Option<Seq<(Seq<char>, Seq<char>)>>
    decreases s.len(),
{
    if s.len() == 0 {
        Some(Seq::empty())
    } else if s.len() >= 4 {
        let lk = le32_val(s.subrange(0, 4)) as int;
        if 4 + lk + 4 <= s.len() {
            let lv = le32_val(s.subrange(4 + lk, 4 + lk + 4)) as int;
            if 4 + lk + 4 + lv <= s.len() {
                match parse_string(s.subrange(4, 4 + lk)) {
                    None => None,
                    Some(k) => match parse_string(
                        s.subrange(4 + lk + 4, 4 + lk + 4 + lv),
                    ) {
                        None => None,
                        Some(v) => match parse_kv_blks(
                            s.subrange(4 + lk + 4 + lv, s.len() as int),
                        ) {
                            None => None,
                            Some(r) => Some(seq![(k, v)] + r),
                        },
                    },
                }
            } else {
                None
            }
        } else {
            None
        }
    } else {
        None
    }
}

/// Decode a numeric health value.
pub open spec fn health_decode(c: u32) -> Option<HealthState> {
    if c == 0 {
        Some(HealthState::Healthy)
    } else if c == 1 {
        Some(HealthState::Unhealthy)
    } else if c == 2 {
        Some(HealthState::CircuitBreaker)
    } else {
        None
    }
}

/// The one reading of a registration frame body, if any.
pub open spec fn reg_parse(s: Seq<u8>) -> Option<RegistrationV> {
    match take_fld(s, 1) {
        None => None,
        Some((p1, r1)) => match parse_string(p1) {
            None => None,
            Some(wid) => match take_fld(r1, 2) {
                None => None,
                Some((p2, r2)) => if p2.len() == 4 {
                    match take_fld(r2, 3) {
                        None => None,
                        Some((p3, r3)) => match parse_string(p3) {
                            None => None,
                            Some(ver) => match take_fld(r3, 4) {
                                None => None,
                                Some((p4, r4)) => if r4.len() == 0 {
                                    match parse_str_blks(p4) {
                                        None => None,
                                        Some(caps) => Some(
                                            RegistrationV {
                                                worker_id: wid,
                                                max_threads: le32_val(p2) as i32,
                                                version: ver,
                                                capabilities: caps,
                                            },
                                        ),
                                    }
                                } else {
                                    None
                                },
                            },
                        },
                    }
                } else {
                    None
                },
            },
        },
    }
}

/// The one reading of a heartbeat frame body, if any.
pub open spec fn hb_parse(s: Seq<u8>) -> Option<HeartbeatV> {
    match take_fld(s, 1) {
        None => None,
        Some((p1, r1)) => match parse_string(p1) {
            None => None,
            Some(wid) => match take_fld(r1, 2) {
                None => None,
                Some((p2, r2)) => if p2.len() == 8 {
                    match take_fld(r2, 3) {
                        None => None,
                        Some((p3, r3)) => if p3.len() == 4 {
                            match health_decode(le32_val(p3)) {
                                None => None,
                                Some(st) => match take_fld(r3, 4) {
                                    None => None,
                                    Some((p4, r4)) => if p4.len() == 4 && le32_val(p4)
                                        <= 1_000_000 {
                                        match take_fld(r4, 5) {
                                            None => None,
                                            Some((p5, r5)) => if p5.len() == 4 && le32_val(p5)
                                                <= 1_000_000 {
                                                match take_fld(r5, 6) {
                                                    None => None,
                                                    Some((p6, r6)) => if p6.len() == 4 {
                                                        match take_fld(r6, 7) {
                                                            None => None,
                                                            Some((p7, r7)) => if p7.len() == 4 {
                                                                match take_fld(r7, 8) {
                                                                    None => None,
                                                                    Some((p8, r8)) => if p8.len()
                                                                        == 4 && r8.len() == 0 {
                                                                        Some(
                                                                            HeartbeatV {
                                                                                worker_id: wid,
                                                                                timestamp: le64_val(
                                                                                    p2,
                                                                                ) as i64,
                                                                                state: st,
                                                                                cpu_usage: le32_val(
                                                                                    p4,
                                                                                ),
                                                                                mem_usage: le32_val(
                                                                                    p5,
                                                                                ),
                                                                                net_latency:
                                                                                    le32_val(p6),
                                                                                current_tasks:
                                                                                    le32_val(p7),
                                                                                max_tasks: le32_val(
                                                                                    p8,
                                                                                ),
                                                                            },
                                                                        )
                                                                    } else {
                                                                        None
                                                                    },
                                                                }
                                                            } else {
                                                                None
                                                            },
                                                        }
                                                    } else {
                                                        None
                                                    },
                                                }
                                            } else {
                                                None
                                            },
                                        }
                                    } else {
                                        None
                                    },
                                },
                            }
                        } else {
                            None
                        },
                    }
                } else {
                    None
                },
            },
        },
    }
}

/// The one reading of a task frame body, if any.
pub open spec fn task_parse(s: Seq<u8>) -> Option<TaskV> {
    match take_fld(s, 1) {
        None => None,
        Some((p1, r1)) => match parse_string(p1) {
            None => None,
            Some(id) => match take_fld(r1, 2) {
                None => None,
                Some((p2, r2)) => match take_fld(r2, 3) {
                    None => None,
                    Some((p3, r3)) => if p3.len() == 8 {
                        match take_fld(r3, 4) {
                            None => None,
                            Some((p4, r4)) => match parse_kv_blks(p4) {
                                None => None,
                                Some(meta) => if r4.len() == 0 {
                                    Some(
                                        TaskV {
                                            id,
                                            payload: p2,
                                            timestamp: le64_val(p3) as i64,
                                            metadata: meta,
                                            priority: None,
                                        },
                                    )
                                } else {
                                    match take_fld(r4, 5) {
                                        None => None,
                                        Some((p5, r5)) => if p5.len() == 4 && r5.len() == 0 && 1
                                            <= le32_val(p5) <= 10 {
                                            Some(
                                                TaskV {
                                                    id,
                                                    payload: p2,
                                                    timestamp: le64_val(p3) as i64,
                                                    metadata: meta,
                                                    priority: Some(le32_val(p5)),
                                                },
                                            )
                                        } else {
                                            None
                                        },
                                    }
                                },
                            },
                        }
                    } else {
                        None
                    },
                },
            },
        },
    }
}

/// The one reading of a response frame body, if any.
pub open spec fn resp_parse(s: Seq<u8>) -> Option<ResponseV> {
    match take_fld(s, 1) {
        None => None,
        Some((p1, r1)) => match parse_string(p1) {
            None => None,
            Some(wid) => match take_fld(r1, 2) {
                Some((p2, r2)) => if r2.len() == 0 {
                    Some(ResponseV { worker_id: wid, result: Some(ResponseResultV::Output(p2)) })
                } else {
                    None
                },
                None => match take_fld(r1, 3) {
                    None => None,
                    Some((p3, r3)) => if r3.len() == 0 {
                        match parse_string(p3) {
                            None => None,
                            Some(e) => Some(
                                ResponseV { worker_id: wid, result: Some(ResponseResultV::Error(e)) },
                            ),
                        }
                    } else {
                        None
                    },
                },
            },
        },
    }
}

/// The one reading of a whole frame, if any.
pub open spec fn msg_parse(s: Seq<u8>) -> Option<ProcessMessageV> {
    if s.len() < 1 {
        None
    } else {
        let body = s.subrange(1, s.len() as int);
        if s[0] == KIND_REGISTRATION {
            match reg_parse(body) {
                None => None,
                Some(v) => Some(ProcessMessageV::Registration(v)),
            }
        } else if s[0] == KIND_HEARTBEAT {
            match hb_parse(body) {
                None => None,
                Some(v) => Some(ProcessMessageV::Heartbeat(v)),
            }
        } else if s[0] == KIND_TASK {
            match task_parse(body) {
                None => None,
                Some(v) => Some(ProcessMessageV::Task(v)),
            }
        } else if s[0] == KIND_RESPONSE {
            match resp_parse(body) {
                None => None,
                Some(v) => Some(ProcessMessageV::TaskResponse(v)),
            }
        } else {
            None
        }
    }
}

/// Four little-endian bytes read back as the number they encode.
proof fn lemma_le32_roundtrip(n: u32)
    ensures
        le32_val(le32(n)) == n,
{
    let x = n as int;
    vstd::arithmetic::div_mod::lemma_fundamental_div_mod(x, 256);
    vstd::arithmetic::div_mod::lemma_fundamental_div_mod(x / 256, 256);
    vstd::arithmetic::div_mod::lemma_fundamental_div_mod(x / 65536, 256);
    assert((x / 256) / 256 == x / 65536) by {
        vstd::arithmetic::div_mod::lemma_div_denominator(x, 256, 256);
    }
    assert((x / 65536) / 256 == x / 16777216) by {
        vstd::arithmetic::div_mod::lemma_div_denominator(x, 65536, 256);
    }
    assert(x / 16777216 < 256) by (nonlinear_arith)
        requires
            0 <= x < 4294967296,
    ;
    assert(x / 16777216 >= 0) by {
        vstd::arithmetic::div_mod::lemma_div_pos_is_pos(x, 16777216);
    }
    vstd::arithmetic::div_mod::lemma_small_mod((x / 16777216) as nat, 256nat);
}

/// Eight little-endian bytes read back as the number they encode.
proof fn lemma_le64_roundtrip(n: u64)
    ensures
        le64_val(le64(n)) == n,
{
    let lo = (n % 4294967296) as u32;
    let hi = (n / 4294967296) as u32;
    assert(n / 4294967296 < 4294967296) by (nonlinear_arith)
        requires
            0 <= n < 18446744073709551616,
    ;
    assert(le64(n).subrange(0, 4) =~= le32(lo));
    assert(le64(n).subrange(4, 8) =~= le32(hi));
    lemma_le32_roundtrip(lo);
    lemma_le32_roundtrip(hi);
    vstd::arithmetic::div_mod::lemma_fundamental_div_mod(n as int, 4294967296);
}

/// Reading a field off its own encoding yields the payload and the
/// rest.
proof fn lemma_take_fld(tag: u8, p: Seq<u8>, rest: Seq<u8>)
    requires
        p.len() <= 0xFFFF_FFFF,
    ensures
        take_fld(fld(tag, p) + rest, tag) == Some((p, rest)),
{
    let s = fld(tag, p) + rest;
    assert(s[0] == tag);
    assert(s.subrange(1, 5) =~= le32(p.len() as u32));
    lemma_le32_roundtrip(p.len() as u32);
    let l = p.len() as int;
    assert(s.subrange(5, 5 + l) =~= p);
    assert(s.subrange(5 + l, s.len() as int) =~= rest);
}

/// Reading text off its own UTF-8 encoding yields the text.
proof fn lemma_parse_string_enc(x: Seq<char>)
    ensures
        parse_string(encode_utf8(x)) == Some(x),
{
    encode_utf8_valid_utf8(x);
    encode_utf8_decode_utf8(x);
}

/// Reading a string list off its own block encoding yields the list.
proof fn lemma_str_blks_roundtrip(caps: Seq<Seq<char>>)
    requires
        forall|i: int| 0 <= i < caps.len() ==> valid_str(#[trigger] caps[i]),
    ensures
        parse_str_blks(caps_bytes(caps)) == Some(caps),
    decreases caps.len(),
{
    if caps.len() == 0 {
        assert(caps_bytes(caps).len() == 0);
        assert(parse_str_blks(caps_bytes(caps)) == Some(Seq::<Seq<char>>::empty()));
        assert(caps =~= Seq::<Seq<char>>::empty());
    } else {
        let e0 = encode_utf8(caps[0]);
        let tail = caps_bytes(caps.drop_first());
        let s = caps_bytes(caps);
        assert(s == blk(e0) + tail);
        let l = e0.len() as int;
        assert(s.len() >= 4);
        assert(s.subrange(0, 4) =~= le32(e0.len() as u32));
        lemma_le32_roundtrip(e0.len() as u32);
        assert(s.subrange(4, 4 + l) =~= e0);
        lemma_parse_string_enc(caps[0]);
        assert(s.subrange(4 + l, s.len() as int) =~= tail);
        assert(forall|i: int|
            0 <= i < caps.drop_first().len() ==> valid_str(#[trigger] caps.drop_first()[i]));
        lemma_str_blks_roundtrip(caps.drop_first());
        assert(seq![caps[0]] + caps.drop_first() =~= caps);
    }
}

/// Reading a string map off its own block encoding yields the map.
#[verifier::rlimit(100)]
proof fn lemma_kv_blks_roundtrip(m: Seq<(Seq<char>, Seq<char>)>)
    requires
        forall|i: int|
            0 <= i < m.len() ==> valid_str((#[trigger] m[i]).0) && valid_str(m[i].1),
    ensures
        parse_kv_blks(meta_bytes(m)) == Some(m),
    decreases m.len(),
{
    if m.len() == 0 {
        assert(meta_bytes(m).len() == 0);
        assert(parse_kv_blks(meta_bytes(m)) == Some(Seq::<(Seq<char>, Seq<char>)>::empty()));
        assert(m =~= Seq::<(Seq<char>, Seq<char>)>::empty());
    } else {
        let ek = encode_utf8(m[0].0);
        let ev = encode_utf8(m[0].1);
        let tail = meta_bytes(m.drop_first());
        let s = meta_bytes(m);
        assert(s == blk(ek) + blk(ev) + tail);
        let lk = ek.len() as int;
        let lv = ev.len() as int;
        assert(s.len() >= 4 + lk + 4);
        assert(s.subrange(0, 4) =~= le32(ek.len() as u32));
        lemma_le32_roundtrip(ek.len() as u32);
        assert(s.subrange(4 + lk, 4 + lk + 4) =~= le32(ev.len() as u32));
        lemma_le32_roundtrip(ev.len() as u32);
        assert(s.subrange(4, 4 + lk) =~= ek);
        assert(s.subrange(4 + lk + 4, 4 + lk + 4 + lv) =~= ev);
        lemma_parse_string_enc(m[0].0);
        lemma_parse_string_enc(m[0].1);
        assert(s.subrange(4 + lk + 4 + lv, s.len() as int) =~= tail);
        assert(forall|i: int|
            0 <= i < m.drop_first().len() ==> valid_str((#[trigger] m.drop_first()[i]).0)
                && valid_str(m.drop_first()[i].1));
        lemma_kv_blks_roundtrip(m.drop_first());
        assert(seq![m[0]] + m.drop_first() =~= m);
    }
}

/// Casting a 32-bit value through the unsigned form returns it.
proof fn lemma_i32_cast(x: i32)
    ensures
        (x as u32) as i32 == x,
{
    assert((x as u32) as i32 == x) by (bit_vector);
}

/// Casting a 64-bit value through the unsigned form returns it.
proof fn lemma_i64_cast(x: i64)
    ensures
        (x as u64) as i64 == x,
{
    assert((x as u64) as i64 == x) by (bit_vector);
}

/// Decoding an encoded registration body yields the registration.
#[verifier::rlimit(100)]
proof fn lemma_reg_roundtrip(m: RegistrationV)
    requires
        valid_registration(m),
    ensures
        reg_parse(enc_registration(m)) == Some(m),
{
    let p1 = encode_utf8(m.worker_id);
    let p2 = le32(m.max_threads as u32);
    let p3 = encode_utf8(m.version);
    let p4 = caps_bytes(m.capabilities);
    let s = enc_registration(m);
    let r1 = fld(2, p2) + (fld(3, p3) + fld(4, p4));
    let r2 = fld(3, p3) + fld(4, p4);
    let r3 = fld(4, p4);
    lemma_take_fld(1, p1, r1);
    lemma_parse_string_enc(m.worker_id);
    lemma_take_fld(2, p2, r2);
    lemma_le32_roundtrip(m.max_threads as u32);
    lemma_i32_cast(m.max_threads);
    lemma_take_fld(3, p3, r3);
    lemma_parse_string_enc(m.version);
    assert(r3 =~= fld(4, p4) + Seq::<u8>::empty());
    lemma_take_fld(4, p4, Seq::<u8>::empty());
    lemma_str_blks_roundtrip(m.capabilities);
    assert(reg_parse(s) matches Some(v) && v =~= m);
}

/// Decoding an encoded heartbeat body yields the heartbeat.
#[verifier::rlimit(100)]
proof fn lemma_hb_roundtrip(m: HeartbeatV)
    requires
        valid_heartbeat(m),
    ensures
        hb_parse(enc_heartbeat(m)) == Some(m),
{
    let p1 = encode_utf8(m.worker_id);
    let p2 = le64(m.timestamp as u64);
    let p3 = le32(health_code(m.state));
    let p4 = le32(m.cpu_usage);
    let p5 = le32(m.mem_usage);
    let p6 = le32(m.net_latency);
    let p7 = le32(m.current_tasks);
    let p8 = le32(m.max_tasks);
    let s = enc_heartbeat(m);
    let r7 = fld(8, p8);
    let r6 = fld(7, p7) + r7;
    let r5 = fld(6, p6) + r6;
    let r4 = fld(5, p5) + r5;
    let r3 = fld(4, p4) + r4;
    let r2 = fld(3, p3) + r3;
    let r1 = fld(2, p2) + r2;
    lemma_take_fld(1, p1, r1);
    lemma_parse_string_enc(m.worker_id);
    lemma_take_fld(2, p2, r2);
    lemma_le64_roundtrip(m.timestamp as u64);
    lemma_i64_cast(m.timestamp);
    lemma_take_fld(3, p3, r3);
    lemma_le32_roundtrip(health_code(m.state));
    assert(health_decode(health_code(m.state)) == Some(m.state));
    lemma_take_fld(4, p4, r4);
    lemma_le32_roundtrip(m.cpu_usage);
    lemma_take_fld(5, p5, r5);
    lemma_le32_roundtrip(m.mem_usage);
    lemma_take_fld(6, p6, r6);
    lemma_le32_roundtrip(m.net_latency);
    lemma_take_fld(7, p7, r7);
    lemma_le32_roundtrip(m.current_tasks);
    assert(r7 =~= fld(8, p8) + Seq::<u8>::empty());
    lemma_take_fld(8, p8, Seq::<u8>::empty());
    lemma_le32_roundtrip(m.max_tasks);
    assert(hb_parse(s) matches Some(v) && v =~= m);
}

/// Decoding an encoded task body without a priority yields the task.
#[verifier::rlimit(100)]
proof fn lemma_task_roundtrip_none(m: TaskV)
    requires
        valid_task(m),
        m.priority is None,
    ensures
        task_parse(enc_task(m)) == Some(m),
{
    let p1 = encode_utf8(m.id);
    let p2 = m.payload;
    let p3 = le64(m.timestamp as u64);
    let p4 = meta_bytes(m.metadata);
    let opt = Seq::<u8>::empty();
    let s = enc_task(m);
    let r3 = fld(4, p4) + opt;
    let r2 = fld(3, p3) + r3;
    let r1 = fld(2, p2) + r2;
    lemma_take_fld(1, p1, r1);
    lemma_parse_string_enc(m.id);
    lemma_take_fld(2, p2, r2);
    lemma_take_fld(3, p3, r3);
    lemma_le64_roundtrip(m.timestamp as u64);
    lemma_i64_cast(m.timestamp);
    lemma_take_fld(4, p4, opt);
    lemma_kv_blks_roundtrip(m.metadata);
    assert(task_parse(s) matches Some(v) && v =~= m);
}

/// Decoding an encoded task body with a priority yields the task.
#[verifier::rlimit(100)]
proof fn lemma_task_roundtrip_some(m: TaskV)
    requires
        valid_task(m),
        m.priority is Some,
    ensures
        task_parse(enc_task(m)) == Some(m),
{
    let p = m.priority->Some_0;
    let p1 = encode_utf8(m.id);
    let p2 = m.payload;
    let p3 = le64(m.timestamp as u64);
    let p4 = meta_bytes(m.metadata);
    let opt = fld(5, le32(p));
    let s = enc_task(m);
    let r3 = fld(4, p4) + opt;
    let r2 = fld(3, p3) + r3;
    let r1 = fld(2, p2) + r2;
    lemma_take_fld(1, p1, r1);
    lemma_parse_string_enc(m.id);
    lemma_take_fld(2, p2, r2);
    lemma_take_fld(3, p3, r3);
    lemma_le64_roundtrip(m.timestamp as u64);
    lemma_i64_cast(m.timestamp);
    lemma_take_fld(4, p4, opt);
    lemma_kv_blks_roundtrip(m.metadata);
    assert(opt.len() >= 5);
    assert(opt =~= fld(5, le32(p)) + Seq::<u8>::empty());
    lemma_take_fld(5, le32(p), Seq::<u8>::empty());
    lemma_le32_roundtrip(p);
    assert(task_parse(s) matches Some(v) && v =~= m);
}

/// Decoding an encoded task body yields the task.
proof fn lemma_task_roundtrip(m: TaskV)
    requires
        valid_task(m),
    ensures
        task_parse(enc_task(m)) == Some(m),
{
    match m.priority {
        None => lemma_task_roundtrip_none(m),
        Some(_) => lemma_task_roundtrip_some(m),
    }
}

/// Decoding an encoded response body yields the response.
#[verifier::rlimit(100)]
proof fn lemma_resp_roundtrip(m: ResponseV)
    requires
        valid_response(m),
    ensures
        resp_parse(enc_response(m)) == Some(m),
{
    let p1 = encode_utf8(m.worker_id);
    let s = enc_response(m);
    match m.result {
        None => {},
        Some(ResponseResultV::Output(b)) => {
            let r1 = fld(2, b);
            lemma_take_fld(1, p1, r1);
            lemma_parse_string_enc(m.worker_id);
            assert(r1 =~= fld(2, b) + Seq::<u8>::empty());
            lemma_take_fld(2, b, Seq::<u8>::empty());
            assert(resp_parse(s) matches Some(v) && v =~= m);
        },
        Some(ResponseResultV::Error(e)) => {
            let pe = encode_utf8(e);
            let r1 = fld(3, pe);
            lemma_take_fld(1, p1, r1);
            lemma_parse_string_enc(m.worker_id);
            assert(r1[0] == 3);
            assert(take_fld(r1, 2) is None);
            assert(r1 =~= fld(3, pe) + Seq::<u8>::empty());
            lemma_take_fld(3, pe, Seq::<u8>::empty());
            lemma_parse_string_enc(e);
            assert(resp_parse(s) matches Some(v) && v =~= m);
        },
    }
}

/// Round trip of a registration frame.
#[verifier::rlimit(100)]
proof fn lemma_message_roundtrip_reg(v: RegistrationV)
    requires
        valid_registration(v),
    ensures
        msg_parse(enc_message(ProcessMessageV::Registration(v))) == Some(
            ProcessMessageV::Registration(v),
        ),
{
    let s = enc_message(ProcessMessageV::Registration(v));
    assert(s.subrange(1, s.len() as int) =~= enc_registration(v));
    lemma_reg_roundtrip(v);
}

/// Round trip of a heartbeat frame.
#[verifier::rlimit(100)]
proof fn lemma_message_roundtrip_hb(v: HeartbeatV)
    requires
        valid_heartbeat(v),
    ensures
        msg_parse(enc_message(ProcessMessageV::Heartbeat(v))) == Some(
            ProcessMessageV::Heartbeat(v),
        ),
{
    let s = enc_message(ProcessMessageV::Heartbeat(v));
    assert(s.subrange(1, s.len() as int) =~= enc_heartbeat(v));
    lemma_hb_roundtrip(v);
}

/// Round trip of a task frame.
#[verifier::rlimit(100)]
proof fn lemma_message_roundtrip_task(v: TaskV)
    requires
        valid_task(v),
    ensures
        msg_parse(enc_message(ProcessMessageV::Task(v))) == Some(ProcessMessageV::Task(v)),
{
    let s = enc_message(ProcessMessageV::Task(v));
    assert(s.subrange(1, s.len() as int) =~= enc_task(v));
    lemma_task_roundtrip(v);
}

/// Round trip of a response frame.
#[verifier::rlimit(100)]
proof fn lemma_message_roundtrip_resp(v: ResponseV)
    requires
        valid_response(v),
    ensures
        msg_parse(enc_message(ProcessMessageV::TaskResponse(v))) == Some(
            ProcessMessageV::TaskResponse(v),
        ),
{
    let s = enc_message(ProcessMessageV::TaskResponse(v));
    assert(s.subrange(1, s.len() as int) =~= enc_response(v));
    lemma_resp_roundtrip(v);
}

/// Round trip of the codec: decoding the encoding of any message the
/// codec can carry yields exactly that message.
pub proof fn lemma_message_roundtrip(m: ProcessMessageV)
    requires
        valid_message(m),
    ensures
        msg_parse(enc_message(m)) == Some(m),
{
    match m {
        ProcessMessageV::Registration(v) => lemma_message_roundtrip_reg(v),
        ProcessMessageV::Heartbeat(v) => lemma_message_roundtrip_hb(v),
        ProcessMessageV::Task(v) => lemma_message_roundtrip_task(v),
        ProcessMessageV::TaskResponse(v) => lemma_message_roundtrip_resp(v),
    }
}

/// Why a message cannot be framed.
#[derive(Debug, PartialEq, Eq, Structural)]
pub enum EncodeError {
    /// A field exceeds the 32-bit length prefix.
    Oversize,
    /// A response carries neither output nor error.
    MissingResult,
    /// A numeric field lies outside its documented range.
    InvalidValue,
    /// Two metadata entries share a key.
    DuplicateKey,
}

/// Why a frame cannot be read.
#[derive(Debug, PartialEq, Eq, Structural)]
pub enum DecodeError {
    /// The frame ends before a field does.
    Truncated,
    /// The kind byte names no known schema.
    UnknownKind,
    /// A field carries an unexpected tag.
    UnexpectedTag,
    /// A text field holds malformed UTF-8.
    InvalidUtf8,
    /// A numeric field lies outside its documented range.
    InvalidValue,
}

/// Relies on `core::str::from_utf8`: it succeeds exactly on valid
/// UTF-8 and yields the text whose encoding is the input bytes.
#[verifier::external_body]
fn bytes_to_string(v: &Vec<u8>) -> (r: Option<String>)
    ensures
        r is Some <==> valid_utf8(v@),
        r matches Some(s) ==> s@ == decode_utf8(v@),
{
    match core::str::from_utf8(v.as_slice()) {
        Ok(s) => Some(s.to_owned()),
        Err(_) => None,
    }
}

/// Append a `u32` as four little-endian bytes.
fn write_u32(buf: &mut Vec<u8>, n: u32)
    ensures
        final(buf)@ == old(buf)@ + le32(n),
{
    buf.push((n % 256) as u8);
    buf.push(((n / 256) % 256) as u8);
    buf.push(((n / 65536) % 256) as u8);
    buf.push(((n / 16777216) % 256) as u8);
    proof {
        assert(buf@ =~= old(buf)@ + le32(n));
    }
}

/// Append a `u64` as eight little-endian bytes.
fn write_u64(buf: &mut Vec<u8>, n: u64)
    ensures
        final(buf)@ == old(buf)@ + le64(n),
{
    write_u32(buf, (n % 4294967296) as u32);
    write_u32(buf, (n / 4294967296) as u32);
    proof {
        assert(buf@ =~= old(buf)@ + le64(n));
    }
}

/// Append raw bytes.
fn write_slice(buf: &mut Vec<u8>, b: &[u8])
    ensures
        final(buf)@ == old(buf)@ + b@,
{
    let mut i: usize = 0;
    while i < b.len()
        invariant
            i <= b@.len(),
            buf@ == old(buf)@ + b@.subrange(0, i as int),
        decreases b@.len() - i,
    {
        buf.push(b[i]);
        proof {
            assert(buf@ =~= old(buf)@ + b@.subrange(0, i + 1));
        }
        i = i + 1;
    }
    proof {
        assert(b@.subrange(0, b@.len() as int) =~= b@);
    }
}

/// Append one string field; fails untouched when the text exceeds the
/// length prefix.
fn write_str_field(buf: &mut Vec<u8>, tag: u8, s: &String) -> (r: Result<(), EncodeError>)
    ensures
        valid_str(s@) ==> r is Ok && final(buf)@ == old(buf)@ + fld(tag, encode_utf8(s@)),
        !valid_str(s@) ==> r == Err::<(), EncodeError>(EncodeError::Oversize) && final(buf)@ == old(buf)@,
{
    let b = s.as_str().as_bytes();
    if b.len() > 0xFFFF_FFFFusize {
        return Err(EncodeError::Oversize);
    }
    buf.push(tag);
    write_u32(buf, b.len() as u32);
    write_slice(buf, b);
    proof {
        assert(buf@ =~= old(buf)@ + fld(tag, encode_utf8(s@)));
    }
    Ok(())
}

/// Append one 4-byte numeric field.
fn write_u32_field(buf: &mut Vec<u8>, tag: u8, v: u32)
    ensures
        final(buf)@ == old(buf)@ + fld(tag, le32(v)),
{
    buf.push(tag);
    write_u32(buf, 4);
    write_u32(buf, v);
    proof {
        assert(buf@ =~= old(buf)@ + fld(tag, le32(v)));
    }
}

/// Append one 8-byte numeric field.
fn write_u64_field(buf: &mut Vec<u8>, tag: u8, v: u64)
    ensures
        final(buf)@ == old(buf)@ + fld(tag, le64(v)),
{
    buf.push(tag);
    write_u32(buf, 8);
    write_u64(buf, v);
    proof {
        assert(buf@ =~= old(buf)@ + fld(tag, le64(v)));
    }
}

/// Append one raw-bytes field; fails untouched when the payload
/// exceeds the length prefix.
fn write_bytes_field(buf: &mut Vec<u8>, tag: u8, b: &Vec<u8>) -> (r: Result<(), EncodeError>)
    ensures
        b@.len() <= 0xFFFF_FFFF ==> r is Ok && final(buf)@ == old(buf)@ + fld(tag, b@),
        b@.len() > 0xFFFF_FFFF ==> r == Err::<(), EncodeError>(EncodeError::Oversize) && final(buf)@ == old(buf)@,
{
    if b.len() > 0xFFFF_FFFFusize {
        return Err(EncodeError::Oversize);
    }
    buf.push(tag);
    write_u32(buf, b.len() as u32);
    write_slice(buf, b.as_slice());
    proof {
        assert(buf@ =~= old(buf)@ + fld(tag, b@));
    }
    Ok(())
}

/// Append one length-prefixed string block; fails untouched when the
/// text exceeds the length prefix.
fn write_str_blk(buf: &mut Vec<u8>, s: &String) -> (r: Result<(), EncodeError>)
    ensures
        valid_str(s@) ==> r is Ok && final(buf)@ == old(buf)@ + blk(encode_utf8(s@)),
        !valid_str(s@) ==> r == Err::<(), EncodeError>(EncodeError::Oversize) && final(buf)@ == old(buf)@,
{
    let b = s.as_str().as_bytes();
    if b.len() > 0xFFFF_FFFFusize {
        return Err(EncodeError::Oversize);
    }
    write_u32(buf, b.len() as u32);
    write_slice(buf, b);
    proof {
        assert(buf@ =~= old(buf)@ + blk(encode_utf8(s@)));
    }
    Ok(())
}

/// Extending a capability prefix by one entry appends its block.
proof fn lemma_caps_snoc(caps: Seq<Seq<char>>, i: int)
    requires
        0 <= i < caps.len(),
    ensures
        caps_bytes(caps.take(i + 1)) == caps_bytes(caps.take(i)) + blk(encode_utf8(caps[i])),
    decreases i,
{
    if i == 0 {
        assert(caps.take(1) =~= seq![caps[0]]);
        assert(caps.take(1).drop_first() =~= Seq::<Seq<char>>::empty());
        assert(caps.take(0) =~= Seq::<Seq<char>>::empty());
        assert(caps_bytes(caps.take(1)) =~= caps_bytes(caps.take(0)) + blk(encode_utf8(caps[0])));
    } else {
        let d = caps.drop_first();
        assert(caps.take(i + 1).drop_first() =~= d.take(i));
        assert(caps.take(i).drop_first() =~= d.take(i - 1));
        assert(caps.take(i + 1)[0] == caps[0]);
        assert(caps.take(i)[0] == caps[0]);
        lemma_caps_snoc(d, i - 1);
        assert(caps_bytes(caps.take(i + 1)) == blk(encode_utf8(caps[0])) + caps_bytes(d.take(i)));
        assert(caps_bytes(caps.take(i)) == blk(encode_utf8(caps[0])) + caps_bytes(d.take(i - 1)));
        assert(caps_bytes(caps.take(i + 1)) =~= caps_bytes(caps.take(i)) + blk(
            encode_utf8(caps[i]),
        ));
    }
}

/// Extending a metadata prefix by one pair appends its two blocks.
proof fn lemma_meta_snoc(m: Seq<(Seq<char>, Seq<char>)>, i: int)
    requires
        0 <= i < m.len(),
    ensures
        meta_bytes(m.take(i + 1)) == meta_bytes(m.take(i)) + (blk(encode_utf8(m[i].0)) + blk(
            encode_utf8(m[i].1),
        )),
    decreases i,
{
    if i == 0 {
        assert(m.take(1) =~= seq![m[0]]);
        assert(m.take(1).drop_first() =~= Seq::<(Seq<char>, Seq<char>)>::empty());
        assert(m.take(0) =~= Seq::<(Seq<char>, Seq<char>)>::empty());
        assert(meta_bytes(m.take(1)) =~= meta_bytes(m.take(0)) + (blk(encode_utf8(m[0].0)) + blk(
            encode_utf8(m[0].1),
        )));
    } else {
        let d = m.drop_first();
        assert(m.take(i + 1).drop_first() =~= d.take(i));
        assert(m.take(i).drop_first() =~= d.take(i - 1));
        assert(m.take(i + 1)[0] == m[0]);
        assert(m.take(i)[0] == m[0]);
        lemma_meta_snoc(d, i - 1);
        assert(meta_bytes(m.take(i + 1)) =~= meta_bytes(m.take(i)) + (blk(encode_utf8(m[i].0))
            + blk(encode_utf8(m[i].1))));
    }
}

/// Build the capability-list payload; fails when an entry exceeds the
/// length prefix.
fn build_caps(caps: &Vec<String>) -> (r: Result<Vec<u8>, EncodeError>)
    ensures
        r matches Ok(b) ==> b@ == caps_bytes(caps.deep_view()) && (forall|i: int|
            0 <= i < caps.deep_view().len() ==> valid_str(#[trigger] caps.deep_view()[i])),
        r is Err ==> !(forall|i: int|
            0 <= i < caps.deep_view().len() ==> valid_str(#[trigger] caps.deep_view()[i])),
{
    let mut buf: Vec<u8> = Vec::new();
    let mut i: usize = 0;
    while i < caps.len()
        invariant
            i <= caps@.len(),
            caps.deep_view().len() == caps@.len(),
            buf@ == caps_bytes(caps.deep_view().take(i as int)),
            forall|q: int| 0 <= q < i ==> valid_str(#[trigger] caps.deep_view()[q]),
        decreases caps@.len() - i,
    {
        let ghost pre = buf@;
        match write_str_blk(&mut buf, &caps[i]) {
            Ok(()) => {},
            Err(e) => {
                proof {
                    assert(caps.deep_view()[i as int] == caps@[i as int]@);
                }
                return Err(e);
            },
        }
        proof {
            lemma_caps_snoc(caps.deep_view(), i as int);
            assert(caps.deep_view()[i as int] == caps@[i as int]@);
        }
        i = i + 1;
    }
    proof {
        assert(caps.deep_view().take(caps@.len() as int) =~= caps.deep_view());
    }
    Ok(buf)
}

/// Whether all metadata keys are distinct.
fn meta_keys_unique(meta: &Vec<(String, String)>) -> (r: bool)
    ensures
        r == (forall|a: int, b: int| #![trigger meta.deep_view()[a], meta.deep_view()[b]]
            0 <= a < b < meta.deep_view().len() ==> meta.deep_view()[a].0
                != meta.deep_view()[b].0),
{
    let n = meta.len();
    let mut i: usize = 0;
    while i < n
        invariant
            i <= n,
            n == meta@.len(),
            meta.deep_view().len() == meta@.len(),
            forall|a: int, b: int| #![trigger meta.deep_view()[a], meta.deep_view()[b]]
                0 <= a < b < n && a < i ==> meta.deep_view()[a].0 != meta.deep_view()[b].0,
        decreases n - i,
    {
        let mut j: usize = i + 1;
        while j < n
            invariant
                i < j <= n,
                n == meta@.len(),
                meta.deep_view().len() == meta@.len(),
                forall|b: int|
                    i < b < j ==> meta.deep_view()[i as int].0 != (#[trigger] meta.deep_view()[
                        b
                    ]).0,
            decreases n - j,
        {
            if meta[i].0 == meta[j].0 {
                proof {
                    assert(meta.deep_view()[i as int].0 == meta@[i as int].0@);
                    assert(meta.deep_view()[j as int].0 == meta@[j as int].0@);
                }
                return false;
            }
            proof {
                assert(meta.deep_view()[i as int].0 == meta@[i as int].0@);
                assert(meta.deep_view()[j as int].0 == meta@[j as int].0@);
            }
            j = j + 1;
        }
        i = i + 1;
    }
    true
}

/// Build the metadata payload; fails when a key or value exceeds the
/// length prefix.
fn build_meta(meta: &Vec<(String, String)>) -> (r: Result<Vec<u8>, EncodeError>)
    ensures
        r matches Ok(b) ==> b@ == meta_bytes(meta.deep_view()) && (forall|i: int|
            0 <= i < meta.deep_view().len() ==> valid_str((#[trigger] meta.deep_view()[i]).0)
                && valid_str(meta.deep_view()[i].1)),
        r is Err ==> !(forall|i: int|
            0 <= i < meta.deep_view().len() ==> valid_str((#[trigger] meta.deep_view()[i]).0)
                && valid_str(meta.deep_view()[i].1)),
{
    let mut buf: Vec<u8> = Vec::new();
    let mut i: usize = 0;
    while i < meta.len()
        invariant
            i <= meta@.len(),
            meta.deep_view().len() == meta@.len(),
            buf@ == meta_bytes(meta.deep_view().take(i as int)),
            forall|q: int|
                0 <= q < i ==> valid_str((#[trigger] meta.deep_view()[q]).0) && valid_str(
                    meta.deep_view()[q].1,
                ),
        decreases meta@.len() - i,
    {
        let ghost pre = buf@;
        proof {
            assert(meta.deep_view()[i as int].0 == meta@[i as int].0@);
            assert(meta.deep_view()[i as int].1 == meta@[i as int].1@);
        }
        match write_str_blk(&mut buf, &meta[i].0) {
            Ok(()) => {},
            Err(e) => {
                return Err(e);
            },
        }
        match write_str_blk(&mut buf, &meta[i].1) {
            Ok(()) => {},
            Err(e) => {
                return Err(e);
            },
        }
        proof {
            lemma_meta_snoc(meta.deep_view(), i as int);
            assert(buf@ =~= meta_bytes(meta.deep_view().take(i + 1)));
        }
        i = i + 1;
    }
    proof {
        assert(meta.deep_view().take(meta@.len() as int) =~= meta.deep_view());
    }
    Ok(buf)
}

/// Sequence concatenation is associative.
proof fn seq_assoc<A>(a: Seq<A>, b: Seq<A>, c: Seq<A>)
    ensures
        (a + b) + c == a + (b + c),
{
    assert((a + b) + c =~= a + (b + c));
}

/// The empty sequence is a left identity of concatenation.
proof fn seq_empty_left<A>(a: Seq<A>)
    ensures
        Seq::<A>::empty() + a == a,
{
    assert(Seq::<A>::empty() + a =~= a);
}

/// Write the four registration fields around a prebuilt capability
/// payload.
fn encode_registration_fields(
    worker_id: &String,
    max_threads: i32,
    version: &String,
    caps_payload: &Vec<u8>,
) -> (r: Result<Vec<u8>, EncodeError>)
    requires
        caps_payload@.len() <= 0xFFFF_FFFF,
    ensures
        valid_str(worker_id@) && valid_str(version@) ==> (r matches Ok(b) && b@ == fld(
            1,
            encode_utf8(worker_id@),
        ) + (fld(2, le32(max_threads as u32)) + (fld(3, encode_utf8(version@)) + fld(
            4,
            caps_payload@,
        )))),
        !(valid_str(worker_id@) && valid_str(version@)) ==> r is Err,
{
    let mut buf: Vec<u8> = Vec::new();
    write_str_field(&mut buf, 1, worker_id)?;
    write_u32_field(&mut buf, 2, max_threads as u32);
    write_str_field(&mut buf, 3, version)?;
    match write_bytes_field(&mut buf, 4, caps_payload) {
        Ok(()) => {},
        Err(e) => {
            return Err(e);
        },
    }
    proof {
        let f1 = fld(1, encode_utf8(worker_id@));
        let f2 = fld(2, le32(max_threads as u32));
        let f3 = fld(3, encode_utf8(version@));
        let f4 = fld(4, caps_payload@);
        seq_empty_left(f1);
        seq_assoc(f1 + f2, f3, f4);
        seq_assoc(f1, f2, f3 + f4);
    }
    Ok(buf)
}

/// Frame a registration body.
pub fn encode_registration(m: &crate::proto::Registration) -> (r: Result<Vec<u8>, EncodeError>)
    ensures
        valid_registration(m@) ==> (r matches Ok(b) && b@ == enc_registration(m@)),
        !valid_registration(m@) ==> r is Err,
{
    let caps = build_caps(&m.capabilities)?;
    if caps.len() > 0xFFFF_FFFFusize {
        return Err(EncodeError::Oversize);
    }
    let r = encode_registration_fields(&m.worker_id, m.max_threads, &m.version, &caps);
    proof {
        assert(m@.capabilities == m.capabilities.deep_view());
        assert(caps@ == caps_bytes(m@.capabilities));
        if valid_registration(m@) {
            assert(r matches Ok(b) && b@ == enc_registration(m@));
        }
    }
    r
}

/// Frame a heartbeat body.
#[verifier::rlimit(100)]
pub fn encode_heartbeat(m: &crate::proto::Heartbeat) -> (r: Result<Vec<u8>, EncodeError>)
    ensures
        valid_heartbeat(m@) ==> (r matches Ok(b) && b@ == enc_heartbeat(m@)),
        !valid_heartbeat(m@) ==> r is Err,
{
    if m.cpu_usage > 1_000_000 || m.mem_usage > 1_000_000 {
        return Err(EncodeError::InvalidValue);
    }
    let mut buf: Vec<u8> = Vec::new();
    write_str_field(&mut buf, 1, &m.worker_id)?;
    write_u64_field(&mut buf, 2, m.timestamp as u64);
    write_u32_field(&mut buf, 3, crate::proto::health_to_code(m.state));
    write_u32_field(&mut buf, 4, m.cpu_usage);
    write_u32_field(&mut buf, 5, m.mem_usage);
    write_u32_field(&mut buf, 6, m.net_latency);
    write_u32_field(&mut buf, 7, m.current_tasks);
    write_u32_field(&mut buf, 8, m.max_tasks);
    proof {
        let f1 = fld(1, encode_utf8(m@.worker_id));
        let f2 = fld(2, le64(m@.timestamp as u64));
        let f3 = fld(3, le32(health_code(m@.state)));
        let f4 = fld(4, le32(m@.cpu_usage));
        let f5 = fld(5, le32(m@.mem_usage));
        let f6 = fld(6, le32(m@.net_latency));
        let f7 = fld(7, le32(m@.current_tasks));
        let f8 = fld(8, le32(m@.max_tasks));
        seq_empty_left(f1);
        seq_assoc(f1 + f2 + f3 + f4 + f5 + f6, f7, f8);
        seq_assoc(f1 + f2 + f3 + f4 + f5, f6, f7 + f8);
        seq_assoc(f1 + f2 + f3 + f4, f5, f6 + (f7 + f8));
        seq_assoc(f1 + f2 + f3, f4, f5 + (f6 + (f7 + f8)));
        seq_assoc(f1 + f2, f3, f4 + (f5 + (f6 + (f7 + f8))));
        seq_assoc(f1, f2, f3 + (f4 + (f5 + (f6 + (f7 + f8)))));
        assert(buf@ == enc_heartbeat(m@));
    }
    Ok(buf)
}

/// Write the task fields around a prebuilt metadata payload.
fn encode_task_fields(
    id: &String,
    payload: &Vec<u8>,
    timestamp: i64,
    meta_payload: &Vec<u8>,
    priority: &Option<u32>,
) -> (r: Result<Vec<u8>, EncodeError>)
    requires
        meta_payload@.len() <= 0xFFFF_FFFF,
    ensures
        valid_str(id@) && payload@.len() <= 0xFFFF_FFFF ==> (r matches Ok(b) && b@ == fld(
            1,
            encode_utf8(id@),
        ) + (fld(2, payload@) + (fld(3, le64(timestamp as u64)) + (fld(4, meta_payload@) + (
        match *priority {
            Some(p) => fld(5, le32(p)),
            None => Seq::<u8>::empty(),
        }))))),
        !(valid_str(id@) && payload@.len() <= 0xFFFF_FFFF) ==> r is Err,
{
    let mut buf: Vec<u8> = Vec::new();
    write_str_field(&mut buf, 1, id)?;
    match write_bytes_field(&mut buf, 2, payload) {
        Ok(()) => {},
        Err(e) => {
            return Err(e);
        },
    }
    write_u64_field(&mut buf, 3, timestamp as u64);
    match write_bytes_field(&mut buf, 4, meta_payload) {
        Ok(()) => {},
        Err(e) => {
            return Err(e);
        },
    }
    match priority {
        Some(p) => {
            write_u32_field(&mut buf, 5, *p);
        },
        None => {},
    }
    proof {
        let f1 = fld(1, encode_utf8(id@));
        let f2 = fld(2, payload@);
        let f3 = fld(3, le64(timestamp as u64));
        let f4 = fld(4, meta_payload@);
        let opt = match *priority {
            Some(p) => fld(5, le32(p)),
            None => Seq::<u8>::empty(),
        };
        seq_empty_left(f1);
        match *priority {
            Some(p) => {
                seq_assoc(f1 + f2 + f3, f4, opt);
                seq_assoc(f1 + f2, f3, f4 + opt);
                seq_assoc(f1, f2, f3 + (f4 + opt));
            },
            None => {
                assert(f4 + opt =~= f4);
                seq_assoc(f1 + f2, f3, f4 + opt);
                seq_assoc(f1, f2, f3 + (f4 + opt));
            },
        }
    }
    Ok(buf)
}

/// Frame a task body.
pub fn encode_task(m: &crate::proto::Task) -> (r: Result<Vec<u8>, EncodeError>)
    ensures
        valid_task(m@) ==> (r matches Ok(b) && b@ == enc_task(m@)),
        !valid_task(m@) ==> r is Err,
{
    if !meta_keys_unique(&m.metadata) {
        return Err(EncodeError::DuplicateKey);
    }
    let meta = build_meta(&m.metadata)?;
    if meta.len() > 0xFFFF_FFFFusize {
        return Err(EncodeError::Oversize);
    }
    match m.priority {
        Some(p) => if p < 1 || p > 10 {
            return Err(EncodeError::InvalidValue);
        },
        None => {},
    }
    let r = encode_task_fields(&m.id, &m.payload, m.timestamp, &meta, &m.priority);
    proof {
        assert(m@.metadata == m.metadata.deep_view());
        assert(meta@ == meta_bytes(m@.metadata));
        if valid_task(m@) {
            assert(r matches Ok(b) && b@ == enc_task(m@));
        }
    }
    r
}

/// Frame a response body.
#[verifier::rlimit(100)]
pub fn encode_response(m: &crate::proto::Response) -> (r: Result<Vec<u8>, EncodeError>)
    ensures
        valid_response(m@) ==> (r matches Ok(b) && b@ == enc_response(m@)),
        !valid_response(m@) ==> r is Err,
{
    let mut buf: Vec<u8> = Vec::new();
    write_str_field(&mut buf, 1, &m.worker_id)?;
    match &m.result {
        None => Err(EncodeError::MissingResult),
        Some(crate::proto::ResponseResult::Output(b)) => {
            match write_bytes_field(&mut buf, 2, b) {
                Ok(()) => {},
                Err(e) => {
                    return Err(e);
                },
            }
            proof {
                seq_empty_left(fld(1, encode_utf8(m@.worker_id)));
                assert(buf@ == enc_response(m@));
            }
            Ok(buf)
        },
        Some(crate::proto::ResponseResult::Error(s)) => {
            write_str_field(&mut buf, 3, s)?;
            proof {
                seq_empty_left(fld(1, encode_utf8(m@.worker_id)));
                assert(buf@ == enc_response(m@));
            }
            Ok(buf)
        },
    }
}

/// Frame a whole message: kind byte, then its fields.
#[verifier::rlimit(100)]
pub fn encode_message(m: &crate::ProcessMessage) -> (r: Result<Vec<u8>, EncodeError>)
    ensures
        valid_message(m@) ==> (r matches Ok(b) && b@ == enc_message(m@)),
        !valid_message(m@) ==> r is Err,
{
    let (kind, body) = match m {
        crate::ProcessMessage::Registration(v) => (KIND_REGISTRATION, encode_registration(v)?),
        crate::ProcessMessage::Heartbeat(v) => (KIND_HEARTBEAT, encode_heartbeat(v)?),
        crate::ProcessMessage::Task(v) => (KIND_TASK, encode_task(v)?),
        crate::ProcessMessage::TaskResponse(v) => (KIND_RESPONSE, encode_response(v)?),
    };
    let mut buf: Vec<u8> = Vec::new();
    buf.push(kind);
    write_slice(&mut buf, body.as_slice());
    proof {
        seq_empty_left(seq![kind]);
        assert(buf@ == enc_message(m@));
    }
    Ok(buf)
}

/// Read four little-endian bytes at a position.
fn read_u32_at(bytes: &Vec<u8>, pos: usize) -> (r: u32)
    requires
        pos + 4 <= bytes@.len(),
    ensures
        r == le32_val(bytes@.subrange(pos as int, pos + 4)),
{
    let n = bytes.len();
    let b0 = bytes[pos] as u32;
    let b1 = bytes[pos + 1] as u32;
    let b2 = bytes[pos + 2] as u32;
    let b3 = bytes[pos + 3] as u32;
    let r = b0 + b1 * 256 + b2 * 65536 + b3 * 16777216;
    proof {
        let s = bytes@.subrange(pos as int, pos + 4);
        assert(s[0] == bytes@[pos as int] && s[1] == bytes@[pos + 1] && s[2] == bytes@[pos + 2]
            && s[3] == bytes@[pos + 3]);
    }
    r
}

/// Read eight little-endian bytes at a position.
fn read_u64_at(bytes: &Vec<u8>, pos: usize) -> (r: u64)
    requires
        pos + 8 <= bytes@.len(),
    ensures
        r == le64_val(bytes@.subrange(pos as int, pos + 8)),
{
    let n = bytes.len();
    let lo = read_u32_at(bytes, pos);
    let hi = read_u32_at(bytes, pos + 4);
    let r = lo as u64 + (hi as u64) * 4294967296;
    proof {
        let s = bytes@.subrange(pos as int, pos + 8);
        assert(s.subrange(0, 4) =~= bytes@.subrange(pos as int, pos + 4));
        assert(s.subrange(4, 8) =~= bytes@.subrange(pos + 4, pos + 8));
    }
    r
}

/// Copy a byte range out of the buffer.
fn read_vec(bytes: &Vec<u8>, pos: usize, len: usize) -> (r: Vec<u8>)
    requires
        pos + len <= bytes@.len(),
    ensures
        r@ == bytes@.subrange(pos as int, pos + len),
{
    let n = bytes.len();
    let mut r: Vec<u8> = Vec::new();
    let mut i: usize = 0;
    while i < len
        invariant
            i <= len,
            pos + len <= n == bytes@.len(),
            r@ == bytes@.subrange(pos as int, pos + i),
        decreases len - i,
    {
        r.push(bytes[pos + i]);
        proof {
            assert(r@ =~= bytes@.subrange(pos as int, pos + i + 1));
        }
        i = i + 1;
    }
    r
}

/// Read one field with the expected tag at a position; the result
/// mirrors `take_fld` on the remaining bytes.
fn read_field(bytes: &Vec<u8>, pos: usize, tag: u8) -> (r: Result<(usize, usize), DecodeError>)
    requires
        pos <= bytes@.len(),
    ensures
        ({
            let t = bytes@.subrange(pos as int, bytes@.len() as int);
            &&& (r matches Ok(pl) ==> pl.0 == pos + 5 && pl.0 + pl.1 <= bytes@.len() && take_fld(
                t,
                tag,
            ) == Some(
                (
                    bytes@.subrange(pl.0 as int, pl.0 + pl.1),
                    bytes@.subrange(pl.0 + pl.1, bytes@.len() as int),
                ),
            ))
            &&& (r is Err ==> take_fld(t, tag) is None)
        }),
{
    let n = bytes.len();
    let ghost t = bytes@.subrange(pos as int, bytes@.len() as int);
    if n - pos < 5 {
        return Err(DecodeError::Truncated);
    }
    if bytes[pos] != tag {
        proof {
            assert(t[0] == bytes@[pos as int]);
        }
        return Err(DecodeError::UnexpectedTag);
    }
    let l = read_u32_at(bytes, pos + 1);
    proof {
        assert(t[0] == bytes@[pos as int]);
        assert(t.subrange(1, 5) =~= bytes@.subrange(pos + 1, pos + 5));
    }
    if (l as usize) > n - (pos + 5) {
        return Err(DecodeError::Truncated);
    }
    proof {
        assert(t.subrange(5, 5 + l as int) =~= bytes@.subrange(pos + 5, pos + 5 + l as int));
        assert(t.subrange(5 + l as int, t.len() as int) =~= bytes@.subrange(
            pos + 5 + l as int,
            bytes@.len() as int,
        ));
    }
    Ok((pos + 5, l as usize))
}

/// Read a run of string blocks out of a byte range; the result mirrors
/// `parse_str_blks` on that range.
fn read_str_blocks(bytes: &Vec<u8>, start: usize, end: usize) -> (r: Result<
    Vec<String>,
    DecodeError,
>)
    requires
        start <= end <= bytes@.len(),
    ensures
        ({
            let p = bytes@.subrange(start as int, end as int);
            &&& (r matches Ok(d) ==> parse_str_blks(p) == Some(d.deep_view()))
            &&& (r is Err ==> parse_str_blks(p) is None)
        }),
{
    let ghost p0 = bytes@.subrange(start as int, end as int);
    let mut out: Vec<String> = Vec::new();
    let mut cur: usize = start;
    while cur < end
        invariant
            start <= cur <= end <= bytes@.len(),
            p0 == bytes@.subrange(start as int, end as int),
            ({
                let t = bytes@.subrange(cur as int, end as int);
                &&& (parse_str_blks(t) matches Some(rest) ==> parse_str_blks(p0) == Some(
                    out.deep_view() + rest,
                ))
                &&& (parse_str_blks(t) is None ==> parse_str_blks(p0) is None)
            }),
        decreases end - cur,
    {
        let ghost t = bytes@.subrange(cur as int, end as int);
        if end - cur < 4 {
            proof {
                assert(parse_str_blks(t) is None);
            }
            return Err(DecodeError::Truncated);
        }
        let l = read_u32_at(bytes, cur);
        proof {
            assert(t.subrange(0, 4) =~= bytes@.subrange(cur as int, cur + 4));
        }
        if (l as usize) > end - (cur + 4) {
            proof {
                assert(parse_str_blks(t) is None);
            }
            return Err(DecodeError::Truncated);
        }
        let piece = read_vec(bytes, cur + 4, l as usize);
        proof {
            assert(t.subrange(4, 4 + l as int) =~= piece@);
        }
        let s = match bytes_to_string(&piece) {
            Some(s) => s,
            None => {
                proof {
                    assert(parse_string(t.subrange(4, 4 + l as int)) is None);
                    assert(parse_str_blks(t) is None);
                }
                return Err(DecodeError::InvalidUtf8);
            },
        };
        let ghost pre = out.deep_view();
        out.push(s);
        let next = cur + 4 + l as usize;
        proof {
            assert(out.deep_view() =~= pre.push(s@));
            let t2 = bytes@.subrange(next as int, end as int);
            assert(t.subrange(4 + l as int, t.len() as int) =~= t2);
            if parse_str_blks(t2) is Some {
                let rest = parse_str_blks(t2)->Some_0;
                assert(parse_str_blks(t) == Some(seq![s@] + rest));
                assert(pre.push(s@) + rest =~= pre + (seq![s@] + rest));
            }
        }
        cur = next;
    }
    proof {
        let t = bytes@.subrange(cur as int, end as int);
        assert(t.len() == 0);
        assert(parse_str_blks(t) == Some(Seq::<Seq<char>>::empty()));
        assert(out.deep_view() + Seq::<Seq<char>>::empty() =~= out.deep_view());
    }
    Ok(out)
}

/// Read a run of key and value blocks out of a byte range; the result
/// mirrors `parse_kv_blks` on that range.
#[verifier::rlimit(100)]
fn read_kv_blocks(bytes: &Vec<u8>, start: usize, end: usize) -> (r: Result<
    Vec<(String, String)>,
    DecodeError,
>)
    requires
        start <= end <= bytes@.len(),
    ensures
        ({
            let p = bytes@.subrange(start as int, end as int);
            &&& (r matches Ok(d) ==> parse_kv_blks(p) == Some(d.deep_view()))
            &&& (r is Err ==> parse_kv_blks(p) is None)
        }),
{
    let ghost p0 = bytes@.subrange(start as int, end as int);
    let mut out: Vec<(String, String)> = Vec::new();
    let mut cur: usize = start;
    while cur < end
        invariant
            start <= cur <= end <= bytes@.len(),
            p0 == bytes@.subrange(start as int, end as int),
            ({
                let t = bytes@.subrange(cur as int, end as int);
                &&& (parse_kv_blks(t) matches Some(rest) ==> parse_kv_blks(p0) == Some(
                    out.deep_view() + rest,
                ))
                &&& (parse_kv_blks(t) is None ==> parse_kv_blks(p0) is None)
            }),
        decreases end - cur,
    {
        let ghost t = bytes@.subrange(cur as int, end as int);
        if end - cur < 4 {
            proof {
                assert(parse_kv_blks(t) is None);
            }
            return Err(DecodeError::Truncated);
        }
        let lk = read_u32_at(bytes, cur);
        proof {
            assert(t.subrange(0, 4) =~= bytes@.subrange(cur as int, cur + 4));
        }
        if (lk as usize) > end - (cur + 4) || end - (cur + 4 + lk as usize) < 4 {
            proof {
                assert(parse_kv_blks(t) is None);
            }
            return Err(DecodeError::Truncated);
        }
        let kpos = cur + 4;
        let vlenpos = kpos + lk as usize;
        let lv = read_u32_at(bytes, vlenpos);
        proof {
            assert(t.subrange(4 + lk as int, 4 + lk as int + 4) =~= bytes@.subrange(
                vlenpos as int,
                vlenpos + 4,
            ));
        }
        if (lv as usize) > end - (vlenpos + 4) {
            proof {
                assert(parse_kv_blks(t) is None);
            }
            return Err(DecodeError::Truncated);
        }
        let kpiece = read_vec(bytes, kpos, lk as usize);
        let vpiece = read_vec(bytes, vlenpos + 4, lv as usize);
        proof {
            assert(t.subrange(4, 4 + lk as int) =~= kpiece@);
            assert(t.subrange(4 + lk as int + 4, 4 + lk as int + 4 + lv as int) =~= vpiece@);
        }
        let k = match bytes_to_string(&kpiece) {
            Some(s) => s,
            None => {
                proof {
                    assert(parse_string(t.subrange(4, 4 + lk as int)) is None);
                    assert(parse_kv_blks(t) is None);
                }
                return Err(DecodeError::InvalidUtf8);
            },
        };
        let v = match bytes_to_string(&vpiece) {
            Some(s) => s,
            None => {
                proof {
                    assert(parse_string(
                        t.subrange(4 + lk as int + 4, 4 + lk as int + 4 + lv as int),
                    ) is None);
                    assert(parse_kv_blks(t) is None);
                }
                return Err(DecodeError::InvalidUtf8);
            },
        };
        let ghost pre = out.deep_view();
        let next = vlenpos + 4 + lv as usize;
        out.push((k, v));
        proof {
            assert(out.deep_view() =~= pre.push((k@, v@)));
            let t2 = bytes@.subrange(next as int, end as int);
            assert(t.subrange(4 + lk as int + 4 + lv as int, t.len() as int) =~= t2);
            if parse_kv_blks(t2) is Some {
                let rest = parse_kv_blks(t2)->Some_0;
                assert(parse_kv_blks(t) == Some(seq![(k@, v@)] + rest));
                assert(pre.push((k@, v@)) + rest =~= pre + (seq![(k@, v@)] + rest));
            }
        }
        cur = next;
    }
    proof {
        let t = bytes@.subrange(cur as int, end as int);
        assert(t.len() == 0);
        assert(parse_kv_blks(t) == Some(Seq::<(Seq<char>, Seq<char>)>::empty()));
        assert(out.deep_view() + Seq::<(Seq<char>, Seq<char>)>::empty() =~= out.deep_view());
    }
    Ok(out)
}

/// Read a registration frame body; the result mirrors `reg_parse`.
#[verifier::rlimit(100)]
pub fn decode_registration(bytes: &Vec<u8>) -> (r: Result<crate::proto::Registration, DecodeError>)
    ensures
        reg_parse(bytes@) matches Some(v) ==> (r matches Ok(d) && d@ == v),
        reg_parse(bytes@) is None ==> r is Err,
{
    let n = bytes.len();
    proof {
        assert(bytes@.subrange(0, bytes@.len() as int) =~= bytes@);
    }
    let (s1, l1) = match read_field(bytes, 0, 1) {
        Ok(p) => p,
        Err(e) => {
            return Err(e);
        },
    };
    let wid_b = read_vec(bytes, s1, l1);
    let wid = match bytes_to_string(&wid_b) {
        Some(s) => s,
        None => {
            return Err(DecodeError::InvalidUtf8);
        },
    };
    let pos2 = s1 + l1;
    let (s2, l2) = match read_field(bytes, pos2, 2) {
        Ok(p) => p,
        Err(e) => {
            return Err(e);
        },
    };
    if l2 != 4 {
        return Err(DecodeError::InvalidValue);
    }
    let mt = read_u32_at(bytes, s2) as i32;
    let pos3 = s2 + l2;
    let (s3, l3) = match read_field(bytes, pos3, 3) {
        Ok(p) => p,
        Err(e) => {
            return Err(e);
        },
    };
    let ver_b = read_vec(bytes, s3, l3);
    let ver = match bytes_to_string(&ver_b) {
        Some(s) => s,
        None => {
            return Err(DecodeError::InvalidUtf8);
        },
    };
    let pos4 = s3 + l3;
    let (s4, l4) = match read_field(bytes, pos4, 4) {
        Ok(p) => p,
        Err(e) => {
            return Err(e);
        },
    };
    if s4 + l4 != n {
        return Err(DecodeError::InvalidValue);
    }
    let caps = match read_str_blocks(bytes, s4, s4 + l4) {
        Ok(c) => c,
        Err(e) => {
            return Err(e);
        },
    };
    let d = crate::proto::Registration { worker_id: wid, max_threads: mt, version: ver, capabilities: caps };
    proof {
        if reg_parse(bytes@) is Some {
            assert(d@ =~= reg_parse(bytes@)->Some_0);
        }
        assert(reg_parse(bytes@) is Some);
    }
    Ok(d)
}

/// Read a heartbeat frame body; the result mirrors `hb_parse`.
#[verifier::rlimit(100)]
pub fn decode_heartbeat(bytes: &Vec<u8>) -> (r: Result<crate::proto::Heartbeat, DecodeError>)
    ensures
        hb_parse(bytes@) matches Some(v) ==> (r matches Ok(d) && d@ == v),
        hb_parse(bytes@) is None ==> r is Err,
{
    let n = bytes.len();
    proof {
        assert(bytes@.subrange(0, bytes@.len() as int) =~= bytes@);
    }
    let (s1, l1) = match read_field(bytes, 0, 1) {
        Ok(p) => p,
        Err(e) => {
            return Err(e);
        },
    };
    let wid_b = read_vec(bytes, s1, l1);
    let wid = match bytes_to_string(&wid_b) {
        Some(s) => s,
        None => {
            return Err(DecodeError::InvalidUtf8);
        },
    };
    let (s2, l2) = match read_field(bytes, s1 + l1, 2) {
        Ok(p) => p,
        Err(e) => {
            return Err(e);
        },
    };
    if l2 != 8 {
        return Err(DecodeError::InvalidValue);
    }
    let ts = read_u64_at(bytes, s2) as i64;
    let (s3, l3) = match read_field(bytes, s2 + l2, 3) {
        Ok(p) => p,
        Err(e) => {
            return Err(e);
        },
    };
    if l3 != 4 {
        return Err(DecodeError::InvalidValue);
    }
    let st = match crate::proto::health_from_code(read_u32_at(bytes, s3)) {
        Some(h) => h,
        None => {
            return Err(DecodeError::InvalidValue);
        },
    };
    let (s4, l4) = match read_field(bytes, s3 + l3, 4) {
        Ok(p) => p,
        Err(e) => {
            return Err(e);
        },
    };
    if l4 != 4 {
        return Err(DecodeError::InvalidValue);
    }
    let cpu = read_u32_at(bytes, s4);
    if cpu > 1_000_000 {
        return Err(DecodeError::InvalidValue);
    }
    let (s5, l5) = match read_field(bytes, s4 + l4, 5) {
        Ok(p) => p,
        Err(e) => {
            return Err(e);
        },
    };
    if l5 != 4 {
        return Err(DecodeError::InvalidValue);
    }
    let mem = read_u32_at(bytes, s5);
    if mem > 1_000_000 {
        return Err(DecodeError::InvalidValue);
    }
    let (s6, l6) = match read_field(bytes, s5 + l5, 6) {
        Ok(p) => p,
        Err(e) => {
            return Err(e);
        },
    };
    if l6 != 4 {
        return Err(DecodeError::InvalidValue);
    }
    let lat = read_u32_at(bytes, s6);
    let (s7, l7) = match read_field(bytes, s6 + l6, 7) {
        Ok(p) => p,
        Err(e) => {
            return Err(e);
        },
    };
    if l7 != 4 {
        return Err(DecodeError::InvalidValue);
    }
    let cur = read_u32_at(bytes, s7);
    let (s8, l8) = match read_field(bytes, s7 + l7, 8) {
        Ok(p) => p,
        Err(e) => {
            return Err(e);
        },
    };
    if l8 != 4 || s8 + l8 != n {
        return Err(DecodeError::InvalidValue);
    }
    let maxt = read_u32_at(bytes, s8);
    let d = crate::proto::Heartbeat {
        worker_id: wid,
        timestamp: ts,
        state: st,
        cpu_usage: cpu,
        mem_usage: mem,
        net_latency: lat,
        current_tasks: cur,
        max_tasks: maxt,
    };
    proof {
        if hb_parse(bytes@) is Some {
            assert(d@ =~= hb_parse(bytes@)->Some_0);
        }
        assert(hb_parse(bytes@) is Some);
    }
    Ok(d)
}

/// Read a task frame body; the result mirrors `task_parse`.
#[verifier::rlimit(100)]
pub fn decode_task(bytes: &Vec<u8>) -> (r: Result<crate::proto::Task, DecodeError>)
    ensures
        task_parse(bytes@) matches Some(v) ==> (r matches Ok(d) && d@ == v),
        task_parse(bytes@) is None ==> r is Err,
{
    let n = bytes.len();
    proof {
        assert(bytes@.subrange(0, bytes@.len() as int) =~= bytes@);
    }
    let (s1, l1) = match read_field(bytes, 0, 1) {
        Ok(p) => p,
        Err(e) => {
            return Err(e);
        },
    };
    let id_b = read_vec(bytes, s1, l1);
    let id = match bytes_to_string(&id_b) {
        Some(s) => s,
        None => {
            return Err(DecodeError::InvalidUtf8);
        },
    };
    let (s2, l2) = match read_field(bytes, s1 + l1, 2) {
        Ok(p) => p,
        Err(e) => {
            return Err(e);
        },
    };
    let payload = read_vec(bytes, s2, l2);
    let (s3, l3) = match read_field(bytes, s2 + l2, 3) {
        Ok(p) => p,
        Err(e) => {
            return Err(e);
        },
    };
    if l3 != 8 {
        return Err(DecodeError::InvalidValue);
    }
    let ts = read_u64_at(bytes, s3) as i64;
    let (s4, l4) = match read_field(bytes, s3 + l3, 4) {
        Ok(p) => p,
        Err(e) => {
            return Err(e);
        },
    };
    let meta = match read_kv_blocks(bytes, s4, s4 + l4) {
        Ok(m) => m,
        Err(e) => {
            return Err(e);
        },
    };
    let pos5 = s4 + l4;
    if pos5 == n {
        let d = crate::proto::Task { id, payload, timestamp: ts, metadata: meta, priority: None };
        proof {
            if task_parse(bytes@) is Some {
                assert(d@ =~= task_parse(bytes@)->Some_0);
            }
            assert(task_parse(bytes@) is Some);
        }
        return Ok(d);
    }
    let (s5, l5) = match read_field(bytes, pos5, 5) {
        Ok(p) => p,
        Err(e) => {
            return Err(e);
        },
    };
    if l5 != 4 || s5 + l5 != n {
        return Err(DecodeError::InvalidValue);
    }
    let p = read_u32_at(bytes, s5);
    if p < 1 || p > 10 {
        return Err(DecodeError::InvalidValue);
    }
    let d = crate::proto::Task { id, payload, timestamp: ts, metadata: meta, priority: Some(p) };
    proof {
        if task_parse(bytes@) is Some {
            assert(d@ =~= task_parse(bytes@)->Some_0);
        }
        assert(task_parse(bytes@) is Some);
    }
    Ok(d)
}

/// Read a response frame body; the result mirrors `resp_parse`.
#[verifier::rlimit(100)]
pub fn decode_response(bytes: &Vec<u8>) -> (r: Result<crate::proto::Response, DecodeError>)
    ensures
        resp_parse(bytes@) matches Some(v) ==> (r matches Ok(d) && d@ == v),
        resp_parse(bytes@) is None ==> r is Err,
{
    let n = bytes.len();
    proof {
        assert(bytes@.subrange(0, bytes@.len() as int) =~= bytes@);
    }
    let (s1, l1) = match read_field(bytes, 0, 1) {
        Ok(p) => p,
        Err(e) => {
            return Err(e);
        },
    };
    let wid_b = read_vec(bytes, s1, l1);
    let wid = match bytes_to_string(&wid_b) {
        Some(s) => s,
        None => {
            return Err(DecodeError::InvalidUtf8);
        },
    };
    let pos2 = s1 + l1;
    match read_field(bytes, pos2, 2) {
        Ok((s2, l2)) => {
            if s2 + l2 != n {
                return Err(DecodeError::InvalidValue);
            }
            let out = read_vec(bytes, s2, l2);
            let d = crate::proto::Response {
                worker_id: wid,
                result: Some(crate::proto::ResponseResult::Output(out)),
            };
            proof {
                if resp_parse(bytes@) is Some {
                    assert(d@ =~= resp_parse(bytes@)->Some_0);
                }
                assert(resp_parse(bytes@) is Some);
            }
            Ok(d)
        },
        Err(_) => {
            let (s3, l3) = match read_field(bytes, pos2, 3) {
                Ok(p) => p,
                Err(e) => {
                    return Err(e);
                },
            };
            if s3 + l3 != n {
                return Err(DecodeError::InvalidValue);
            }
            let err_b = read_vec(bytes, s3, l3);
            let msg = match bytes_to_string(&err_b) {
                Some(s) => s,
                None => {
                    return Err(DecodeError::InvalidUtf8);
                },
            };
            let d = crate::proto::Response {
                worker_id: wid,
                result: Some(crate::proto::ResponseResult::Error(msg)),
            };
            proof {
                if resp_parse(bytes@) is Some {
                    assert(d@ =~= resp_parse(bytes@)->Some_0);
                }
                assert(resp_parse(bytes@) is Some);
            }
            Ok(d)
        },
    }
}

/// Read a whole frame; the result mirrors `msg_parse` exactly, so a
/// frame decodes if and only if its kind byte names a schema and its
/// fields carry that schema's tags, in order, with in-range values.
/// Together with the encoders this gives the round trip: decoding the
/// encoding of any message the codec can carry yields exactly that
/// message.
#[verifier::rlimit(100)]
pub fn decode_message(bytes: &Vec<u8>) -> (r: Result<crate::ProcessMessage, DecodeError>)
    ensures
        msg_parse(bytes@) matches Some(v) ==> (r matches Ok(d) && d@ == v),
        msg_parse(bytes@) is None ==> r is Err,
{
    let n = bytes.len();
    if n < 1 {
        return Err(DecodeError::Truncated);
    }
    let kind = bytes[0];
    let body = read_vec(bytes, 1, n - 1);
    proof {
        assert(body@ == bytes@.subrange(1, bytes@.len() as int));
    }
    if kind == KIND_REGISTRATION {
        match decode_registration(&body) {
            Ok(d) => Ok(crate::ProcessMessage::Registration(d)),
            Err(e) => Err(e),
        }
    } else if kind == KIND_HEARTBEAT {
        match decode_heartbeat(&body) {
            Ok(d) => Ok(crate::ProcessMessage::Heartbeat(d)),
            Err(e) => Err(e),
        }
    } else if kind == KIND_TASK {
        match decode_task(&body) {
            Ok(d) => Ok(crate::ProcessMessage::Task(d)),
            Err(e) => Err(e),
        }
    } else if kind == KIND_RESPONSE {
        match decode_response(&body) {
            Ok(d) => Ok(crate::ProcessMessage::TaskResponse(d)),
            Err(e) => Err(e),
        }
    } else {
        Err(DecodeError::UnknownKind)
    }
}

} // verus!
