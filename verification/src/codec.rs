//! Byte encoding of the metrics records for the persistence boundary.
//!
//! A record is framed as one tag byte followed by its fields, each a 64-bit
//! little-endian word; signed fields are carried in offset-binary form.
//! Decoding checks the frame and every field range, so a decoded record is
//! field-for-field the one that was encoded.

use vstd::prelude::*;

use crate::nback_metrics::NBackMetrics;
use crate::pvt_metrics::PvtMetrics;

verus! {

/// Frame tag of an encoded PVT record.
pub const PVT_TAG: u8 = 1;

/// Frame tag of an encoded 2-back record.
pub const NBACK_TAG: u8 = 2;

/// Powers of 256.
pub open spec fn pow256(k: nat) -> int
    decreases k,
{
    if k == 0 {
        1
    } else {
        256 * pow256((k - 1) as nat)
    }
}

proof fn lemma_pow256_values()
    ensures
        pow256(0) == 1,
        pow256(1) == 0x100,
        pow256(2) == 0x1_0000,
        pow256(3) == 0x100_0000,
        pow256(4) == 0x1_0000_0000,
        pow256(5) == 0x100_0000_0000,
        pow256(6) == 0x1_0000_0000_0000,
        pow256(7) == 0x100_0000_0000_0000,
        pow256(8) == 0x1_0000_0000_0000_0000,
{
    assert(pow256(1) == 256 * pow256(0));
    assert(pow256(2) == 256 * pow256(1));
    assert(pow256(3) == 256 * pow256(2));
    assert(pow256(4) == 256 * pow256(3));
    assert(pow256(5) == 256 * pow256(4));
    assert(pow256(6) == 256 * pow256(5));
    assert(pow256(7) == 256 * pow256(6));
    assert(pow256(8) == 256 * pow256(7));
}

/// The `k` little-endian bytes of `n`.
pub open spec fn le_bytes(n: int, k: nat) -> Seq<u8>
    decreases k,
{
    if k == 0 {
        Seq::empty()
    } else {
        seq![(n % 256) as u8] + le_bytes(n / 256, (k - 1) as nat)
    }
}

/// The value a little-endian byte list denotes.
pub open spec fn le_value(s: Seq<u8>) -> int
    decreases s.len(),
{
    if s.len() == 0 {
        0
    } else {
        s[0] + 256 * le_value(s.drop_first())
    }
}

/// Writing `k` bytes and reading them back returns the value.
pub proof fn lemma_le_round_trip(n: int, k: nat)
    requires
        0 <= n < pow256(k),
    ensures
        le_bytes(n, k).len() == k,
        le_value(le_bytes(n, k)) == n,
    decreases k,
{
    if k > 0 {
        assert(n / 256 < pow256((k - 1) as nat)) by (nonlinear_arith)
            requires
                0 <= n < 256 * pow256((k - 1) as nat),
        ;
        vstd::arithmetic::div_mod::lemma_div_pos_is_pos(n, 256);
        lemma_le_round_trip(n / 256, (k - 1) as nat);
        assert(le_bytes(n, k).drop_first() =~= le_bytes(n / 256, (k - 1) as nat));
        vstd::arithmetic::div_mod::lemma_fundamental_div_mod(n, 256);
    }
}

/// Extending the byte count appends the next byte of the value.
proof fn lemma_le_bytes_snoc(n: int, k: nat)
    requires
        n >= 0,
    ensures
        le_bytes(n, (k + 1) as nat) == le_bytes(n, k).push((((n / pow256(k)) % 256)) as u8),
    decreases k,
{
    if k == 0 {
        assert(le_bytes(n / 256, 0) =~= Seq::<u8>::empty());
        assert(n / pow256(0) == n);
        assert(le_bytes(n, 1) =~= Seq::<u8>::empty().push((n % 256) as u8));
        assert(le_bytes(n, 0) =~= Seq::<u8>::empty());
    } else {
        vstd::arithmetic::div_mod::lemma_div_pos_is_pos(n, 256);
        lemma_le_bytes_snoc(n / 256, (k - 1) as nat);
        assert((n / 256) / pow256((k - 1) as nat) == n / pow256(k)) by {
            lemma_pow256_pos((k - 1) as nat);
            vstd::arithmetic::div_mod::lemma_div_denominator(n, 256, pow256((k - 1) as nat));
            assert(pow256(k) == 256 * pow256((k - 1) as nat));
        }
        assert(le_bytes(n, (k + 1) as nat) =~= le_bytes(n, k).push(
            (((n / pow256(k)) % 256)) as u8,
        ));
    }
}

proof fn lemma_pow256_pos(k: nat)
    ensures
        pow256(k) >= 1,
    decreases k,
{
    if k > 0 {
        lemma_pow256_pos((k - 1) as nat);
    }
}

/// Append the eight little-endian bytes of `w`.
fn push_word(out: &mut Vec<u8>, w: u64)
    ensures
        final(out)@ == old(out)@ + le_bytes(w as int, 8),
{
    let ghost base = out@;
    let mut cur: u64 = w;
    let mut i: usize = 0;
    proof {
        lemma_pow256_values();
        assert(out@ =~= base + le_bytes(w as int, 0));
    }
    while i < 8
        invariant
            0 <= i <= 8,
            out@ == base + le_bytes(w as int, i as nat),
            cur == (w as int) / pow256(i as nat),
        decreases 8 - i,
    {
        proof {
            lemma_le_bytes_snoc(w as int, i as nat);
            lemma_pow256_pos(i as nat);
            vstd::arithmetic::div_mod::lemma_div_denominator(w as int, pow256(i as nat), 256);
            assert(pow256((i + 1) as nat) == 256 * pow256(i as nat));
            assert(pow256(i as nat) * 256 == 256 * pow256(i as nat)) by (nonlinear_arith);
        }
        let b: u8 = (cur % 256) as u8;
        out.push(b);
        proof {
            assert(out@ =~= base + le_bytes(w as int, (i + 1) as nat));
        }
        cur = cur / 256;
        i = i + 1;
    }
}

/// Read the word at byte offset `pos`.
fn read_word(bytes: &Vec<u8>, pos: usize) -> (r: u64)
    requires
        pos + 8 <= bytes@.len(),
    ensures
        r as int == le_value(bytes@.subrange(pos as int, pos as int + 8)),
{
    let ghost s = bytes@.subrange(pos as int, pos as int + 8);
    let n: usize = bytes.len();
    let mut acc: u64 = 0;
    let mut i: usize = 0;
    proof {
        lemma_pow256_values();
        assert(s.skip(8) =~= Seq::<u8>::empty());
        lemma_le_value_bound(s.skip(8));
    }
    while i < 8
        invariant
            0 <= i <= 8,
            pos + 8 <= n,
            n == bytes@.len(),
            s == bytes@.subrange(pos as int, pos as int + 8),
            acc as int == le_value(s.skip(8 - i)),
            acc < pow256(i as nat),
        decreases 8 - i,
    {
        proof {
            lemma_pow256_values();
            let j = 8 - (i as int) - 1;
            assert(s.skip(j).drop_first() =~= s.skip(j + 1));
            lemma_le_value_bound(s.skip(j + 1));
            assert(s.skip(j)[0] == s[j]);
            assert(pow256((i + 1) as nat) == 256 * pow256(i as nat));
        }
        let off: usize = 7 - i;
        let b: u8 = bytes[pos + off];
        proof {
            assert(bytes@[pos as int + (7 - i as int)] == s[8 - (i as int) - 1]);
        }
        acc = acc * 256 + b as u64;
        i = i + 1;
    }
    proof {
        assert(s.skip(0) =~= s);
    }
    acc
}

/// Every byte list denotes a value below `pow256` of its length.
proof fn lemma_le_value_bound(s: Seq<u8>)
    ensures
        0 <= le_value(s) < pow256(s.len()),
    decreases s.len(),
{
    if s.len() > 0 {
        lemma_le_value_bound(s.drop_first());
        assert(pow256(s.len()) == 256 * pow256((s.len() - 1) as nat));
    }
}

/// Bytes of a word list, in order.
pub open spec fn words_bytes(ws: Seq<u64>) -> Seq<u8>
    decreases ws.len(),
{
    if ws.len() == 0 {
        Seq::empty()
    } else {
        le_bytes(ws[0] as int, 8) + words_bytes(ws.drop_first())
    }
}

/// Word list of a byte payload (groups of eight, little endian).
pub open spec fn bytes_words(s: Seq<u8>) -> Seq<u64>
    decreases s.len(),
{
    if s.len() < 8 {
        Seq::empty()
    } else {
        seq![le_value(s.take(8)) as u64] + bytes_words(s.skip(8))
    }
}

/// A framed record: the tag byte, then the fields as words.
pub open spec fn frame_spec(tag: u8, ws: Seq<u64>) -> Seq<u8> {
    seq![tag] + words_bytes(ws)
}

/// Serializing a word list and grouping it back returns the same words.
pub proof fn lemma_words_round_trip(ws: Seq<u64>)
    ensures
        words_bytes(ws).len() == 8 * ws.len(),
        bytes_words(words_bytes(ws)) == ws,
    decreases ws.len(),
{
    lemma_pow256_values();
    if ws.len() > 0 {
        lemma_words_round_trip(ws.drop_first());
        lemma_le_round_trip(ws[0] as int, 8);
        let all = words_bytes(ws);
        assert(all.take(8) =~= le_bytes(ws[0] as int, 8));
        assert(all.skip(8) =~= words_bytes(ws.drop_first()));
        assert(bytes_words(all) =~= ws);
    }
}

/// Field values of a word payload, one word per field.
proof fn lemma_bytes_words_index(s: Seq<u8>, i: int)
    requires
        0 <= i,
        8 * i + 8 <= s.len(),
    ensures
        bytes_words(s).len() >= i + 1,
        bytes_words(s)[i] as int == le_value(s.subrange(8 * i, 8 * i + 8)),
    decreases i,
{
    lemma_pow256_values();
    lemma_le_value_bound(s.take(8));
    if i == 0 {
        assert(s.take(8) =~= s.subrange(0, 8));
        assert(bytes_words(s)[0] == le_value(s.take(8)) as u64);
    } else {
        lemma_bytes_words_index(s.skip(8), i - 1);
        assert(s.skip(8).subrange(8 * (i - 1), 8 * (i - 1) + 8) =~= s.subrange(8 * i, 8 * i + 8));
        assert(bytes_words(s) == seq![le_value(s.take(8)) as u64] + bytes_words(s.skip(8)));
        assert(bytes_words(s)[i] == bytes_words(s.skip(8))[i - 1]);
    }
}

/// Encode a tagged word list.
fn encode_words(tag: u8, words: &Vec<u64>) -> (r: Vec<u8>)
    ensures
        r@ == frame_spec(tag, words@),
{
    let mut out: Vec<u8> = Vec::new();
    out.push(tag);
    let ghost head = out@;
    let mut i: usize = 0;
    proof {
        assert(words@.take(0) =~= Seq::<u64>::empty());
        assert(out@ =~= head + words_bytes(words@.take(0)));
    }
    while i < words.len()
        invariant
            0 <= i <= words@.len(),
            head == seq![tag],
            out@ == head + words_bytes(words@.take(i as int)),
        decreases words@.len() - i,
    {
        push_word(&mut out, words[i]);
        proof {
            lemma_words_bytes_snoc(words@, i as int);
        }
        i = i + 1;
    }
    proof {
        assert(words@.take(words@.len() as int) =~= words@);
    }
    out
}

/// Appending one more word appends its eight bytes.
proof fn lemma_words_bytes_snoc(ws: Seq<u64>, i: int)
    requires
        0 <= i < ws.len(),
    ensures
        words_bytes(ws.take(i + 1)) == words_bytes(ws.take(i)) + le_bytes(ws[i] as int, 8),
    decreases i,
{
    if i == 0 {
        assert(ws.take(1).drop_first() =~= Seq::<u64>::empty());
        assert(words_bytes(Seq::<u64>::empty()) =~= Seq::<u8>::empty());
        assert(ws.take(1)[0] == ws[0]);
        assert(words_bytes(ws.take(1)) =~= le_bytes(ws[0] as int, 8));
        assert(ws.take(0) =~= Seq::<u64>::empty());
        assert(words_bytes(ws.take(0)) =~= Seq::<u8>::empty());
        assert(words_bytes(ws.take(1)) =~= words_bytes(ws.take(0)) + le_bytes(ws[0] as int, 8));
    } else {
        lemma_words_bytes_snoc(ws.drop_first(), i - 1);
        assert(ws.take(i + 1).drop_first() =~= ws.drop_first().take(i));
        assert(ws.take(i).drop_first() =~= ws.drop_first().take(i - 1));
        assert(ws.drop_first()[i - 1] == ws[i]);
        assert(words_bytes(ws.take(i + 1)) =~= words_bytes(ws.take(i)) + le_bytes(
            ws[i] as int,
            8,
        ));
    }
}

/// Decode a frame expected to hold `count` words under `tag`.
fn decode_words(bytes: &Vec<u8>, tag: u8, count: usize) -> (r: Option<Vec<u64>>)
    requires
        count <= 1000,
    ensures
        (bytes@.len() == 1 + 8 * count && bytes@[0] == tag) <==> r is Some,
        r matches Some(ws) ==> ws@ == bytes_words(bytes@.skip(1)) && ws@.len() == count,
{
    if bytes.len() != 1 + 8 * count {
        return None;
    }
    if bytes[0] != tag {
        return None;
    }
    let ghost payload = bytes@.skip(1);
    let mut ws: Vec<u64> = Vec::new();
    let mut i: usize = 0;
    while i < count
        invariant
            0 <= i <= count,
            count <= 1000,
            bytes@.len() == 1 + 8 * count,
            payload == bytes@.skip(1),
            ws@.len() == i,
            forall|j: int| 0 <= j < i ==> ws@[j] == bytes_words(payload)[j],
            i > 0 ==> bytes_words(payload).len() >= i,
        decreases count - i,
    {
        let w = read_word(bytes, 1 + 8 * i);
        proof {
            lemma_bytes_words_index(payload, i as int);
            assert(payload.subrange(8 * (i as int), 8 * (i as int) + 8) =~= bytes@.subrange(
                1 + 8 * (i as int),
                1 + 8 * (i as int) + 8,
            ));
        }
        ws.push(w);
        i = i + 1;
    }
    proof {
        lemma_bytes_words_len(payload);
        assert(ws@ =~= bytes_words(payload));
    }
    Some(ws)
}

/// A payload of exact word groups denotes that many words.
proof fn lemma_bytes_words_len(s: Seq<u8>)
    ensures
        s.len() % 8 == 0 ==> bytes_words(s).len() == s.len() / 8,
    decreases s.len(),
{
    if s.len() >= 8 {
        lemma_bytes_words_len(s.skip(8));
    }
}

/// Offset-binary form of an `i64`, so it travels as a word.
pub open spec fn offset_u64(v: i64) -> u64 {
    (v as int + 0x8000_0000_0000_0000) as u64
}

/// Inverse of `offset_u64`.
pub open spec fn unoffset_i64(w: u64) -> i64 {
    (w as int - 0x8000_0000_0000_0000) as i64
}

fn offset_encode(v: i64) -> (r: u64)
    ensures
        r == offset_u64(v),
        unoffset_i64(r) == v,
{
    if v >= 0 {
        (v as u64) + 0x8000_0000_0000_0000u64
    } else {
        0x8000_0000_0000_0000u64 - ((-(v + 1)) as u64 + 1)
    }
}

fn offset_decode(w: u64) -> (r: i64)
    ensures
        r == unoffset_i64(w),
{
    if w >= 0x8000_0000_0000_0000u64 {
        (w - 0x8000_0000_0000_0000u64) as i64
    } else {
        -((0x8000_0000_0000_0000u64 - 1 - w) as i64) - 1
    }
}


/// The field words of a PVT record, in frame order.
pub open spec fn pvt_words(m: PvtMetrics) -> Seq<u64> {
    seq![
        m.total_trials as u64,
        m.reacted_trials as u64,
        m.median_rt_ms,
        m.mean_rt_ms,
        m.sd_rt_ms,
        m.p10_rt_ms,
        m.p90_rt_ms,
        m.lapses_ge_500ms as u64,
        m.minor_lapses_355_499ms as u64,
        m.false_starts as u64,
        offset_u64(m.time_on_task_slope_ms_per_min),
        if m.meets_min_trial_requirement {
            1u64
        } else {
            0u64
        },
    ]
}

/// The encoded form of a PVT record.
pub open spec fn encode_pvt_spec(m: PvtMetrics) -> Seq<u8> {
    frame_spec(PVT_TAG, pvt_words(m))
}

/// Rebuild a PVT record from its field words, checking every range.
pub open spec fn pvt_from_words(ws: Seq<u64>) -> Option<PvtMetrics>
    recommends
        ws.len() == 12,
{
    if ws[0] > usize::MAX as u64 || ws[1] > usize::MAX as u64 || ws[7] > u32::MAX as u64 || ws[8]
        > u32::MAX as u64 || ws[9] > u32::MAX as u64 || ws[11] > 1 {
        None
    } else {
        Some(
            PvtMetrics {
                total_trials: ws[0] as usize,
                reacted_trials: ws[1] as usize,
                median_rt_ms: ws[2],
                mean_rt_ms: ws[3],
                sd_rt_ms: ws[4],
                p10_rt_ms: ws[5],
                p90_rt_ms: ws[6],
                lapses_ge_500ms: ws[7] as u32,
                minor_lapses_355_499ms: ws[8] as u32,
                false_starts: ws[9] as u32,
                time_on_task_slope_ms_per_min: unoffset_i64(ws[10]),
                meets_min_trial_requirement: ws[11] == 1,
            },
        )
    }
}

/// What decoding a PVT frame yields.
pub open spec fn decode_pvt_spec(s: Seq<u8>) -> Option<PvtMetrics> {
    if s.len() != 97 || s[0] != PVT_TAG {
        None
    } else {
        pvt_from_words(bytes_words(s.skip(1)))
    }
}

/// Serialize a PVT record for the persistence boundary.
pub fn encode_pvt_metrics(m: &PvtMetrics) -> (r: Vec<u8>)
    ensures
        r@ == encode_pvt_spec(*m),
{
    let mut words: Vec<u64> = Vec::new();
    words.push(m.total_trials as u64);
    words.push(m.reacted_trials as u64);
    words.push(m.median_rt_ms);
    words.push(m.mean_rt_ms);
    words.push(m.sd_rt_ms);
    words.push(m.p10_rt_ms);
    words.push(m.p90_rt_ms);
    words.push(m.lapses_ge_500ms as u64);
    words.push(m.minor_lapses_355_499ms as u64);
    words.push(m.false_starts as u64);
    words.push(offset_encode(m.time_on_task_slope_ms_per_min));
    words.push(
        if m.meets_min_trial_requirement {
            1u64
        } else {
            0u64
        },
    );
    proof {
        assert(words@ =~= pvt_words(*m));
    }
    encode_words(PVT_TAG, &words)
}

/// Parse a PVT frame; `None` on any malformed or out-of-range input.
pub fn decode_pvt_metrics(bytes: &Vec<u8>) -> (r: Option<PvtMetrics>)
    ensures
        r == decode_pvt_spec(bytes@),
{
    let ws = match decode_words(bytes, PVT_TAG, 12) {
        Some(ws) => ws,
        None => {
            return None;
        },
    };
    if ws[0] > usize::MAX as u64 || ws[1] > usize::MAX as u64 || ws[7] > u32::MAX as u64 || ws[8]
        > u32::MAX as u64 || ws[9] > u32::MAX as u64 || ws[11] > 1 {
        return None;
    }
    Some(
        PvtMetrics {
            total_trials: ws[0] as usize,
            reacted_trials: ws[1] as usize,
            median_rt_ms: ws[2],
            mean_rt_ms: ws[3],
            sd_rt_ms: ws[4],
            p10_rt_ms: ws[5],
            p90_rt_ms: ws[6],
            lapses_ge_500ms: ws[7] as u32,
            minor_lapses_355_499ms: ws[8] as u32,
            false_starts: ws[9] as u32,
            time_on_task_slope_ms_per_min: offset_decode(ws[10]),
            meets_min_trial_requirement: ws[11] == 1,
        },
    )
}

/// Offset-binary coding of a signed word is lossless.
pub proof fn lemma_offset_round_trip(v: i64)
    ensures
        unoffset_i64(offset_u64(v)) == v,
{
}

/// Round trip: a PVT record sent through the persistence boundary decodes
/// field-for-field identical.
pub proof fn lemma_pvt_metrics_round_trip(m: PvtMetrics)
    ensures
        decode_pvt_spec(encode_pvt_spec(m)) == Some(m),
{
    let ws = pvt_words(m);
    lemma_words_round_trip(ws);
    let enc = encode_pvt_spec(m);
    assert(enc.len() == 97);
    assert(enc[0] == PVT_TAG);
    assert(enc.skip(1) =~= words_bytes(ws));
    lemma_offset_round_trip(m.time_on_task_slope_ms_per_min);
    assert(pvt_from_words(ws) == Some(m));
}

/// The field words of a 2-back record, in frame order.
pub open spec fn nback_words(m: NBackMetrics) -> Seq<u64> {
    seq![
        m.total_trials as u64,
        m.target_trials as u64,
        m.non_target_trials as u64,
        m.hits as u64,
        m.misses as u64,
        m.false_alarms as u64,
        m.correct_rejections as u64,
        m.hit_rate_micro,
        m.false_alarm_rate_micro,
        m.accuracy_micro,
        offset_u64(m.d_prime_nano),
        offset_u64(m.criterion_nano),
        m.mean_hit_rt_ms,
        m.median_hit_rt_ms,
        m.sd_hit_rt_ms,
        m.p10_hit_rt_ms,
        m.p90_hit_rt_ms,
        m.response_count as u64,
    ]
}

/// The encoded form of a 2-back record.
pub open spec fn encode_nback_spec(m: NBackMetrics) -> Seq<u8> {
    frame_spec(NBACK_TAG, nback_words(m))
}

/// Rebuild a 2-back record from its field words, checking every range.
pub open spec fn nback_from_words(ws: Seq<u64>) -> Option<NBackMetrics>
    recommends
        ws.len() == 18,
{
    if ws[0] > usize::MAX as u64 || ws[1] > usize::MAX as u64 || ws[2] > usize::MAX as u64 || ws[3]
        > u32::MAX as u64 || ws[4] > u32::MAX as u64 || ws[5] > u32::MAX as u64 || ws[6]
        > u32::MAX as u64 || ws[17] > u32::MAX as u64 {
        None
    } else {
        Some(
            NBackMetrics {
                total_trials: ws[0] as usize,
                target_trials: ws[1] as usize,
                non_target_trials: ws[2] as usize,
                hits: ws[3] as u32,
                misses: ws[4] as u32,
                false_alarms: ws[5] as u32,
                correct_rejections: ws[6] as u32,
                hit_rate_micro: ws[7],
                false_alarm_rate_micro: ws[8],
                accuracy_micro: ws[9],
                d_prime_nano: unoffset_i64(ws[10]),
                criterion_nano: unoffset_i64(ws[11]),
                mean_hit_rt_ms: ws[12],
                median_hit_rt_ms: ws[13],
                sd_hit_rt_ms: ws[14],
                p10_hit_rt_ms: ws[15],
                p90_hit_rt_ms: ws[16],
                response_count: ws[17] as u32,
            },
        )
    }
}

/// What decoding a 2-back frame yields.
pub open spec fn decode_nback_spec(s: Seq<u8>) -> Option<NBackMetrics> {
    if s.len() != 145 || s[0] != NBACK_TAG {
        None
    } else {
        nback_from_words(bytes_words(s.skip(1)))
    }
}

/// Serialize a 2-back record for the persistence boundary.
pub fn encode_nback_metrics(m: &NBackMetrics) -> (r: Vec<u8>)
    ensures
        r@ == encode_nback_spec(*m),
{
    let mut words: Vec<u64> = Vec::new();
    words.push(m.total_trials as u64);
    words.push(m.target_trials as u64);
    words.push(m.non_target_trials as u64);
    words.push(m.hits as u64);
    words.push(m.misses as u64);
    words.push(m.false_alarms as u64);
    words.push(m.correct_rejections as u64);
    words.push(m.hit_rate_micro);
    words.push(m.false_alarm_rate_micro);
    words.push(m.accuracy_micro);
    words.push(offset_encode(m.d_prime_nano));
    words.push(offset_encode(m.criterion_nano));
    words.push(m.mean_hit_rt_ms);
    words.push(m.median_hit_rt_ms);
    words.push(m.sd_hit_rt_ms);
    words.push(m.p10_hit_rt_ms);
    words.push(m.p90_hit_rt_ms);
    words.push(m.response_count as u64);
    proof {
        assert(words@ =~= nback_words(*m));
    }
    encode_words(NBACK_TAG, &words)
}

/// Parse a 2-back frame; `None` on any malformed or out-of-range input.
pub fn decode_nback_metrics(bytes: &Vec<u8>) -> (r: Option<NBackMetrics>)
    ensures
        r == decode_nback_spec(bytes@),
{
    let ws = match decode_words(bytes, NBACK_TAG, 18) {
        Some(ws) => ws,
        None => {
            return None;
        },
    };
    if ws[0] > usize::MAX as u64 || ws[1] > usize::MAX as u64 || ws[2] > usize::MAX as u64 || ws[3]
        > u32::MAX as u64 || ws[4] > u32::MAX as u64 || ws[5] > u32::MAX as u64 || ws[6]
        > u32::MAX as u64 || ws[17] > u32::MAX as u64 {
        return None;
    }
    Some(
        NBackMetrics {
            total_trials: ws[0] as usize,
            target_trials: ws[1] as usize,
            non_target_trials: ws[2] as usize,
            hits: ws[3] as u32,
            misses: ws[4] as u32,
            false_alarms: ws[5] as u32,
            correct_rejections: ws[6] as u32,
            hit_rate_micro: ws[7],
            false_alarm_rate_micro: ws[8],
            accuracy_micro: ws[9],
            d_prime_nano: offset_decode(ws[10]),
            criterion_nano: offset_decode(ws[11]),
            mean_hit_rt_ms: ws[12],
            median_hit_rt_ms: ws[13],
            sd_hit_rt_ms: ws[14],
            p10_hit_rt_ms: ws[15],
            p90_hit_rt_ms: ws[16],
            response_count: ws[17] as u32,
        },
    )
}

/// Round trip: a 2-back record sent through the persistence boundary
/// decodes field-for-field identical.
pub proof fn lemma_nback_metrics_round_trip(m: NBackMetrics)
    ensures
        decode_nback_spec(encode_nback_spec(m)) == Some(m),
{
    let ws = nback_words(m);
    lemma_words_round_trip(ws);
    let enc = encode_nback_spec(m);
    assert(enc.len() == 145);
    assert(enc[0] == NBACK_TAG);
    assert(enc.skip(1) =~= words_bytes(ws));
    lemma_offset_round_trip(m.d_prime_nano);
    lemma_offset_round_trip(m.criterion_nano);
    assert(nback_from_words(ws) == Some(m));
}

} // verus!
