//! NAL units of an Annex B bitstream and the coded pictures among them.

use crate::text;
use vstd::prelude::*;

verus! {

/// The length of the start code at `i`: 4 for `0 0 0 1`, 3 for `0 0 1`, 0 where none begins.
pub open spec fn start_code(d: Seq<u8>, i: int) -> int {
    if 0 <= i && i + 4 <= d.len() && d[i] == 0 && d[i + 1] == 0 && d[i + 2] == 0 && d[i + 3] == 1 {
        4
    } else if 0 <= i && i + 3 <= d.len() && d[i] == 0 && d[i + 1] == 0 && d[i + 2] == 1 {
        3
    } else {
        0
    }
}

/// The first position at or after `i` where a start code begins, or the end of the data.
pub open spec fn next_start(d: Seq<u8>, i: int) -> int
    decreases d.len() - i,
{
    if i >= d.len() {
        d.len() as int
    } else if start_code(d, i) > 0 {
        i
    } else {
        next_start(d, i + 1)
    }
}

/// A NAL unit's bytes: from `start` up to, not including, `end`.
#[derive(Debug, Clone, Copy, PartialEq, Eq, Structural)]
pub struct NalSpan {
    pub start: usize,
    pub end: usize,
}

/// The non-empty NAL units from `i` on, in order: what follows each start code, up to the next
/// one or the end.
pub open spec fn nal_spans(d: Seq<u8>, i: int) -> Seq<(int, int)>
    decreases d.len() - i,
    via nal_spans_decreases
{
    let code = next_start(d, i);
    if code >= d.len() {
        Seq::empty()
    } else {
        let start = code + start_code(d, code);
        let end = next_start(d, start);
        let rest = nal_spans(d, end);
        if start < end {
            seq![(start, end)] + rest
        } else {
            rest
        }
    }
}

#[via_fn]
proof fn nal_spans_decreases(d: Seq<u8>, i: int) {
    if i <= d.len() {
        next_start_is_next(d, i);
        let code = next_start(d, i);
        if code < d.len() {
            next_start_is_next(d, code + start_code(d, code));
        }
    }
}

/// `next_start` finds the nearest start code.
pub proof fn next_start_is_next(d: Seq<u8>, i: int)
    requires
        i <= d.len(),
    ensures
        i <= next_start(d, i) <= d.len(),
        next_start(d, i) < d.len() ==> start_code(d, next_start(d, i)) > 0,
        forall|k: int| i <= k < next_start(d, i) ==> start_code(d, k) == 0,
    decreases d.len() - i,
{
    if i < d.len() && start_code(d, i) == 0 {
        next_start_is_next(d, i + 1);
    }
}

fn start_code_at(data: &[u8], i: usize) -> (res: usize)
    requires
        i <= data@.len(),
    ensures
        res == start_code(data@, i as int),
{
    let left: usize = data.len() - i;
    if left >= 4 && data[i] == 0 && data[i + 1] == 0 && data[i + 2] == 0 && data[i + 3] == 1 {
        4
    } else if left >= 3 && data[i] == 0 && data[i + 1] == 0 && data[i + 2] == 1 {
        3
    } else {
        0
    }
}

fn find_start(data: &[u8], from: usize) -> (res: usize)
    requires
        from <= data@.len(),
    ensures
        from <= res <= data@.len(),
        res == next_start(data@, from as int),
{
    let mut i: usize = from;
    while i < data.len() && start_code_at(data, i) == 0
        invariant
            from <= i <= data@.len(),
            next_start(data@, from as int) == next_start(data@, i as int),
        decreases data@.len() - i,
    {
        i += 1;
    }
    i
}

/// Spans as pairs of whole numbers.
pub open spec fn as_pairs(spans: Seq<NalSpan>) -> Seq<(int, int)> {
    spans.map_values(|n: NalSpan| (n.start as int, n.end as int))
}

/// The NAL units of `data`, without their start codes.
pub fn nal_payloads(data: &[u8]) -> (res: Vec<NalSpan>)
    ensures
        as_pairs(res@) == nal_spans(data@, 0),
        res@.len() == nal_spans(data@, 0).len(),
        forall|k: int|
            0 <= k < res@.len() ==> (#[trigger] res@[k]).start == nal_spans(data@, 0)[k].0
                && res@[k].end == nal_spans(data@, 0)[k].1,
{
    let mut res: Vec<NalSpan> = Vec::new();
    let mut i: usize = find_start(data, 0);
    proof {
        let none = Seq::<(int, int)>::empty();
        next_start_is_next(data@, 0);
        next_start_stays(data@, 0);
        assert(as_pairs(res@) == none);
        assert(none + nal_spans(data@, i as int) == nal_spans(data@, 0));
    }
    while i < data.len()
        invariant
            i <= data@.len(),
            i < data@.len() ==> start_code(data@, i as int) > 0,
            as_pairs(res@) + nal_spans(data@, i as int) == nal_spans(data@, 0),
        decreases data@.len() - i,
    {
        let ghost before = as_pairs(res@);
        let start: usize = i + start_code_at(data, i);
        let end: usize = find_start(data, start);
        let ghost rest = nal_spans(data@, end as int);
        proof {
            next_start_is_next(data@, start as int);
            assert(nal_spans(data@, i as int) == (if start < end {
                seq![(start as int, end as int)] + rest
            } else {
                rest
            }));
        }
        if start < end {
            res.push(NalSpan { start, end });
            proof {
                assert(as_pairs(res@) == before.push((start as int, end as int)));
                assert(as_pairs(res@) + rest == before + (seq![(start as int, end as int)] + rest));
            }
        }
        i = end;
    }
    assert(as_pairs(res@) + Seq::<(int, int)>::empty() == as_pairs(res@));
    proof {
        assert forall|k: int| 0 <= k < res@.len() implies (#[trigger] res@[k]).start == nal_spans(
            data@,
            0,
        )[k].0 && res@[k].end == nal_spans(data@, 0)[k].1 by {
            assert(as_pairs(res@)[k] == nal_spans(data@, 0)[k]);
        }
    }
    res
}

/// A scan that begins where the next start code lies finds the same units.
proof fn next_start_stays(d: Seq<u8>, i: int)
    requires
        i <= d.len(),
    ensures
        nal_spans(d, i) == nal_spans(d, next_start(d, i)),
{
    next_start_is_next(d, i);
    let code = next_start(d, i);
    assert(next_start(d, code) == code);
}

/// Whether a NAL unit that begins with byte `b` is a slice of an H.264 picture.
pub open spec fn h264_slice(b: u8) -> bool {
    b % 32 == 1 || b % 32 == 5
}

/// Whether a NAL unit that begins with byte `b` is a slice of an HEVC picture.
pub open spec fn hevc_slice(b: u8) -> bool {
    (b / 2) % 64 <= 9 || 16 <= (b / 2) % 64 <= 21
}

/// The first byte of each NAL unit.
pub open spec fn nal_heads(d: Seq<u8>) -> Seq<u8> {
    nal_spans(d, 0).map_values(|n: (int, int)| d[n.0])
}

/// How many of `heads` begin a slice.
pub open spec fn slices(heads: Seq<u8>, hevc: bool) -> nat
    decreases heads.len(),
{
    if heads.len() == 0 {
        0
    } else {
        slices(heads.drop_last(), hevc) + (if (hevc && hevc_slice(heads.last())) || (!hevc
            && h264_slice(heads.last())) {
            1nat
        } else {
            0nat
        })
    }
}

/// How many coded pictures a packet holds: one per slice, for AV1 one per packet.
pub open spec fn coded_pictures(d: Seq<u8>, demux: Seq<char>) -> nat {
    if demux == "hevc"@ || demux == "h265"@ {
        slices(nal_heads(d), true)
    } else if demux == "av1"@ {
        if d.len() == 0 {
            0
        } else {
            1
        }
    } else {
        slices(nal_heads(d), false)
    }
}

fn count_slices(data: &[u8], hevc: bool) -> (res: u64)
    ensures
        res == slices(nal_heads(data@), hevc),
{
    let units = nal_payloads(data);
    let ghost heads = nal_heads(data@);
    proof {
        nal_units_lie_between_start_codes(data@, 0);
        assert(heads.len() == units@.len());
    }
    let mut count: u64 = 0;
    let mut i: usize = 0;
    assert(heads.take(0) == Seq::<u8>::empty());
    while i < units.len()
        invariant
            i <= units@.len() == heads.len(),
            as_pairs(units@) == nal_spans(data@, 0),
            heads == nal_heads(data@),
            units_in_order(data@, 0, nal_spans(data@, 0)),
            count <= i,
            count == slices(heads.take(i as int), hevc),
        decreases units@.len() - i,
    {
        let ghost span = nal_spans(data@, 0)[i as int];
        proof {
            assert(span == as_pairs(units@)[i as int]);
            assert(heads[i as int] == data@[span.0]);
            assert(heads.take(i + 1).drop_last() == heads.take(i as int));
        }
        let b: u8 = data[units[i].start];
        let kind: u8 = if hevc {
            (b / 2) % 64
        } else {
            b % 32
        };
        let is_slice = if hevc {
            kind <= 9 || (16 <= kind && kind <= 21)
        } else {
            kind == 1 || kind == 5
        };
        if is_slice {
            count += 1;
        }
        i += 1;
    }
    assert(heads.take(heads.len() as int) == heads);
    count
}

/// Counts the coded pictures of one packet; `demux` is the ffmpeg demuxer's name.
pub fn count_coded_pictures(data: &[u8], demux: &str) -> (res: u64)
    ensures
        res == coded_pictures(data@, demux@),
{
    if text::same_text(demux, "hevc") || text::same_text(demux, "h265") {
        count_slices(data, true)
    } else if text::same_text(demux, "av1") {
        if data.len() == 0 {
            0
        } else {
            1
        }
    } else {
        count_slices(data, false)
    }
}

/// `units` lie in order from `i` on, each not empty, each right after a start code and up to the
/// next one or the end, with no start code inside.
pub open spec fn units_in_order(d: Seq<u8>, i: int, units: Seq<(int, int)>) -> bool {
    &&& forall|k: int|
        #![trigger units[k]]
        0 <= k < units.len() ==> {
            &&& i < units[k].0 < units[k].1 <= d.len()
            &&& start_code(d, units[k].0 - 4) == 4 || start_code(d, units[k].0 - 3) == 3
            &&& units[k].1 < d.len() ==> start_code(d, units[k].1) > 0
            &&& forall|p: int| units[k].0 <= p < units[k].1 ==> start_code(d, p) == 0
        }
    &&& forall|k: int, m: int|
        #![trigger units[k], units[m]]
        0 <= k < m < units.len() ==> units[k].1 < units[m].0
}

/// The NAL units found in any data lie in order, each between its start code and the next one.
pub proof fn nal_units_lie_between_start_codes(d: Seq<u8>, i: int)
    requires
        0 <= i <= d.len(),
    ensures
        units_in_order(d, i, nal_spans(d, i)),
    decreases d.len() - i,
{
    next_start_is_next(d, i);
    let code = next_start(d, i);
    if code < d.len() {
        let start = code + start_code(d, code);
        next_start_is_next(d, start);
        let end = next_start(d, start);
        let rest = nal_spans(d, end);
        nal_units_lie_between_start_codes(d, end);
        let all = nal_spans(d, i);
        if start < end {
            assert(all == seq![(start, end)] + rest);
            assert forall|k: int| #![trigger all[k]] 0 <= k < all.len() implies {
                &&& i < all[k].0 < all[k].1 <= d.len()
                &&& start_code(d, all[k].0 - 4) == 4 || start_code(d, all[k].0 - 3) == 3
                &&& all[k].1 < d.len() ==> start_code(d, all[k].1) > 0
                &&& forall|p: int| all[k].0 <= p < all[k].1 ==> start_code(d, p) == 0
            } by {
                if k > 0 {
                    assert(all[k] == rest[k - 1]);
                }
            }
            assert forall|k: int, m: int|
                #![trigger all[k], all[m]]
                0 <= k < m < all.len() implies all[k].1 < all[m].0 by {
                assert(all[m] == rest[m - 1]);
                if k > 0 {
                    assert(all[k] == rest[k - 1]);
                }
            }
        }
    }
}

/// No NAL unit is missed: what follows a start code, unless it is another one, begins a unit.
pub proof fn every_start_code_opens_a_unit(d: Seq<u8>, s: int)
    requires
        3 <= s < d.len(),
        d[s - 3] == 0,
        d[s - 2] == 0,
        d[s - 1] == 1,
        start_code(d, s) == 0,
    ensures
        exists|k: int|
            0 <= k < nal_spans(d, 0).len() && (#[trigger] nal_spans(d, 0)[k]).0 == s,
{
    unit_is_found(d, 0, s);
}

proof fn unit_is_found(d: Seq<u8>, i: int, s: int)
    requires
        0 <= i <= s - 3,
        s < d.len(),
        d[s - 3] == 0,
        d[s - 2] == 0,
        d[s - 1] == 1,
        start_code(d, s) == 0,
    ensures
        exists|k: int|
            0 <= k < nal_spans(d, i).len() && (#[trigger] nal_spans(d, i)[k]).0 == s,
    decreases d.len() - i,
{
    assert(start_code(d, s - 3) == 3);
    next_start_is_next(d, i);
    let code = next_start(d, i);
    assert(code <= s - 3);
    let start = code + start_code(d, code);
    next_start_is_next(d, start);
    let end = next_start(d, start);
    let rest = nal_spans(d, end);
    let all = nal_spans(d, i);
    if start == s {
        assert(s < end);
        assert(all == seq![(start, end)] + rest);
        assert(all[0].0 == s);
    } else {
        assert(start <= s - 3);
        assert(end <= s - 3);
        unit_is_found(d, end, s);
        let k = choose|k: int| 0 <= k < rest.len() && (#[trigger] rest[k]).0 == s;
        if start < end {
            assert(all == seq![(start, end)] + rest);
            assert(all[k + 1] == rest[k]);
        } else {
            assert(all[k] == rest[k]);
        }
    }
}

/// `b` opens with a start code of its own after `a`: one of four bytes, or one of three that no
/// zero at the end of `a` makes longer.
pub open spec fn opens_after(a: Seq<u8>, b: Seq<u8>) -> bool {
    start_code(b, 0) == 4 || (start_code(b, 0) == 3 && (a.len() == 0 || a.last() != 0))
}

proof fn start_codes_of_front(a: Seq<u8>, b: Seq<u8>, i: int)
    requires
        opens_after(a, b),
        0 <= i < a.len(),
    ensures
        start_code(a + b, i) == start_code(a, i),
{
    let d = a + b;
    let n = a.len() as int;
    assert(forall|k: int| 0 <= k < n ==> d[k] == a[k]);
    assert(forall|k: int| n <= k < d.len() ==> d[k] == b[k - n]);
}

proof fn next_start_of_front(a: Seq<u8>, b: Seq<u8>, i: int)
    requires
        opens_after(a, b),
        0 <= i <= a.len(),
    ensures
        next_start(a + b, i) == next_start(a, i),
    decreases a.len() - i,
{
    if i < a.len() {
        start_codes_of_front(a, b, i);
        if start_code(a, i) == 0 {
            next_start_of_front(a, b, i + 1);
        }
    } else {
        start_codes_of_back(a, b, 0);
    }
}

proof fn start_codes_of_back(a: Seq<u8>, b: Seq<u8>, i: int)
    requires
        0 <= i,
    ensures
        start_code(a + b, a.len() + i) == start_code(b, i),
{
    let d = a + b;
    let n = a.len() as int;
    assert(forall|k: int| n <= k < d.len() ==> d[k] == b[k - n]);
}

proof fn next_start_of_back(a: Seq<u8>, b: Seq<u8>, i: int)
    requires
        0 <= i <= b.len(),
    ensures
        next_start(a + b, a.len() + i) == a.len() + next_start(b, i),
    decreases b.len() - i,
{
    if i < b.len() {
        start_codes_of_back(a, b, i);
        if start_code(b, i) == 0 {
            next_start_of_back(a, b, i + 1);
        }
    }
}

spec fn heads_from(d: Seq<u8>, i: int) -> Seq<u8> {
    nal_spans(d, i).map_values(|n: (int, int)| d[n.0])
}

proof fn heads_step(d: Seq<u8>, i: int)
    requires
        0 <= i <= d.len(),
    ensures
        ({
            let code = next_start(d, i);
            if code >= d.len() {
                heads_from(d, i) == Seq::<u8>::empty()
            } else {
                let start = code + start_code(d, code);
                let end = next_start(d, start);
                heads_from(d, i) == (if start < end {
                    seq![d[start]] + heads_from(d, end)
                } else {
                    heads_from(d, end)
                })
            }
        }),
{
    let f = |n: (int, int)| d[n.0];
    let code = next_start(d, i);
    if code >= d.len() {
        assert(heads_from(d, i) == Seq::<u8>::empty());
    } else {
        let start = code + start_code(d, code);
        let end = next_start(d, start);
        let rest = nal_spans(d, end);
        if start < end {
            assert((seq![(start, end)] + rest).map_values(f) == seq![d[start]] + rest.map_values(
                f,
            ));
        }
    }
}

proof fn heads_of_back(a: Seq<u8>, b: Seq<u8>, i: int)
    requires
        0 <= i <= b.len(),
    ensures
        heads_from(a + b, a.len() + i) == heads_from(b, i),
    decreases b.len() - i,
{
    let d = a + b;
    let n = a.len() as int;
    heads_step(d, n + i);
    heads_step(b, i);
    next_start_of_back(a, b, i);
    next_start_is_next(b, i);
    let code = next_start(b, i);
    if code < b.len() {
        start_codes_of_back(a, b, code);
        let start = code + start_code(b, code);
        next_start_of_back(a, b, start);
        next_start_is_next(b, start);
        let end = next_start(b, start);
        heads_of_back(a, b, end);
        if start < end {
            assert(d[n + start] == b[start]);
        }
    }
}

proof fn heads_of_both(a: Seq<u8>, b: Seq<u8>, i: int)
    requires
        opens_after(a, b),
        0 <= i <= a.len(),
    ensures
        heads_from(a + b, i) == heads_from(a, i) + heads_from(b, 0),
    decreases a.len() - i,
{
    let d = a + b;
    heads_step(d, i);
    heads_step(a, i);
    next_start_of_front(a, b, i);
    next_start_is_next(a, i);
    let code = next_start(a, i);
    if code < a.len() {
        start_codes_of_front(a, b, code);
        let start = code + start_code(a, code);
        next_start_of_front(a, b, start);
        next_start_is_next(a, start);
        let end = next_start(a, start);
        heads_of_both(a, b, end);
        if start < end {
            assert(d[start] == a[start]);
            assert(seq![a[start]] + (heads_from(a, end) + heads_from(b, 0)) == (seq![a[start]]
                + heads_from(a, end)) + heads_from(b, 0));
        }
    } else {
        next_start_stays(d, i);
        heads_of_back(a, b, 0);
        assert(Seq::<u8>::empty() + heads_from(b, 0) == heads_from(b, 0));
    }
}

proof fn slices_add_up(a: Seq<u8>, b: Seq<u8>, hevc: bool)
    ensures
        slices(a + b, hevc) == slices(a, hevc) + slices(b, hevc),
    decreases b.len(),
{
    if b.len() == 0 {
        assert(a + b == a);
    } else {
        assert((a + b).drop_last() == a + b.drop_last());
        slices_add_up(a, b.drop_last(), hevc);
    }
}

/// Empty data holds no picture.
pub proof fn nothing_holds_no_picture(demux: Seq<char>)
    ensures
        coded_pictures(Seq::empty(), demux) == 0,
{
    assert(nal_spans(Seq::<u8>::empty(), 0) == Seq::<(int, int)>::empty());
    assert(nal_heads(Seq::empty()) == Seq::<u8>::empty());
}

/// Pictures counted packet by packet add up: where the second packet opens with a start code of
/// its own, the two together hold as many H.264 or HEVC pictures as each by itself.
pub proof fn pictures_add_up(a: Seq<u8>, b: Seq<u8>, demux: Seq<char>)
    requires
        opens_after(a, b),
        demux != "av1"@,
    ensures
        coded_pictures(a + b, demux) == coded_pictures(a, demux) + coded_pictures(b, demux),
{
    heads_of_both(a, b, 0);
    slices_add_up(nal_heads(a), nal_heads(b), true);
    slices_add_up(nal_heads(a), nal_heads(b), false);
}

/// A start code is `0 0 1` or `0 0 0 1`, and nothing else is one.
pub proof fn start_codes_are_zeros_and_a_one(d: Seq<u8>, i: int)
    requires
        0 <= i < d.len(),
    ensures
        start_code(d, i) == 3 <==> i + 2 < d.len() && d[i] == 0 && d[i + 1] == 0 && d[i + 2] == 1,
        start_code(d, i) == 4 <==> i + 3 < d.len() && d[i] == 0 && d[i + 1] == 0 && d[i + 2] == 0
            && d[i + 3] == 1,
        start_code(d, i) == 0 || start_code(d, i) == 3 || start_code(d, i) == 4,
{
}

/// Whether a unit that begins with `b` is a slice of a picture, by the type that its codec keeps in
/// that byte: for HEVC the six bits below the highest, from 0 to 9 or from 16 to 21; for H.264 the
/// five lowest, 1 or 5.
pub open spec fn slice_type(b: u8, hevc: bool) -> bool {
    if hevc {
        ((b >> 1) & 0x3f) <= 9 || 16 <= ((b >> 1) & 0x3f) <= 21
    } else {
        (b & 0x1f) == 1 || (b & 0x1f) == 5
    }
}

/// Types are read as the numbers that they are, over all first bytes.
proof fn types_are_numbers(b: u8)
    ensures
        (b >> 1) & 0x3f == (b / 2) % 64,
        b & 0x1f == b % 32,
{
    assert((b >> 1) & 0x3f == (b / 2) % 64) by (bit_vector);
    assert(b & 0x1f == b % 32) by (bit_vector);
}

/// Only slices are pictures: for each of the 256 first bytes, an HEVC unit counts exactly where its
/// type is 0 to 9 or 16 to 21, so that parameter sets, delimiters and SEI (32 to 40) do not, and an
/// H.264 unit exactly where its type is 1 or 5.
pub proof fn only_slices_are_pictures(heads: Seq<u8>, b: u8)
    ensures
        slices(heads.push(b), true) == slices(heads, true) + (if ((b >> 1) & 0x3f) <= 9 || 16 <= ((b
            >> 1) & 0x3f) <= 21 {
            1nat
        } else {
            0nat
        }),
        slices(heads.push(b), false) == slices(heads, false) + (if (b & 0x1f) == 1 || (b & 0x1f)
            == 5 {
            1nat
        } else {
            0nat
        }),
        slices(Seq::empty(), true) == 0,
        slices(Seq::empty(), false) == 0,
{
    types_are_numbers(b);
    assert(heads.push(b).drop_last() == heads);
}

/// A packet has as many pictures as units of a slice type.
pub proof fn pictures_are_units_of_slice_type(d: Seq<u8>, demux: Seq<char>)
    ensures
        demux == "hevc"@ || demux == "h265"@ ==> coded_pictures(d, demux) == nal_spans(
            d,
            0,
        ).filter(|u: (int, int)| slice_type(d[u.0], true)).len(),
        demux != "hevc"@ && demux != "h265"@ && demux != "av1"@ ==> coded_pictures(d, demux)
            == nal_spans(d, 0).filter(|u: (int, int)| slice_type(d[u.0], false)).len(),
        demux == "av1"@ ==> coded_pictures(d, demux) == (if d.len() == 0 {
            0nat
        } else {
            1nat
        }),
{
    counted_by_units(d, nal_spans(d, 0), true);
    counted_by_units(d, nal_spans(d, 0), false);
    reveal_strlit("hevc");
    reveal_strlit("h265");
    reveal_strlit("av1");
    assert("hevc"@.len() == 4 && "h265"@.len() == 4 && "av1"@.len() == 3);
}

proof fn counted_by_units(d: Seq<u8>, units: Seq<(int, int)>, hevc: bool)
    ensures
        slices(units.map_values(|n: (int, int)| d[n.0]), hevc) == units.filter(
            |u: (int, int)| slice_type(d[u.0], hevc),
        ).len(),
    decreases units.len(),
{
    let f = |n: (int, int)| d[n.0];
    let keep = |u: (int, int)| slice_type(d[u.0], hevc);
    reveal(Seq::filter);
    if units.len() == 0 {
        assert(units.map_values(f) == Seq::<u8>::empty());
    } else {
        let before = units.drop_last();
        counted_by_units(d, before, hevc);
        assert(units.map_values(f) == before.map_values(f).push(f(units.last())));
        only_slices_are_pictures(before.map_values(f), f(units.last()));
    }
}

/// One unit after one start code is one picture or none, by the type in its first byte alone.
pub proof fn one_unit_is_one_picture_or_none(unit: Seq<u8>, demux: Seq<char>)
    requires
        unit.len() > 0,
        forall|i: int| 0 <= i < unit.len() ==> start_code(unit, i) == 0,
        demux != "av1"@,
    ensures
        coded_pictures(seq![0u8, 0, 0, 1] + unit, demux) == (if slice_type(
            unit[0],
            demux == "hevc"@ || demux == "h265"@,
        ) {
            1nat
        } else {
            0nat
        }),
{
    let code = seq![0u8, 0, 0, 1];
    let d = code + unit;
    let hevc = demux == "hevc"@ || demux == "h265"@;
    assert(start_code(d, 0) == 4);
    assert(next_start(d, 0) == 0);
    no_start_in(unit, 0);
    next_start_of_back(code, unit, 0);
    assert(next_start(d, 4) == d.len());
    assert(nal_spans(d, d.len() as int) == Seq::<(int, int)>::empty());
    assert(nal_spans(d, 0) == seq![(4int, d.len() as int)]);
    assert(nal_heads(d) == Seq::<u8>::empty().push(unit[0]));
    only_slices_are_pictures(Seq::empty(), unit[0]);
}

proof fn no_start_in(d: Seq<u8>, i: int)
    requires
        0 <= i <= d.len(),
        forall|k: int| 0 <= k < d.len() ==> start_code(d, k) == 0,
    ensures
        next_start(d, i) == d.len(),
    decreases d.len() - i,
{
    if i < d.len() {
        no_start_in(d, i + 1);
    }
}

} // verus!
