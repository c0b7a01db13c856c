//! What holds of every section in either byte order, stated over the
//! functions of `format`.

use crate::endian::{all_ones, lemma_value_ones, Endian};
use crate::errors::SMParserError;
use crate::format::{
    func_items, lemma_align8, lemma_func_items_step, lemma_locs_fail_on, lemma_rec_end_aligned,
    lemma_rec_items_step, liveouts_pos, rec_items, spec_check_header, spec_func, spec_header,
    spec_loc, spec_locs, spec_rec, stackmaps_start, u16_at, Header, OFFS_STACK_SIZE_ENTRIES,
    SIZE_LIVEOUT_ENTRY, SIZE_LOC_ENTRY, SIZE_STACK_SIZE_ENTRY, STACKMAP_VERSION,
};
use crate::parser::{SMFuncIterator, SMRecIterator};
use crate::records::{LocKind, LocOffset, SMFunc, SMLoc, SMRecView};
use vstd::prelude::*;

verus! {

/// Whether no item of `items` is a failure.
pub open spec fn all_ok<T>(items: Seq<Result<T, SMParserError>>) -> bool {
    forall|i: int| 0 <= i < items.len() ==> (#[trigger] items[i]) is Ok
}

/// Whether a section decodes from its first byte to its last record.
pub open spec fn valid_section(order: Endian, s: Seq<u8>) -> bool {
    &&& spec_header(order, s) matches Ok(header)
    &&& all_ok(func_items(order, s, OFFS_STACK_SIZE_ENTRIES as int, header.num_funcs as nat))
    &&& all_ok(
        rec_items(
            order,
            s,
            stackmaps_start(header.num_funcs, header.num_consts),
            header.num_stackmaps as nat,
        ),
    )
}

/// Where the record with index `k` starts, counted from a first record at
/// `p`, if the records before it decode.
pub open spec fn rec_start(order: Endian, s: Seq<u8>, p: int, k: nat) -> int
    decreases k,
{
    if k == 0 {
        p
    } else {
        match spec_rec(order, s, p) {
            Ok((_, next)) => rec_start(order, s, next, (k - 1) as nat),
            Err(_) => p,
        }
    }
}

/// Where the record with index `k` of a section starts.
pub open spec fn record_start(order: Endian, s: Seq<u8>, k: nat) -> int {
    let header = spec_header(order, s)->Ok_0;
    rec_start(order, s, stackmaps_start(header.num_funcs, header.num_consts), k)
}

/// An iterator over `n` function entries hands out at most `n` items, only
/// the last of which can be a failure. If none is, it hands out exactly `n`;
/// if it hands out fewer, the last is a failure.
pub proof fn lemma_func_items_count(order: Endian, s: Seq<u8>, p: int, n: nat)
    ensures
        func_items(order, s, p, n).len() <= n,
        forall|i: int|
            0 <= i < func_items(order, s, p, n).len() - 1 ==> (#[trigger] func_items(
                order,
                s,
                p,
                n,
            )[i]) is Ok,
        all_ok(func_items(order, s, p, n)) ==> func_items(order, s, p, n).len() == n,
        func_items(order, s, p, n).len() < n ==> func_items(order, s, p, n).last() is Err,
    decreases n,
{
    if n > 0 {
        lemma_func_items_step(order, s, p, n);
        if let Ok((_, next)) = spec_func(order, s, p) {
            let items = func_items(order, s, p, n);
            let rest = func_items(order, s, next, (n - 1) as nat);
            lemma_func_items_count(order, s, next, (n - 1) as nat);
            assert(items =~= seq![items[0]] + rest);
            if all_ok(items) {
                assert forall|i: int| 0 <= i < rest.len() implies (#[trigger] rest[i]) is Ok by {
                    assert(rest[i] == items[i + 1]);
                }
            }
        }
    }
}

/// An iterator over `n` stack map records hands out at most `n` items, only
/// the last of which can be a failure. If none is, it hands out exactly `n`;
/// if it hands out fewer, the last is a failure.
pub proof fn lemma_rec_items_count(order: Endian, s: Seq<u8>, p: int, n: nat)
    ensures
        rec_items(order, s, p, n).len() <= n,
        forall|i: int|
            0 <= i < rec_items(order, s, p, n).len() - 1 ==> (#[trigger] rec_items(
                order,
                s,
                p,
                n,
            )[i]) is Ok,
        all_ok(rec_items(order, s, p, n)) ==> rec_items(order, s, p, n).len() == n,
        rec_items(order, s, p, n).len() < n ==> rec_items(order, s, p, n).last() is Err,
    decreases n,
{
    if n > 0 {
        lemma_rec_items_step(order, s, p, n);
        if let Ok((_, next)) = spec_rec(order, s, p) {
            let items = rec_items(order, s, p, n);
            let rest = rec_items(order, s, next, (n - 1) as nat);
            lemma_rec_items_count(order, s, next, (n - 1) as nat);
            assert(items =~= seq![items[0]] + rest);
            if all_ok(items) {
                assert forall|i: int| 0 <= i < rest.len() implies (#[trigger] rest[i]) is Ok by {
                    assert(rest[i] == items[i + 1]);
                }
            }
        }
    }
}

/// From a section that decodes from its header to its last record, the two
/// iterators hand out as many function entries and as many stack map records
/// as the header announces.
pub proof fn lemma_valid_section_counts(order: Endian, s: Seq<u8>)
    requires
        valid_section(order, s),
    ensures
        ({
            let header = spec_header(order, s)->Ok_0;
            let start = stackmaps_start(header.num_funcs, header.num_consts);
            &&& func_items(
                order,
                s,
                OFFS_STACK_SIZE_ENTRIES as int,
                header.num_funcs as nat,
            ).len() == header.num_funcs
            &&& rec_items(order, s, start, header.num_stackmaps as nat).len()
                == header.num_stackmaps
        }),
{
    let header = spec_header(order, s)->Ok_0;
    let start = stackmaps_start(header.num_funcs, header.num_consts);
    lemma_func_items_count(order, s, OFFS_STACK_SIZE_ENTRIES as int, header.num_funcs as nat);
    lemma_rec_items_count(order, s, start, header.num_stackmaps as nat);
}

/// A function iterator hands out no more items than it has entries to go,
/// and exactly as many if none of them is a failure.
pub proof fn lemma_func_iterator_count(it: SMFuncIterator)
    ensures
        it.pending().len() <= it.remaining(),
        !it.failed() && all_ok(it.pending()) ==> it.pending().len() == it.remaining(),
{
    if let Some(s) = it.section() {
        lemma_func_items_count(it.order(), s, it.position() as int, it.remaining() as nat);
    } else if !it.failed() && it.remaining() > 0 {
        assert(it.pending()[0] is Err);
    }
}

/// A record iterator hands out no more items than it has records to go, and
/// exactly as many if none of them is a failure.
pub proof fn lemma_rec_iterator_count(it: SMRecIterator)
    ensures
        it.pending().len() <= it.remaining(),
        !it.failed() && all_ok(it.pending()) ==> it.pending().len() == it.remaining(),
{
    if let Some(s) = it.section() {
        lemma_rec_items_count(it.order(), s, it.position() as int, it.remaining() as nat);
    } else if !it.failed() && it.remaining() > 0 {
        assert(it.pending()[0] is Err);
    }
}

/// A table of `n` locations that decodes holds `n` locations, each the one
/// that its twelve bytes stand for.
pub proof fn lemma_locs_each(order: Endian, s: Seq<u8>, p: int, n: nat)
    requires
        spec_locs(order, s, p, n) is Ok,
    ensures
        spec_locs(order, s, p, n)->Ok_0.len() == n,
        forall|i: int|
            0 <= i < n ==> spec_loc(order, s, p + SIZE_LOC_ENTRY * i) == Ok::<
                SMLoc,
                SMParserError,
            >(#[trigger] spec_locs(order, s, p, n)->Ok_0[i]),
    decreases n,
{
    if n > 0 {
        lemma_locs_each(order, s, p, (n - 1) as nat);
    }
}

/// A record that decodes holds as many locations as the count in its bytes
/// says, each the one that its twelve bytes stand for.
pub proof fn lemma_rec_locations(order: Endian, s: Seq<u8>, p: int)
    requires
        spec_rec(order, s, p) is Ok,
    ensures
        spec_rec(order, s, p)->Ok_0.0.locs.len() == u16_at(order, s, p + 14),
        forall|i: int|
            0 <= i < u16_at(order, s, p + 14) ==> spec_loc(
                order,
                s,
                p + 16 + SIZE_LOC_ENTRY * i,
            ) == Ok::<SMLoc, SMParserError>(#[trigger] spec_rec(order, s, p)->Ok_0.0.locs[i]),
{
    reveal(spec_rec);
    lemma_locs_each(order, s, p + 16, u16_at(order, s, p + 14) as nat);
}

/// The offset of a `Constant` is unsigned and every other is signed: four
/// offset bytes that are all 255 are the constant 4294967295, and the offset
/// -1 of a location of any other kind.
pub proof fn lemma_offset_signedness(order: Endian, s: Seq<u8>, p: int)
    requires
        0 <= p,
        spec_loc(order, s, p) is Ok,
        all_ones(s.subrange(p + 8, p + 12)),
    ensures
        spec_loc(order, s, p)->Ok_0.offset == if spec_loc(order, s, p)->Ok_0.kind
            == LocKind::Constant {
            LocOffset::U32(4294967295)
        } else {
            LocOffset::I32(-1i32)
        },
{
    lemma_value_ones(order, s.subrange(p + 8, p + 12));
}

/// A section whose first byte is not the supported version has no header,
/// whatever its other bytes are.
pub proof fn lemma_version_mismatch(order: Endian, s: Seq<u8>)
    requires
        s.len() > 0,
        s[0] != STACKMAP_VERSION,
    ensures
        spec_header(order, s) == Err::<Header, SMParserError>(
            SMParserError::UnsupportedVersion { expected: STACKMAP_VERSION, found: s[0] },
        ),
{
}

/// Whether a section has a header does not depend on the byte order, nor
/// does what is wrong with it, but for the number that a reserved pair of
/// bytes is reported as.
pub proof fn lemma_header_any_order(s: Seq<u8>)
    ensures
        spec_header(Endian::Little, s) is Ok <==> spec_header(Endian::Big, s) is Ok,
        spec_header(Endian::Little, s) matches Err(e) ==> spec_header(Endian::Big, s) == Err::<
            Header,
            SMParserError,
        >(e) || (e is MalformedHeader && spec_header(Endian::Big, s) matches Err(
            SMParserError::MalformedHeader { .. },
        )),
{
}

/// A header stops being one when one of its three reserved bytes is set to
/// something else than zero.
pub proof fn lemma_header_reserved(order: Endian, s: Seq<u8>, i: int, v: u8)
    requires
        spec_check_header(order, s) is Ok,
        1 <= i <= 3,
        v != 0,
    ensures
        spec_check_header(order, s.update(i, v)) matches Err(
            SMParserError::MalformedHeader { .. },
        ),
        spec_header(order, s.update(i, v)) matches Err(SMParserError::MalformedHeader { .. }),
{
}

/// A location stops being one when one of its three reserved bytes, the
/// second, seventh and eighth, is set to something else than zero.
pub proof fn lemma_location_reserved(order: Endian, s: Seq<u8>, p: int, i: int, v: u8)
    requires
        0 <= p,
        spec_loc(order, s, p) is Ok,
        i == 1 || i == 6 || i == 7,
        v != 0,
    ensures
        spec_loc(order, s.update(p + i, v), p) == Err::<SMLoc, SMParserError>(
            SMParserError::MalformedLocation,
        ),
{
}

/// Where the records from `p` on decode up to the one with index `k`, and a
/// reserved byte of one of its locations is set to something else than zero,
/// the records before it are handed out as they were, and in its place the
/// failure, and nothing more.
pub proof fn lemma_records_reserved(
    order: Endian,
    s: Seq<u8>,
    p: int,
    n: nat,
    k: nat,
    j: int,
    o: int,
    v: u8,
)
    requires
        0 <= p,
        k < n,
        rec_items(order, s, p, n).len() > k,
        forall|i: int| 0 <= i <= k ==> (#[trigger] rec_items(order, s, p, n)[i]) is Ok,
        0 <= j < u16_at(order, s, rec_start(order, s, p, k) + 14),
        o == 1 || o == 6 || o == 7,
        v != 0,
    ensures
        ({
            let b = rec_start(order, s, p, k) + 16 + SIZE_LOC_ENTRY * j + o;
            &&& p + 16 <= b < s.len()
            &&& rec_items(order, s.update(b, v), p, n) == rec_items(order, s, p, n).take(
                k as int,
            ).push(Err::<SMRecView, SMParserError>(SMParserError::MalformedLocation))
        }),
    decreases k,
{
    let b = rec_start(order, s, p, k) + 16 + SIZE_LOC_ENTRY * j + o;
    let t = s.update(b, v);
    let bad = Err::<SMRecView, SMParserError>(SMParserError::MalformedLocation);
    let items = rec_items(order, s, p, n);
    lemma_rec_items_step(order, s, p, n);
    assert(items[0] is Ok);
    let next = spec_rec(order, s, p)->Ok_0.1;
    if k == 0 {
        lemma_rec_with_bad_location(order, s, p, j, o, v);
        lemma_rec_items_step(order, t, p, n);
        assert(rec_items(order, t, p, n) =~= items.take(0).push(bad));
    } else {
        let rest = rec_items(order, s, next, (n - 1) as nat);
        lemma_rec_end_aligned(order, s, p);
        lemma_rec_start_grows(order, s, next, (k - 1) as nat);
        assert forall|i: int| 0 <= i <= k - 1 implies (#[trigger] rest[i]) is Ok by {
            assert(rest[i] == items[i + 1]);
        }
        lemma_records_reserved(order, s, next, (n - 1) as nat, (k - 1) as nat, j, o, v);
        lemma_rec_frame(order, s, p, b, v);
        lemma_rec_items_step(order, t, p, n);
        assert(rec_items(order, t, p, n) =~= items.take(k as int).push(bad));
    }
}

/// In a section that decodes from its header to its last record, setting a
/// reserved byte of a location to something else than zero leaves the
/// header and the function entries as they were, and makes the record of
/// that location the failure that ends the iteration.
pub proof fn lemma_section_reserved(order: Endian, s: Seq<u8>, k: nat, j: int, o: int, v: u8)
    requires
        valid_section(order, s),
        k < spec_header(order, s)->Ok_0.num_stackmaps,
        0 <= j < u16_at(order, s, record_start(order, s, k) + 14),
        o == 1 || o == 6 || o == 7,
        v != 0,
    ensures
        ({
            let header = spec_header(order, s)->Ok_0;
            let start = stackmaps_start(header.num_funcs, header.num_consts);
            let num_funcs = header.num_funcs as nat;
            let num_recs = header.num_stackmaps as nat;
            let t = s.update(record_start(order, s, k) + 16 + SIZE_LOC_ENTRY * j + o, v);
            &&& spec_header(order, t) == spec_header(order, s)
            &&& func_items(order, t, OFFS_STACK_SIZE_ENTRIES as int, num_funcs) == func_items(
                order,
                s,
                OFFS_STACK_SIZE_ENTRIES as int,
                num_funcs,
            )
            &&& rec_items(order, t, start, num_recs) == rec_items(order, s, start, num_recs).take(
                k as int,
            ).push(Err::<SMRecView, SMParserError>(SMParserError::MalformedLocation))
        }),
{
    let header = spec_header(order, s)->Ok_0;
    let start = stackmaps_start(header.num_funcs, header.num_consts);
    let n = header.num_stackmaps as nat;
    let b = record_start(order, s, k) + 16 + SIZE_LOC_ENTRY * j + o;
    lemma_rec_items_count(order, s, start, n);
    lemma_records_reserved(order, s, start, n, k, j, o, v);
    lemma_header_frame(order, s, b, v);
    lemma_func_items_frame(
        order,
        s,
        OFFS_STACK_SIZE_ENTRIES as int,
        header.num_funcs as nat,
        b,
        v,
    );
}

/// A location does not depend on a byte outside its twelve.
proof fn lemma_loc_frame(order: Endian, s: Seq<u8>, p: int, b: int, v: u8)
    requires
        0 <= p,
        0 <= b < s.len(),
        b < p || b >= p + SIZE_LOC_ENTRY,
    ensures
        spec_loc(order, s.update(b, v), p) == spec_loc(order, s, p),
{
    let t = s.update(b, v);
    if p + 12 <= s.len() {
        assert(t.subrange(p + 2, p + 4) =~= s.subrange(p + 2, p + 4));
        assert(t.subrange(p + 4, p + 6) =~= s.subrange(p + 4, p + 6));
        assert(t.subrange(p + 8, p + 12) =~= s.subrange(p + 8, p + 12));
    }
}

/// A table of locations does not depend on a byte outside it.
proof fn lemma_locs_frame(order: Endian, s: Seq<u8>, p: int, n: nat, b: int, v: u8)
    requires
        0 <= p,
        0 <= b < s.len(),
        b < p || b >= p + SIZE_LOC_ENTRY * n,
    ensures
        spec_locs(order, s.update(b, v), p, n) == spec_locs(order, s, p, n),
    decreases n,
{
    if n > 0 {
        lemma_locs_frame(order, s, p, (n - 1) as nat, b, v);
        lemma_loc_frame(order, s, p + SIZE_LOC_ENTRY * (n - 1), b, v);
    }
}

/// Where a table of locations decodes, each shorter one from the same start
/// does.
proof fn lemma_locs_prefix(order: Endian, s: Seq<u8>, p: int, i: nat, n: nat)
    requires
        i <= n,
        spec_locs(order, s, p, n) is Ok,
    ensures
        spec_locs(order, s, p, i) is Ok,
    decreases n,
{
    if i < n {
        lemma_locs_prefix(order, s, p, i, (n - 1) as nat);
    }
}

/// A record that decodes does not depend on a byte behind its end.
proof fn lemma_rec_frame(order: Endian, s: Seq<u8>, p: int, b: int, v: u8)
    requires
        0 <= p,
        0 <= b < s.len(),
        spec_rec(order, s, p) matches Ok((_, next)) && next <= b,
    ensures
        spec_rec(order, s.update(b, v), p) == spec_rec(order, s, p),
{
    reveal(spec_rec);
    let t = s.update(b, v);
    let num_locs = u16_at(order, s, p + 14);
    let q = liveouts_pos(p, num_locs);
    lemma_align8(p + 16 + SIZE_LOC_ENTRY * num_locs);
    lemma_align8(q + 2 + SIZE_LIVEOUT_ENTRY * u16_at(order, s, q));
    assert(t.subrange(p, p + 8) =~= s.subrange(p, p + 8));
    assert(t.subrange(p + 8, p + 12) =~= s.subrange(p + 8, p + 12));
    assert(t.subrange(p + 14, p + 16) =~= s.subrange(p + 14, p + 16));
    assert(t.subrange(q, q + 2) =~= s.subrange(q, q + 2));
    lemma_locs_frame(order, s, p + 16, num_locs as nat, b, v);
}

/// A record with a location whose reserved byte is not zero does not decode.
proof fn lemma_rec_with_bad_location(order: Endian, s: Seq<u8>, p: int, j: int, o: int, v: u8)
    requires
        0 <= p,
        spec_rec(order, s, p) is Ok,
        0 <= j < u16_at(order, s, p + 14),
        o == 1 || o == 6 || o == 7,
        v != 0,
    ensures
        p + 16 + SIZE_LOC_ENTRY * j + o < s.len(),
        spec_rec(order, s.update(p + 16 + SIZE_LOC_ENTRY * j + o, v), p) == Err::<
            (SMRecView, int),
            SMParserError,
        >(SMParserError::MalformedLocation),
{
    reveal(spec_rec);
    let num_locs = u16_at(order, s, p + 14);
    let at = p + 16 + SIZE_LOC_ENTRY * j;
    let b = at + o;
    let t = s.update(b, v);
    lemma_locs_each(order, s, p + 16, num_locs as nat);
    let locs = spec_locs(order, s, p + 16, num_locs as nat)->Ok_0;
    assert(spec_loc(order, s, at) == Ok::<SMLoc, SMParserError>(locs[j]));
    lemma_locs_prefix(order, s, p + 16, j as nat, num_locs as nat);
    lemma_locs_frame(order, s, p + 16, j as nat, b, v);
    lemma_location_reserved(order, s, at, o, v);
    lemma_locs_fail_on(order, t, p + 16, j as nat, num_locs as nat);
    assert(t.subrange(p + 14, p + 16) =~= s.subrange(p + 14, p + 16));
}

/// The record with index `k` starts behind the `k` records before it.
proof fn lemma_rec_start_grows(order: Endian, s: Seq<u8>, p: int, k: nat)
    requires
        0 <= p,
    ensures
        p <= rec_start(order, s, p, k),
    decreases k,
{
    if k > 0 {
        if let Ok((_, next)) = spec_rec(order, s, p) {
            lemma_rec_end_aligned(order, s, p);
            lemma_rec_start_grows(order, s, next, (k - 1) as nat);
        }
    }
}

/// A function entry does not depend on a byte behind the sixteen that are
/// read of it.
proof fn lemma_func_frame(order: Endian, s: Seq<u8>, p: int, b: int, v: u8)
    requires
        0 <= p,
        p + 16 <= b < s.len(),
    ensures
        spec_func(order, s.update(b, v), p) == spec_func(order, s, p),
{
    let t = s.update(b, v);
    assert(t.subrange(p, p + 8) =~= s.subrange(p, p + 8));
    assert(t.subrange(p + 8, p + 16) =~= s.subrange(p + 8, p + 16));
}

/// A function table does not depend on a byte behind it.
proof fn lemma_func_items_frame(order: Endian, s: Seq<u8>, p: int, n: nat, b: int, v: u8)
    requires
        0 <= p,
        p + SIZE_STACK_SIZE_ENTRY * n <= b < s.len(),
    ensures
        func_items(order, s.update(b, v), p, n) == func_items(order, s, p, n),
    decreases n,
{
    if n > 0 {
        lemma_func_frame(order, s, p, b, v);
        if spec_func(order, s, p) is Ok {
            lemma_func_items_frame(order, s, p + SIZE_STACK_SIZE_ENTRY, (n - 1) as nat, b, v);
        }
    }
}

/// A header does not depend on a byte behind its sixteen.
proof fn lemma_header_frame(order: Endian, s: Seq<u8>, b: int, v: u8)
    requires
        16 <= b < s.len(),
    ensures
        spec_header(order, s.update(b, v)) == spec_header(order, s),
{
    let t = s.update(b, v);
    assert(t.subrange(2, 4) =~= s.subrange(2, 4));
    assert(t.subrange(4, 8) =~= s.subrange(4, 8));
    assert(t.subrange(8, 12) =~= s.subrange(8, 12));
    assert(t.subrange(12, 16) =~= s.subrange(12, 16));
}

} // verus!
