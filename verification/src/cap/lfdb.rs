//! The Load File Data Block, one piece at a time.
use vstd::prelude::*;

use crate::cap::inflate::{
    alike, blank_window, flow_bytes, followed_by, self_contained, unpacked, written, InflateCtx,
    InflateStatus,
};
use crate::cap::zip::{CompLoc, LFDB_COMPONENTS, METHOD_DEFLATE};
use crate::cap::{packed, CapError};
use crate::limits::INFLATE_WINDOW;

verus! {

// ---- What the block is -----------------------------------------------------

/// A stream without its first `n` bytes.
pub open spec fn flow_after(flow: Result<Seq<u8>, Seq<u8>>, n: int) -> Result<Seq<u8>, Seq<u8>> {
    match flow {
        Ok(x) => Ok(x.skip(n)),
        Err(x) => Err(x.skip(n)),
    }
}

/// The part of the archive between two places, as far as it is there.
pub open spec fn part(zip: Seq<u8>, from: int, to: int) -> Seq<u8> {
    zip.subrange(min_len(from, zip.len() as int), min_len(to, zip.len() as int))
}

/// The smaller of two lengths.
pub open spec fn min_len(a: int, b: int) -> int {
    if a < b {
        a
    } else {
        b
    }
}

/// The bytes of a stored component after the first `emitted`, as far as they are there.
pub open spec fn stored_rest(zip: Seq<u8>, loc: CompLoc, emitted: int) -> Seq<u8> {
    part(zip, loc.data_off + emitted, loc.data_off + loc.uncomp_size)
}

/// The component lies outside the archive.
pub open spec fn beyond_archive(zip: Seq<u8>, loc: CompLoc) -> bool {
    loc.data_off + loc.comp_size > zip.len()
}

/// What comes of a component through a ring that held `window` before: what lies in the
/// archive, or what that unpacks to.
pub open spec fn content_over(zip: Seq<u8>, loc: CompLoc, window: Seq<u8>) -> Result<
    Seq<u8>,
    Seq<u8>,
> {
    if loc.method != METHOD_DEFLATE {
        Ok(stored_rest(zip, loc, 0))
    } else if beyond_archive(zip, loc) {
        Err(Seq::empty())
    } else {
        unpacked(window, packed(zip, loc))
    }
}

/// The bytes of a component.
pub open spec fn content(zip: Seq<u8>, loc: CompLoc) -> Result<Seq<u8>, Seq<u8>> {
    content_over(zip, loc, blank_window())
}

/// The component does not refer back to before its beginning.
pub open spec fn stands_alone(zip: Seq<u8>, loc: CompLoc) -> bool {
    loc.method == METHOD_DEFLATE && !beyond_archive(zip, loc) ==> self_contained(packed(zip, loc))
}

/// No component refers back to before its beginning.
pub open spec fn all_stand_alone(zip: Seq<u8>, locs: Seq<Option<CompLoc>>) -> bool {
    forall|k: int|
        0 <= k < LFDB_COMPONENTS ==> (#[trigger] locs[k] matches Some(loc) ==> stands_alone(
            zip,
            loc,
        ))
}

/// No component is compressed.
pub open spec fn nothing_packed(locs: Seq<Option<CompLoc>>) -> bool {
    forall|k: int|
        0 <= k < LFDB_COMPONENTS ==> (#[trigger] locs[k] matches Some(loc) ==> loc.method
            != METHOD_DEFLATE)
}

/// A component is there, sound, and as long as the archive says.
pub open spec fn complete_component(zip: Seq<u8>, loc: CompLoc) -> bool {
    &&& stands_alone(zip, loc)
    &&& content(zip, loc) matches Ok(x) && x.len() == loc.uncomp_size
}

/// Every component is there, sound, and as long as the archive says.
pub open spec fn complete(zip: Seq<u8>, locs: Seq<Option<CompLoc>>) -> bool {
    forall|k: int|
        0 <= k < LFDB_COMPONENTS ==> (#[trigger] locs[k] matches Some(loc) ==> complete_component(
            zip,
            loc,
        ))
}

/// The components from number `k` on, one behind the other.
pub open spec fn components_from(zip: Seq<u8>, locs: Seq<Option<CompLoc>>, k: int) -> Seq<u8>
    decreases LFDB_COMPONENTS - k,
{
    if k >= LFDB_COMPONENTS {
        Seq::empty()
    } else {
        match locs[k] {
            None => components_from(zip, locs, k + 1),
            Some(loc) => flow_bytes(content(zip, loc)) + components_from(zip, locs, k + 1),
        }
    }
}

/// The length of all components from number `k` on, as the archive gives it.
pub open spec fn size_from(locs: Seq<Option<CompLoc>>, k: int) -> nat
    decreases LFDB_COMPONENTS - k,
{
    if k >= LFDB_COMPONENTS {
        0
    } else {
        size_from(locs, k + 1) + match locs[k] {
            Some(loc) => loc.uncomp_size as nat,
            None => 0nat,
        }
    }
}

/// A length that fits the machine.
pub open spec fn fitting(n: nat) -> usize {
    if n <= usize::MAX {
        n as usize
    } else {
        usize::MAX
    }
}

/// Tag and length in front of the components.
pub open spec fn block_header(len: nat) -> Seq<u8> {
    if len < 0x80 {
        seq![0xC4u8, len as u8]
    } else if len <= 0xFF {
        seq![0xC4u8, 0x81u8, len as u8]
    } else if len <= 0xFFFF {
        seq![0xC4u8, 0x82u8, (len / 0x100) as u8, (len % 0x100) as u8]
    } else {
        seq![
            0xC4u8,
            0x83u8,
            (len / 0x1_0000 % 0x100) as u8,
            (len / 0x100 % 0x100) as u8,
            (len % 0x100) as u8,
        ]
    }
}

/// The block of a complete archive: tag, length, and the components in order, unpacked.
pub open spec fn block_of(zip: Seq<u8>, locs: Seq<Option<CompLoc>>) -> Seq<u8> {
    header_of_block(locs) + components_from(zip, locs, 0)
}

/// Tag and length of the block.
pub open spec fn header_of_block(locs: Seq<Option<CompLoc>>) -> Seq<u8> {
    block_header(fitting(size_from(locs, 0)) as nat)
}

/// The length of the block, as the archive gives it.
pub open spec fn framed_len(locs: Seq<Option<CompLoc>>) -> usize {
    fitting(header_of_block(locs).len() + fitting(size_from(locs, 0)) as nat)
}

/// The block of a complete archive is as long as its directory says, and its header
/// says how long the components are.
pub proof fn law_block_length(zip: Seq<u8>, locs: Seq<Option<CompLoc>>)
    requires
        complete(zip, locs),
        framed_len(locs) < usize::MAX,
    ensures
        block_of(zip, locs).len() == framed_len(locs),
        block_of(zip, locs).take(block_header(size_from(locs, 0)).len() as int) == block_header(
            size_from(locs, 0),
        ),
{
    lemma_sizes(zip, locs, 0);
    let b = block_of(zip, locs);
    let h = block_header(size_from(locs, 0));
    assert(b.take(h.len() as int) =~= h);
}

proof fn lemma_sizes(zip: Seq<u8>, locs: Seq<Option<CompLoc>>, k: int)
    requires
        complete(zip, locs),
        0 <= k,
    ensures
        components_from(zip, locs, k).len() == size_from(locs, k),
    decreases LFDB_COMPONENTS - k,
{
    if k < LFDB_COMPONENTS {
        lemma_sizes(zip, locs, k + 1);
        assert(locs[k] matches Some(loc) ==> complete_component(zip, loc));
    }
}

// ---- What a reader gives ---------------------------------------------------

/// How far the block has been read: how much of its header, and how much of which
/// component.
pub struct Place {
    pub header: int,
    pub comp: int,
    pub taken: int,
}

/// The beginning of the block.
pub open spec fn beginning() -> Place {
    Place { header: 0, comp: 0, taken: 0 }
}

/// What one call of the reader gives: these bytes, or a failure, and the place where it
/// goes on. How many bytes come is always known. Which they are is `sure` where no
/// component that they come from refers back to before its beginning.
pub struct Reading {
    pub bytes: Seq<u8>,
    pub sure: bool,
    pub failed: bool,
    pub place: Place,
}

/// Some bytes in front of a reading.
pub open spec fn and_then_read(first: Seq<u8>, sure: bool, rest: Reading) -> Reading {
    Reading { bytes: first + rest.bytes, sure: sure && rest.sure, ..rest }
}

/// Reading components, with room for `room` bytes. A component is left as soon as as
/// many bytes came of it as the archive says; the call that gets there takes whatever
/// else the component holds, as far as there is room. Where bytes are missing nothing
/// more comes. A corrupt component is a failure as soon as there is room for more than
/// comes of it.
pub open spec fn components_read(
    zip: Seq<u8>,
    locs: Seq<Option<CompLoc>>,
    at: Place,
    room: int,
) -> Reading
    decreases LFDB_COMPONENTS - at.comp,
{
    if room <= 0 || at.comp >= LFDB_COMPONENTS {
        Reading { bytes: Seq::empty(), sure: true, failed: false, place: at }
    } else {
        let next = Place { comp: at.comp + 1, taken: 0, ..at };
        match locs[at.comp] {
            None => components_read(zip, locs, next, room),
            Some(loc) => {
                let bytes = flow_bytes(content(zip, loc)).skip(at.taken);
                let n = min_len(room, bytes.len() as int);
                if content(zip, loc) is Err && room > bytes.len() {
                    Reading { bytes: Seq::empty(), sure: true, failed: true, place: at }
                } else if at.taken + n >= loc.uncomp_size {
                    and_then_read(
                        bytes.take(n),
                        stands_alone(zip, loc),
                        components_read(zip, locs, next, room - n),
                    )
                } else {
                    Reading {
                        bytes: bytes.take(n),
                        sure: stands_alone(zip, loc),
                        failed: false,
                        place: Place { taken: at.taken + n, ..at },
                    }
                }
            },
        }
    }
}

/// Reading the block, with room for `room` bytes: first what is left of the header.
pub open spec fn block_read(
    zip: Seq<u8>,
    locs: Seq<Option<CompLoc>>,
    at: Place,
    room: int,
) -> Reading {
    let header = header_of_block(locs).skip(at.header);
    let n = min_len(room, header.len() as int);
    and_then_read(
        header.take(n),
        true,
        components_read(zip, locs, Place { header: at.header + n, ..at }, room - n),
    )
}

/// How a call ended and which bytes it put out, against the reading.
pub open spec fn as_read(x: Reading, r: Result<usize, CapError>, bytes: Seq<u8>) -> bool {
    match r {
        Ok(n) => !x.failed && n == x.bytes.len() && (x.sure ==> bytes == x.bytes),
        Err(e) => x.failed && e == CapError::Inflate,
    }
}

/// One call of the reader: the room that it had, how it ended, and the bytes that it
/// put out.
pub struct Call {
    pub room: nat,
    pub r: Result<usize, CapError>,
    pub bytes: Seq<u8>,
}

/// These calls, one after the other, read the block from a place on, up to a failure.
pub open spec fn reads(
    zip: Seq<u8>,
    locs: Seq<Option<CompLoc>>,
    at: Place,
    calls: Seq<Call>,
) -> bool
    decreases calls.len(),
{
    calls.len() > 0 ==> {
        let x = block_read(zip, locs, at, calls[0].room as int);
        &&& as_read(x, calls[0].r, calls[0].bytes)
        &&& if x.failed {
            calls.len() == 1
        } else {
            reads(zip, locs, x.place, calls.drop_first())
        }
    }
}

/// Where no component refers back to before its beginning every reading is sure.
proof fn lemma_all_sure(zip: Seq<u8>, locs: Seq<Option<CompLoc>>, at: Place, room: int)
    requires
        at.comp >= 0,
    ensures
        components_read(zip, locs, at, room).place.comp >= at.comp,
        all_stand_alone(zip, locs) ==> components_read(zip, locs, at, room).sure,
    decreases LFDB_COMPONENTS - at.comp,
{
    if room > 0 && at.comp < LFDB_COMPONENTS {
        let next = Place { comp: at.comp + 1, taken: 0, ..at };
        match locs[at.comp] {
            None => lemma_all_sure(zip, locs, next, room),
            Some(loc) => {
                let bytes = flow_bytes(content(zip, loc)).skip(at.taken);
                lemma_all_sure(zip, locs, next, room - min_len(room, bytes.len() as int));
            },
        }
    }
}

/// Two runs through the same block, with the same rooms, end in the same way call by
/// call, with as many bytes; and with the same bytes where no component refers back to
/// before its beginning.
proof fn lemma_same_run(
    zip: Seq<u8>,
    locs: Seq<Option<CompLoc>>,
    at: Place,
    first: Seq<Call>,
    again: Seq<Call>,
    i: int,
)
    requires
        reads(zip, locs, at, first),
        reads(zip, locs, at, again),
        first.len() == again.len(),
        forall|k: int| 0 <= k < first.len() ==> #[trigger] first[k].room == again[k].room,
        0 <= i < first.len(),
        at.comp >= 0,
    ensures
        first[i].r == again[i].r,
        all_stand_alone(zip, locs) && first[i].r is Ok ==> first[i].bytes == again[i].bytes,
    decreases first.len(),
{
    assert(first[0].room == again[0].room);
    let room = first[0].room as int;
    let x = block_read(zip, locs, at, room);
    let n = min_len(room, header_of_block(locs).skip(at.header).len() as int);
    lemma_all_sure(zip, locs, Place { header: at.header + n, ..at }, room - n);
    if i > 0 {
        let f = first.drop_first();
        let g = again.drop_first();
        assert forall|k: int| 0 <= k < f.len() implies #[trigger] f[k].room == g[k].room by {
            assert(first[k + 1].room == again[k + 1].room);
        }
        lemma_same_run(zip, locs, x.place, f, g, i - 1);
        assert(f[i - 1] == first[i] && g[i - 1] == again[i]);
    }
}

/// A reader that was set back to the beginning gives what a new one gives: the lengths
/// are the same, and with the same rooms its calls end in the same way, with as many
/// bytes; and with the same bytes where no component refers back to before its
/// beginning.
pub proof fn law_reading_again_gives_the_same(
    one: LoadFileDataBlock<'_>,
    other: LoadFileDataBlock<'_>,
    first: Seq<Call>,
    again: Seq<Call>,
    i: int,
)
    requires
        one.archive() == other.archive(),
        one.locations() == other.locations(),
        one.place() == beginning(),
        other.place() == beginning(),
        reads(one.archive(), one.locations(), one.place(), first),
        reads(other.archive(), other.locations(), other.place(), again),
        first.len() == again.len(),
        forall|k: int| 0 <= k < first.len() ==> #[trigger] first[k].room == again[k].room,
        0 <= i < first.len(),
    ensures
        framed_len(one.locations()) == framed_len(other.locations()),
        size_from(one.locations(), 0) == size_from(other.locations(), 0),
        first[i].r == again[i].r,
        all_stand_alone(one.archive(), one.locations()) && first[i].r is Ok ==> first[i].bytes
            == again[i].bytes,
{
    lemma_same_run(one.archive(), one.locations(), beginning(), first, again, i);
}

/// What of the block of a complete archive lies behind a place.
pub open spec fn unread(zip: Seq<u8>, locs: Seq<Option<CompLoc>>, at: Place) -> Seq<u8> {
    header_of_block(locs).skip(at.header) + components_unread(zip, locs, at)
}

/// What of the components lies behind a place.
pub open spec fn components_unread(zip: Seq<u8>, locs: Seq<Option<CompLoc>>, at: Place) -> Seq<
    u8,
> {
    if at.comp >= LFDB_COMPONENTS {
        Seq::empty()
    } else {
        match locs[at.comp] {
            None => components_from(zip, locs, at.comp + 1),
            Some(loc) => flow_bytes(content(zip, loc)).skip(at.taken) + components_from(
                zip,
                locs,
                at.comp + 1,
            ),
        }
    }
}

/// A place inside the block.
pub open spec fn in_block(zip: Seq<u8>, locs: Seq<Option<CompLoc>>, at: Place) -> bool {
    &&& 0 <= at.header <= header_of_block(locs).len()
    &&& 0 <= at.comp <= LFDB_COMPONENTS
    &&& at.comp < LFDB_COMPONENTS ==> (locs[at.comp] matches Some(loc) ==> 0 <= at.taken
        <= flow_bytes(content(zip, loc)).len())
}

/// The whole block lies behind its beginning.
pub proof fn law_block_from_its_beginning(zip: Seq<u8>, locs: Seq<Option<CompLoc>>)
    ensures
        in_block(zip, locs, beginning()),
        unread(zip, locs, beginning()) == block_of(zip, locs),
{
    let h = header_of_block(locs);
    assert(h.skip(0) =~= h);
    if let Some(loc) = locs[0] {
        let c = flow_bytes(content(zip, loc));
        assert(c.skip(0) =~= c);
    }
}

/// Reading the block of a complete archive does not fail. It gives the bytes that lie
/// behind the place, as many as there is room for, and goes on behind them.
pub proof fn law_reading_gives_the_block(
    zip: Seq<u8>,
    locs: Seq<Option<CompLoc>>,
    at: Place,
    room: int,
)
    requires
        complete(zip, locs),
        in_block(zip, locs, at),
        room >= 0,
    ensures
        ({
            let x = block_read(zip, locs, at, room);
            let left = unread(zip, locs, at);
            let n = min_len(room, left.len() as int);
            &&& !x.failed
            &&& x.sure
            &&& x.bytes == left.take(n)
            &&& in_block(zip, locs, x.place)
            &&& unread(zip, locs, x.place) == left.skip(n)
        }),
{
    let h = header_of_block(locs).skip(at.header);
    let k = min_len(room, h.len() as int);
    let there = Place { header: at.header + k, ..at };
    lemma_components_read(zip, locs, there, room - k);
    let x = block_read(zip, locs, at, room);
    let left = unread(zip, locs, at);
    let n = min_len(room, left.len() as int);
    let body = components_unread(zip, locs, at);
    assert(components_unread(zip, locs, there) == body);
    assert(x.bytes =~= left.take(n));
    let rest = header_of_block(locs).skip(at.header + k);
    assert(rest =~= h.skip(k));
    if room <= h.len() {
        assert(body.skip(0) =~= body);
        assert(unread(zip, locs, x.place) =~= left.skip(n));
    } else {
        assert(rest =~= Seq::empty());
        assert(unread(zip, locs, x.place) =~= left.skip(n));
    }
}

proof fn lemma_components_read(
    zip: Seq<u8>,
    locs: Seq<Option<CompLoc>>,
    at: Place,
    room: int,
)
    requires
        complete(zip, locs),
        in_block(zip, locs, at),
        room >= 0,
    ensures
        ({
            let x = components_read(zip, locs, at, room);
            let left = components_unread(zip, locs, at);
            let n = min_len(room, left.len() as int);
            &&& !x.failed
            &&& x.sure
            &&& x.bytes == left.take(n)
            &&& x.place.header == at.header
            &&& in_block(zip, locs, x.place)
            &&& components_unread(zip, locs, x.place) == left.skip(n)
        }),
    decreases LFDB_COMPONENTS - at.comp,
{
    let x = components_read(zip, locs, at, room);
    let left = components_unread(zip, locs, at);
    let n = min_len(room, left.len() as int);
    if room == 0 || at.comp >= LFDB_COMPONENTS {
        assert(left.skip(0) =~= left);
        assert(left.take(0) =~= Seq::empty());
    } else {
        let next = Place { comp: at.comp + 1, taken: 0, ..at };
        assert(components_unread(zip, locs, next) == components_from(zip, locs, at.comp + 1)) by {
            if next.comp < LFDB_COMPONENTS {
                if let Some(loc) = locs[next.comp] {
                    let c = flow_bytes(content(zip, loc));
                    assert(c.skip(0) =~= c);
                }
            }
        }
        match locs[at.comp] {
            None => {
                lemma_components_read(zip, locs, next, room);
            },
            Some(loc) => {
                assert(complete_component(zip, loc));
                let bytes = flow_bytes(content(zip, loc)).skip(at.taken);
                let m = min_len(room, bytes.len() as int);
                let later = components_from(zip, locs, at.comp + 1);
                if at.taken + m >= loc.uncomp_size {
                    lemma_components_read(zip, locs, next, room - m);
                    assert(bytes.take(m) =~= bytes);
                    assert(x.bytes =~= left.take(n));
                    assert(left.skip(n) =~= later.skip(n - m));
                } else {
                    assert(x.bytes =~= left.take(n));
                    assert(flow_bytes(content(zip, loc)).skip(at.taken + m) =~= bytes.skip(m));
                    assert(left.skip(n) =~= bytes.skip(m) + later);
                }
            },
        }
    }
}

// ---- Reading it ------------------------------------------------------------

/// How far a component has been read.
#[derive(Clone, Copy)]
pub struct CompCursor {
    /// Packed bytes that the decompressor has taken.
    pub in_pos: usize,
    /// Unpacked bytes that wait in the window: where they start and how many.
    pub start: usize,
    pub pending: usize,
    /// Bytes handed on, up to the length of the component.
    pub emitted: usize,
    /// The decompressor saw the end of its stream.
    pub done: bool,
    /// The decompressor was set to the beginning of the component.
    pub started: bool,
}

impl CompCursor {
    /// At the beginning of a component.
    pub open spec fn fresh() -> CompCursor {
        CompCursor {
            in_pos: 0,
            start: 0,
            pending: 0,
            emitted: 0,
            done: false,
            started: false,
        }
    }

    fn new() -> (r: CompCursor)
        ensures
            r == CompCursor::fresh(),
    {
        CompCursor { in_pos: 0, start: 0, pending: 0, emitted: 0, done: false, started: false }
    }

    /// What waits lies inside the window, and nothing waits before the decompressor
    /// was started.
    pub open spec fn inside(self) -> bool {
        &&& self.start + self.pending <= 32768
        &&& !self.started ==> self.in_pos == 0 && self.start == 0 && self.pending == 0
            && !self.done
    }

    /// Where the decompressor writes next.
    pub open spec fn write_pos(self) -> int {
        if self.start + self.pending == 32768 {
            0
        } else {
            self.start + self.pending
        }
    }
}

/// What is still to come of a component.
#[verifier::opaque]
pub open spec fn component_flow(
    zip: Seq<u8>,
    loc: CompLoc,
    cursor: CompCursor,
    infl: InflateCtx,
) -> Result<Seq<u8>, Seq<u8>> {
    if loc.method != METHOD_DEFLATE {
        Ok(stored_rest(zip, loc, cursor.emitted as int))
    } else if !cursor.started {
        content_over(zip, loc, infl.window_of())
    } else {
        followed_by(
            infl.window_of().subrange(cursor.start as int, cursor.start + cursor.pending),
            if cursor.done {
                Ok(Seq::empty())
            } else if beyond_archive(zip, loc) || cursor.in_pos > loc.comp_size {
                Err(Seq::empty())
            } else {
                infl.to_come(cursor.write_pos(), packed(zip, loc).skip(cursor.in_pos as int))
            },
        )
    }
}

/// What handing on the bytes of a component comes to, with room for `room` of them:
/// as many as there is room for, or all of them, or a failure where the stream is
/// corrupt and there is room for more.
#[verifier::opaque]
pub open spec fn handed_on(
    flow: Result<Seq<u8>, Seq<u8>>,
    room: int,
    r: Result<usize, CapError>,
    bytes: Seq<u8>,
    left: Result<Seq<u8>, Seq<u8>>,
) -> bool {
    let n = min_len(room, flow_bytes(flow).len() as int);
    if room > flow_bytes(flow).len() && flow is Err {
        r is Err
    } else {
        &&& r == Ok::<usize, CapError>(n as usize)
        &&& bytes == flow_bytes(flow).take(n)
        &&& left == flow_after(flow, n)
    }
}

/// Counts bytes handed on.
fn count(emitted: usize, n: usize, size: usize) -> (r: usize)
    ensures
        r == (if emitted + n < size {
            emitted + n
        } else if emitted < size {
            size as int
        } else {
            emitted as int
        }),
{
    if emitted >= size {
        emitted
    } else if n >= size - emitted {
        size
    } else {
        emitted + n
    }
}

/// Hands on the next bytes of a stored component.
#[verifier::rlimit(30)]
fn emit_stored(zip: &[u8], loc: &CompLoc, cursor: &mut CompCursor, out: &mut [u8], at: usize) -> (r:
    usize)
    requires
        at <= old(out)@.len(),
        loc.method != METHOD_DEFLATE,
        old(cursor).emitted <= loc.uncomp_size,
        old(cursor).inside(),
    ensures
        final(cursor).inside(),
        final(cursor).emitted <= loc.uncomp_size,
        final(cursor).emitted == min_len(old(cursor).emitted + r, loc.uncomp_size as int),
        final(out)@.len() == old(out)@.len(),
        r <= old(out)@.len() - at,
        final(out)@.take(at as int) == old(out)@.take(at as int),
        final(out)@.skip(at + r) == old(out)@.skip(at + r),
        handed_on(
            Ok(stored_rest(zip@, *loc, old(cursor).emitted as int)),
            old(out)@.len() - at,
            Ok(r),
            final(out)@.subrange(at as int, at + r),
            Ok(stored_rest(zip@, *loc, final(cursor).emitted as int)),
        ),
{
    let ghost out0 = out@;
    let left: usize = if loc.uncomp_size > cursor.emitted {
        loc.uncomp_size - cursor.emitted
    } else {
        0
    };
    let here: usize = if loc.data_off <= zip.len() && cursor.emitted <= zip.len() - loc.data_off {
        zip.len() - loc.data_off - cursor.emitted
    } else {
        0
    };
    let room: usize = out.len() - at;
    let mut take: usize = left;
    if take > room {
        take = room;
    }
    if take > here {
        take = here;
    }
    let start: usize = if take > 0 {
        loc.data_off + cursor.emitted
    } else {
        0
    };
    let mut i: usize = 0;
    while i < take
        invariant
            i <= take,
            at + take <= out.len(),
            start + take <= zip.len(),
            out@.len() == out0.len(),
            out@.take(at as int) =~= out0.take(at as int),
            forall|k: int| at + i <= k < out0.len() ==> out@[k] == out0[k],
            out@.subrange(at as int, at + i) =~= zip@.subrange(start as int, start + i),
        decreases take - i,
    {
        out[at + i] = zip[start + i];
        i = i + 1;
    }
    let ghost c0 = *cursor;
    *cursor = CompCursor { emitted: count(cursor.emitted, take, loc.uncomp_size), ..*cursor };
    proof {
        reveal(handed_on);
        assert(out@.skip(at + take) =~= out0.skip(at + take));
        let there = stored_rest(zip@, *loc, c0.emitted as int);
        assert(there.len() == min_len(left as int, here as int));
        assert(take == min_len(room as int, there.len() as int));
        assert(out@.subrange(at as int, at + take) =~= there.take(take as int));
        assert(cursor.emitted == c0.emitted + take);
        assert(stored_rest(zip@, *loc, cursor.emitted as int) =~= there.skip(take as int));
    }
    take
}

/// Drives the decompressor once.
fn pump(zip: &[u8], loc: &CompLoc, cursor: &mut CompCursor, infl: &mut InflateCtx) -> (r: Result<
    (),
    CapError,
>)
    requires
        loc.method == METHOD_DEFLATE,
        old(cursor).inside(),
        old(cursor).started,
        !old(cursor).done,
        old(cursor).pending == 0,
    ensures
        final(cursor).inside(),
        final(cursor).started,
        final(cursor).emitted == old(cursor).emitted,
        match r {
            Ok(()) => {
                &&& final(cursor).pending > 0 || final(cursor).done
                &&& component_flow(zip@, *loc, *final(cursor), *final(infl)) == component_flow(
                    zip@,
                    *loc,
                    *old(cursor),
                    *old(infl),
                )
            },
            Err(e) => e == CapError::Inflate && component_flow(
                zip@,
                *loc,
                *old(cursor),
                *old(infl),
            ) == Err::<Seq<u8>, Seq<u8>>(Seq::empty()),
        },
{
    let ghost waiting0 = infl.window_of().subrange(cursor.start as int, cursor.start as int);
    proof {
        reveal(component_flow);
        infl.lemma_window_len();
        assert(waiting0 =~= Seq::empty());
        assert(waiting0 + Seq::<u8>::empty() =~= Seq::empty());
    }
    if loc.data_off > zip.len() || loc.comp_size > zip.len() - loc.data_off || cursor.in_pos
        > loc.comp_size {
        return Err(CapError::Inflate);
    }
    let input: &[u8] = &zip[loc.data_off + cursor.in_pos..loc.data_off + loc.comp_size];
    assert(input@ =~= packed(zip@, *loc).skip(cursor.in_pos as int));
    let pos: usize = if cursor.start == INFLATE_WINDOW {
        0
    } else {
        cursor.start
    };
    let ghost c0 = *cursor;
    let ghost i0 = *infl;
    let ghost to_come = i0.to_come(pos as int, input@);
    let (status, consumed, produced) = infl.step(input, pos);
    *cursor = CompCursor {
        in_pos: cursor.in_pos + consumed,
        start: pos,
        pending: produced,
        done: status == InflateStatus::Done,
        ..*cursor
    };
    proof {
        let wrote = written(infl.window_of(), pos, produced);
        assert(followed_by(waiting0, to_come) == to_come) by {
            assert(waiting0 + flow_bytes(to_come) =~= flow_bytes(to_come));
        }
        assert(infl.window_of().subrange(pos as int, pos + produced) == wrote);
        if status == InflateStatus::Done {
            assert(wrote + Seq::<u8>::empty() =~= wrote);
        } else if status == InflateStatus::HasMoreOutput {
            assert(input@.skip(consumed as int) =~= packed(zip@, *loc).skip(cursor.in_pos as int));
        }
    }
    match status {
        InflateStatus::Done => Ok(()),
        InflateStatus::HasMoreOutput => {
            if consumed == 0 && produced == 0 {
                Err(CapError::Inflate)
            } else {
                Ok(())
            }
        },
        InflateStatus::NeedsMoreInput => {
            if consumed == 0 && produced == 0 {
                Err(CapError::Inflate)
            } else {
                Ok(())
            }
        },
        _ => Err(CapError::Inflate),
    }
}

/// Hands on bytes that wait in the window.
fn drain(
    loc: &CompLoc,
    cursor: &mut CompCursor,
    infl: &InflateCtx,
    out: &mut [u8],
    at: usize,
    zip: Ghost<Seq<u8>>,
) -> (r: usize)
    requires
        loc.method == METHOD_DEFLATE,
        old(cursor).inside(),
        old(cursor).started,
        old(cursor).pending > 0,
        old(cursor).emitted <= loc.uncomp_size,
        at < old(out)@.len(),
    ensures
        final(cursor).inside(),
        final(cursor).started,
        final(cursor).in_pos == old(cursor).in_pos,
        final(cursor).done == old(cursor).done,
        final(out)@.len() == old(out)@.len(),
        0 < r <= old(out)@.len() - at,
        r == min_len(old(cursor).pending as int, old(out)@.len() - at),
        final(cursor).emitted == min_len(old(cursor).emitted + r, loc.uncomp_size as int),
        final(out)@.take(at as int) == old(out)@.take(at as int),
        final(out)@.skip(at + r) == old(out)@.skip(at + r),
        ({
            let f = component_flow(zip@, *loc, *old(cursor), *infl);
            &&& r <= flow_bytes(f).len()
            &&& final(out)@.subrange(at as int, at + r) == flow_bytes(f).take(r as int)
            &&& component_flow(zip@, *loc, *final(cursor), *infl) == flow_after(f, r as int)
        }),
{
    let ghost out0 = out@;
    let ghost c0 = *cursor;
    proof {
        reveal(component_flow);
    }
    let room: usize = out.len() - at;
    let take: usize = if cursor.pending > room {
        room
    } else {
        cursor.pending
    };
    proof {
        infl.lemma_window_len();
    }
    let mut i: usize = 0;
    while i < take
        invariant
            i <= take,
            at + take <= out.len(),
            *cursor == c0,
            c0.start + take <= 32768,
            infl.window_of().len() == 32768,
            out@.len() == out0.len(),
            out@.take(at as int) =~= out0.take(at as int),
            forall|k: int| at + i <= k < out0.len() ==> out@[k] == out0[k],
            out@.subrange(at as int, at + i) =~= infl.window_of().subrange(
                c0.start as int,
                c0.start + i,
            ),
        decreases take - i,
    {
        out[at + i] = infl.byte(cursor.start + i);
        i = i + 1;
    }
    *cursor = CompCursor {
        start: cursor.start + take,
        pending: cursor.pending - take,
        emitted: count(cursor.emitted, take, loc.uncomp_size),
        ..*cursor
    };
    proof {
        assert(out@.skip(at + take) =~= out0.skip(at + take));
        let f = component_flow(zip@, *loc, c0, *infl);
        let waiting0 = infl.window_of().subrange(c0.start as int, c0.start + c0.pending);
        let waiting1 = infl.window_of().subrange(
            cursor.start as int,
            cursor.start + cursor.pending,
        );
        let rest = if c0.done {
            Ok(Seq::empty())
        } else if beyond_archive(zip@, *loc) || c0.in_pos > loc.comp_size {
            Err(Seq::empty())
        } else {
            infl.to_come(c0.write_pos(), packed(zip@, *loc).skip(c0.in_pos as int))
        };
        let later = flow_bytes(rest);
        assert(f == followed_by(waiting0, rest));
        assert(waiting0.skip(take as int) =~= waiting1);
        assert(cursor.write_pos() == c0.write_pos());
        assert(flow_bytes(f).skip(take as int) =~= waiting1 + later);
        assert(out@.subrange(at as int, at + take) =~= flow_bytes(f).take(take as int));
        assert(component_flow(zip@, *loc, *cursor, *infl) == flow_after(f, take as int));
    }
    take
}

/// What comes of a component is as many bytes as the component says, and those bytes
/// where it does not refer back to before its beginning.
pub open spec fn follows(
    zip: Seq<u8>,
    loc: CompLoc,
    taken: int,
    flow: Result<Seq<u8>, Seq<u8>>,
) -> bool {
    &&& 0 <= taken <= flow_bytes(content(zip, loc)).len()
    &&& alike(flow, flow_after(content(zip, loc), taken))
    &&& stands_alone(zip, loc) ==> flow == flow_after(content(zip, loc), taken)
}

/// Hands on the next bytes of a compressed component.
#[verifier::rlimit(30)]
fn emit_deflate(
    zip: &[u8],
    loc: &CompLoc,
    cursor: &mut CompCursor,
    infl: &mut InflateCtx,
    out: &mut [u8],
    at: usize,
) -> (r: Result<usize, CapError>)
    requires
        at <= old(out)@.len(),
        loc.method == METHOD_DEFLATE,
        old(cursor).inside(),
        old(cursor).emitted <= loc.uncomp_size,
    ensures
        final(cursor).inside(),
        final(cursor).started,
        final(cursor).emitted <= loc.uncomp_size,
        final(out)@.len() == old(out)@.len(),
        r matches Ok(n) ==> n <= old(out)@.len() - at && final(cursor).emitted == min_len(
            old(cursor).emitted + n,
            loc.uncomp_size as int,
        ),
        r matches Err(e) ==> e == CapError::Inflate,
        final(out)@.take(at as int) == old(out)@.take(at as int),
        r matches Ok(n) ==> final(out)@.skip(at + n) == old(out)@.skip(at + n),
        !old(cursor).started ==> follows(
            zip@,
            *loc,
            0,
            component_flow(zip@, *loc, *old(cursor), *old(infl)),
        ),
        handed_on(
            component_flow(zip@, *loc, *old(cursor), *old(infl)),
            old(out)@.len() - at,
            r,
            final(out)@.subrange(at as int, at + r->Ok_0),
            component_flow(zip@, *loc, *final(cursor), *final(infl)),
        ),
{
    let ghost out0 = out@;
    let ghost all = component_flow(zip@, *loc, *cursor, *infl);
    let ghost s = flow_bytes(all);
    if !cursor.started {
        infl.reset();
        *cursor = CompCursor { started: true, ..*cursor };
        proof {
            lemma_started(zip@, *loc, *old(cursor), *old(infl), *cursor, *infl);
        }
    }
    let mut w: usize = 0;
    let len: usize = out.len() - at;
    proof {
        assert(s.skip(0) =~= s);
        assert(out@.subrange(at as int, at + 0) =~= s.take(0));
    }
    while w < len
        invariant
            w <= len,
            at + len == out.len(),
            out0 == old(out)@,
            s == flow_bytes(all),
            all == component_flow(zip@, *loc, *old(cursor), *old(infl)),
            !old(cursor).started ==> follows(zip@, *loc, 0, all),
            out@.len() == out0.len(),
            loc.method == METHOD_DEFLATE,
            cursor.inside(),
            cursor.started,
            cursor.emitted == min_len(old(cursor).emitted + w, loc.uncomp_size as int),
            old(cursor).emitted <= loc.uncomp_size,
            out@.take(at as int) =~= out0.take(at as int),
            out@.skip(at + w) =~= out0.skip(at + w),
            w <= s.len(),
            out@.subrange(at as int, at + w) == s.take(w as int),
            component_flow(zip@, *loc, *cursor, *infl) == flow_after(all, w as int),
        ensures
            w < len ==> all is Ok && w == s.len(),
        decreases
                len - w,
                (if cursor.pending == 0 && !cursor.done {
                    1int
                } else {
                    0
                }),
    {
        if cursor.pending == 0 {
            if cursor.done {
                proof {
                    reveal(component_flow);
                    infl.lemma_window_len();
                    assert(infl.window_of().subrange(cursor.start as int, cursor.start + 0)
                        =~= Seq::empty());
                    assert(flow_after(all, w as int) is Ok);
                    assert(s.skip(w as int).len() == 0);
                }
                break;
            }
            if let Err(e) = pump(zip, loc, cursor, infl) {
                proof {
                    reveal(handed_on);
                    assert(s.skip(w as int).len() == 0);
                }
                return Err(e);
            }
        } else {
            let ghost was = out@;
            let n: usize = drain(loc, cursor, infl, out, at + w, Ghost(zip@));
            proof {
                assert(was.skip(at + w).skip(n as int) =~= was.skip(at + w + n));
                assert(out0.skip(at + w).skip(n as int) =~= out0.skip(at + w + n));
                assert(s.skip(w as int).skip(n as int) =~= s.skip(w + n));
                assert(out@.subrange(at as int, at + w) =~= was.subrange(at as int, at + w)) by {
                    assert forall|k: int| at <= k < at + w implies out@[k] == was[k] by {
                        assert(out@.take(at + w)[k] == was.take(at + w)[k]);
                    }
                }
                assert(out@.subrange(at as int, at + w + n) =~= out@.subrange(at as int, at + w)
                    + out@.subrange(at + w, at + w + n));
                assert(s.take(w + n) =~= s.take(w as int) + s.skip(w as int).take(n as int));
                assert(out@.take(at as int) =~= was.take(at as int)) by {
                    assert forall|k: int| 0 <= k < at implies out@[k] == was[k] by {
                        assert(out@.take(at + w)[k] == was.take(at + w)[k]);
                    }
                }
            }
            w = w + n;
        }
    }
    proof {
        reveal(handed_on);
    }
    Ok(w)
}

/// Setting the decompressor to the beginning of a component changes nothing in what is
/// to come of it.
proof fn lemma_started(
    zip: Seq<u8>,
    loc: CompLoc,
    c0: CompCursor,
    i0: InflateCtx,
    c1: CompCursor,
    i1: InflateCtx,
)
    requires
        loc.method == METHOD_DEFLATE,
        c0.inside(),
        !c0.started,
        c1 == (CompCursor { started: true, ..c0 }),
        i1.window_of() == i0.window_of(),
        i1.ready(),
    ensures
        component_flow(zip, loc, c1, i1) == component_flow(zip, loc, c0, i0),
        follows(zip, loc, 0, component_flow(zip, loc, c0, i0)),
{
    reveal(component_flow);
    i1.lemma_window_len();
    let all = component_flow(zip, loc, c0, i0);
    let waiting = i1.window_of().subrange(0, 0);
    assert(waiting + flow_bytes(all) =~= flow_bytes(all));
    let c = content(zip, loc);
    assert(flow_bytes(c).skip(0) =~= flow_bytes(c));
    if !beyond_archive(zip, loc) {
        let p = packed(zip, loc);
        assert(p.skip(0) =~= p);
        assert(i1.to_come(0, p) == all);
        assert(blank_window().len() == 32768);
        if self_contained(p) {
            assert(unpacked(i0.window_of(), p) == unpacked(blank_window(), p));
        }
    }
}

/// Hands on the next bytes of a component.
fn emit(
    zip: &[u8],
    loc: &CompLoc,
    cursor: &mut CompCursor,
    infl: &mut InflateCtx,
    out: &mut [u8],
    at: usize,
) -> (r: Result<usize, CapError>)
    requires
        at <= old(out)@.len(),
        old(cursor).inside(),
        old(cursor).emitted <= loc.uncomp_size,
    ensures
        final(cursor).inside(),
        loc.method == METHOD_DEFLATE ==> final(cursor).started,
        loc.method != METHOD_DEFLATE ==> *final(infl) == *old(infl),
        final(cursor).emitted <= loc.uncomp_size,
        final(out)@.len() == old(out)@.len(),
        r matches Ok(n) ==> n <= old(out)@.len() - at && final(cursor).emitted == min_len(
            old(cursor).emitted + n,
            loc.uncomp_size as int,
        ),
        r matches Err(e) ==> e == CapError::Inflate,
        final(out)@.take(at as int) == old(out)@.take(at as int),
        r matches Ok(n) ==> final(out)@.skip(at + n) == old(out)@.skip(at + n),
        loc.method == METHOD_DEFLATE && !old(cursor).started ==> follows(
            zip@,
            *loc,
            0,
            component_flow(zip@, *loc, *old(cursor), *old(infl)),
        ),
        handed_on(
            component_flow(zip@, *loc, *old(cursor), *old(infl)),
            old(out)@.len() - at,
            r,
            final(out)@.subrange(at as int, at + r->Ok_0),
            component_flow(zip@, *loc, *final(cursor), *final(infl)),
        ),
{
    if loc.method == METHOD_DEFLATE {
        emit_deflate(zip, loc, cursor, infl, out, at)
    } else {
        proof {
            reveal(component_flow);
        }
        Ok(emit_stored(zip, loc, cursor, out, at))
    }
}

// ---- The reader ------------------------------------------------------------

/// The decompressor stands where the reader left it: what is still to come of a
/// component that was begun is what follows the bytes that came of it.
pub open spec fn cursor_in_step(
    zip: Seq<u8>,
    loc: CompLoc,
    cursor: CompCursor,
    infl: InflateCtx,
) -> bool {
    if loc.method == METHOD_DEFLATE && !cursor.started {
        cursor.emitted == 0
    } else {
        follows(zip, loc, cursor.emitted as int, component_flow(zip, loc, cursor, infl))
    }
}

/// At the beginning of a component the decompressor may stand anywhere.
proof fn lemma_fresh(zip: Seq<u8>, loc: CompLoc, infl: InflateCtx)
    ensures
        cursor_in_step(zip, loc, CompCursor::fresh(), infl),
{
    reveal(component_flow);
    let c = content(zip, loc);
    assert(flow_bytes(c).skip(0) =~= flow_bytes(c));
}

/// What handing on bytes of a component comes to, in terms of its content.
proof fn lemma_handed_on(
    zip: Seq<u8>,
    loc: CompLoc,
    taken: int,
    flow: Result<Seq<u8>, Seq<u8>>,
    room: int,
    r: Result<usize, CapError>,
    got: Seq<u8>,
    left: Result<Seq<u8>, Seq<u8>>,
)
    requires
        follows(zip, loc, taken, flow),
        0 <= room <= usize::MAX,
        handed_on(flow, room, r, got, left),
    ensures
        ({
            let bytes = flow_bytes(content(zip, loc)).skip(taken);
            let n = min_len(room, bytes.len() as int);
            if content(zip, loc) is Err && room > bytes.len() {
                r is Err
            } else {
                &&& r == Ok::<usize, CapError>(n as usize)
                &&& stands_alone(zip, loc) ==> got == bytes.take(n)
                &&& follows(zip, loc, taken + n, left)
            }
        }),
{
    reveal(handed_on);
    let c = flow_bytes(content(zip, loc));
    let n = min_len(room, flow_bytes(flow).len() as int);
    assert(c.skip(taken).skip(n) =~= c.skip(taken + n));
}

/// Tag and length, and how much of them was handed on.
struct LfdbHeader {
    buf: [u8; 5],
    len: usize,
    emitted: usize,
}

impl LfdbHeader {
    spec fn octets(self) -> Seq<u8> {
        self.buf@.take(self.len as int)
    }

    fn new(content_len: usize) -> (r: LfdbHeader)
        ensures
            r.len <= 5,
            r.emitted == 0,
            r.octets() == block_header(content_len as nat),
    {
        let mut buf: [u8; 5] = [0u8; 5];
        buf[0] = 0xC4;
        let len: usize = if content_len < 0x80 {
            buf[1] = content_len as u8;
            2
        } else if content_len <= 0xFF {
            buf[1] = 0x81;
            buf[2] = content_len as u8;
            3
        } else if content_len <= 0xFFFF {
            buf[1] = 0x82;
            buf[2] = (content_len / 0x100) as u8;
            buf[3] = (content_len % 0x100) as u8;
            4
        } else {
            buf[1] = 0x83;
            buf[2] = (content_len / 0x1_0000 % 0x100) as u8;
            buf[3] = (content_len / 0x100 % 0x100) as u8;
            buf[4] = (content_len % 0x100) as u8;
            5
        };
        assert(buf@.take(len as int) =~= block_header(content_len as nat));
        LfdbHeader { buf, len, emitted: 0 }
    }
}

/// The length of all components, as the archive gives it.
fn total_size(locs: &[Option<CompLoc>; LFDB_COMPONENTS]) -> (r: usize)
    ensures
        r == fitting(size_from(locs@, 0)),
{
    let mut k: usize = LFDB_COMPONENTS;
    let mut sum: usize = 0;
    while k > 0
        invariant
            k <= LFDB_COMPONENTS,
            sum == fitting(size_from(locs@, k as int)),
        decreases k,
    {
        k = k - 1;
        let size: usize = match locs[k] {
            Some(loc) => loc.uncomp_size,
            None => 0,
        };
        sum = if size > usize::MAX - sum {
            usize::MAX
        } else {
            sum + size
        };
    }
    sum
}

/// The Load File Data Block of a CAP file, read one piece at a time.
pub struct LoadFileDataBlock<'a> {
    zip: &'a [u8],
    locs: [Option<CompLoc>; LFDB_COMPONENTS],
    comp: usize,
    cursor: CompCursor,
    header: LfdbHeader,
}

impl<'a> LoadFileDataBlock<'a> {
    #[verifier::type_invariant]
    spec fn sound(self) -> bool {
        &&& self.cursor.inside()
        &&& self.comp <= LFDB_COMPONENTS
        &&& self.comp < LFDB_COMPONENTS ==> (self.locs@[self.comp as int] matches Some(loc)
            ==> self.cursor.emitted <= loc.uncomp_size)
        &&& self.header.emitted <= self.header.len <= 5
        &&& self.header.octets() == header_of_block(self.locs@)
    }

    /// The archive.
    pub closed spec fn archive(self) -> Seq<u8> {
        self.zip@
    }

    /// Where its components are.
    pub closed spec fn locations(self) -> Seq<Option<CompLoc>> {
        self.locs@
    }

    /// How far the block has been read.
    pub closed spec fn place(self) -> Place {
        Place {
            header: self.header.emitted as int,
            comp: self.comp as int,
            taken: self.cursor.emitted as int,
        }
    }

    /// The decompressor stands where the reader left it. At the beginning of the block
    /// that holds of every decompressor.
    pub closed spec fn in_step(self, infl: InflateCtx) -> bool {
        self.comp < LFDB_COMPONENTS ==> match self.locs@[self.comp as int] {
            Some(loc) => cursor_in_step(self.zip@, loc, self.cursor, infl),
            None => self.cursor == CompCursor::fresh(),
        }
    }

    /// The block from its beginning.
    pub(crate) fn start(zip: &'a [u8], locs: [Option<CompLoc>; LFDB_COMPONENTS]) -> (r:
        LoadFileDataBlock<'a>)
        ensures
            r.archive() == zip@,
            r.locations() == locs@,
            r.place() == beginning(),
            forall|infl: InflateCtx| #[trigger] r.in_step(infl),
    {
        let r: LoadFileDataBlock<'a> = LoadFileDataBlock {
            zip,
            locs,
            comp: 0,
            cursor: CompCursor::new(),
            header: LfdbHeader::new(total_size(&locs)),
        };
        proof {
            assert forall|infl: InflateCtx| #[trigger] r.in_step(infl) by {
                if let Some(loc) = locs@[0] {
                    lemma_fresh(zip@, loc, infl);
                }
            }
        }
        r
    }

    /// The length of the components, without tag and length.
    pub fn content_len(&self) -> (r: usize)
        ensures
            r == fitting(size_from(self.locations(), 0)),
    {
        total_size(&self.locs)
    }

    /// The length of the whole block.
    pub fn len(&self) -> (r: usize)
        ensures
            r == framed_len(self.locations()),
    {
        proof {
            use_type_invariant(self);
            assert(self.header.octets().len() == self.header.len);
        }
        let content: usize = self.content_len();
        if content > usize::MAX - self.header.len {
            usize::MAX
        } else {
            self.header.len + content
        }
    }

    /// Whether there is nothing in any component.
    pub fn is_empty(&self) -> (r: bool)
        ensures
            r <==> size_from(self.locations(), 0) == 0,
    {
        self.content_len() == 0
    }

    /// Goes back to the beginning.
    pub fn reset(&mut self)
        ensures
            final(self).archive() == old(self).archive(),
            final(self).locations() == old(self).locations(),
            final(self).place() == beginning(),
            forall|infl: InflateCtx| #[trigger] final(self).in_step(infl),
    {
        *self = LoadFileDataBlock::start(self.zip, self.locs);
    }

    /// Puts the next bytes of the block into `out` and returns how many. The bytes of
    /// a compressed component come through `infl`, which is not to be used for anything
    /// else in between; stored components leave it alone. After a failure, go back to
    /// the beginning. Which bytes come of a component that refers back to before its
    /// beginning is not stated: some of them are what `infl` held before.
    #[verifier::rlimit(60)]
    pub fn next_block(&mut self, infl: &mut InflateCtx, out: &mut [u8]) -> (r: Result<
        usize,
        CapError,
    >)
        ensures
            final(out)@.len() == old(out)@.len(),
            final(self).archive() == old(self).archive(),
            final(self).locations() == old(self).locations(),
            nothing_packed(old(self).locations()) ==> *final(infl) == *old(infl),
            match r {
                Ok(n) => n <= old(out)@.len() && final(out)@.skip(n as int) == old(out)@.skip(
                    n as int,
                ),
                Err(e) => e == CapError::Inflate,
            },
            old(self).in_step(*old(infl)) ==> ({
                let x = block_read(
                    old(self).archive(),
                    old(self).locations(),
                    old(self).place(),
                    old(out)@.len() as int,
                );
                &&& as_read(x, r, final(out)@.take(r->Ok_0 as int))
                &&& r is Ok ==> final(self).place() == x.place && final(self).in_step(*final(infl))
            }),
    {
        proof {
            use_type_invariant(&*self);
        }
        let ghost out0 = out@;
        let ghost me0 = *self;
        let ghost stepping = self.in_step(*infl);
        let ghost all = block_read(self.zip@, self.locs@, self.place(), out@.len() as int);
        let mut w: usize = 0;
        while w < out.len() && self.header.emitted < self.header.len
            invariant
                w <= out.len(),
                out@.len() == out0.len(),
                out0 == old(out)@,
                self.sound(),
                me0 == *old(self),
                *infl == *old(infl),
                self.zip == me0.zip,
                self.locs == me0.locs,
                self.comp == me0.comp,
                self.cursor == me0.cursor,
                self.header.buf == me0.header.buf,
                self.header.len == me0.header.len,
                self.header.emitted == me0.header.emitted + w,
                self.header.emitted <= self.header.len <= 5,
                out@.take(w as int) =~= me0.header.octets().subrange(
                    me0.header.emitted as int,
                    me0.header.emitted + w,
                ),
                forall|k: int| w <= k < out0.len() ==> out@[k] == out0[k],
            decreases out.len() - w,
        {
            out[w] = self.header.buf[self.header.emitted];
            self.header = LfdbHeader {
                buf: self.header.buf,
                len: self.header.len,
                emitted: self.header.emitted + 1,
            };
            w = w + 1;
        }
        proof {
            assert(out@.skip(w as int) =~= out0.skip(w as int));
            let h = header_of_block(self.locs@);
            let e = me0.header.emitted as int;
            assert(h.len() == me0.header.len);
            assert(w == min_len(out@.len() as int, h.skip(e).len() as int));
            assert(h.skip(e).take(w as int) =~= h.subrange(e, e + w));
            assert(self.in_step(*infl) == stepping);
        }
        while w < out.len()
            invariant_except_break
                w < out.len() ==> self.header.emitted == self.header.len,
            invariant
                w <= out.len(),
                out@.len() == out0.len(),
                out0 == old(out)@,
                me0 == *old(self),
                self.sound(),
                self.zip == me0.zip,
                self.locs == me0.locs,
                out@.skip(w as int) == out0.skip(w as int),
                nothing_packed(me0.locs@) ==> *infl == *old(infl),
                all == block_read(me0.zip@, me0.locs@, me0.place(), out0.len() as int),
                stepping == me0.in_step(*old(infl)),
                stepping ==> {
                    let more = components_read(
                        self.zip@,
                        self.locs@,
                        self.place(),
                        out@.len() - w,
                    );
                    &&& self.in_step(*infl)
                    &&& all.failed == more.failed
                    &&& all.place == more.place
                    &&& all.bytes.len() == w + more.bytes.len()
                    &&& all.sure ==> more.sure && all.bytes == out@.take(w as int) + more.bytes
                },
            ensures
                stepping ==> {
                    &&& self.in_step(*infl)
                    &&& !all.failed
                    &&& all.place == self.place()
                    &&& all.bytes.len() == w
                    &&& all.sure ==> all.bytes == out@.take(w as int)
                },
            decreases LFDB_COMPONENTS - self.comp, out.len() - w,
        {
            let ghost me1 = *self;
            let ghost out1 = out@;
            let ghost room = out.len() - w;
            if self.comp >= LFDB_COMPONENTS {
                proof {
                    assert(out@.take(w as int) + Seq::<u8>::empty() =~= out@.take(w as int));
                }
                break;
            }
            match self.locs[self.comp] {
                None => {
                    self.cursor = CompCursor::new();
                    self.comp = self.comp + 1;
                    proof {
                        self.lemma_at_next(*infl);
                    }
                },
                Some(loc) => {
                    let ghost flow = component_flow(self.zip@, loc, self.cursor, *infl);
                    let ghost taken = self.cursor.emitted as int;
                    let mut cursor: CompCursor = self.cursor;
                    let emitted: Result<usize, CapError> = emit(
                        self.zip,
                        &loc,
                        &mut cursor,
                        infl,
                        out,
                        w,
                    );
                    self.cursor = cursor;
                    let ghost left = component_flow(self.zip@, loc, cursor, *infl);
                    let ghost got = out@.subrange(w as int, w + emitted->Ok_0);
                    proof {
                        if stepping {
                            lemma_handed_on(
                                self.zip@,
                                loc,
                                taken,
                                flow,
                                room,
                                emitted,
                                got,
                                left,
                            );
                        }
                    }
                    let n: usize = match emitted {
                        Ok(n) => n,
                        Err(e) => return Err(e),
                    };
                    proof {
                        if stepping {
                            lemma_more_read(
                                self.zip@,
                                self.locs@,
                                me1.place(),
                                room,
                                n as int,
                            );
                            let bytes = flow_bytes(content(self.zip@, loc)).skip(taken);
                            assert(out@.take(w + n) =~= out@.take(w as int) + got);
                            if all.sure {
                                assert(stands_alone(self.zip@, loc));
                                assert(got == bytes.take(n as int));
                            }
                        }
                    }
                    proof {
                        assert(out1.skip(w as int).skip(n as int) =~= out1.skip(w + n));
                        assert(out0.skip(w as int).skip(n as int) =~= out0.skip(w + n));
                    }
                    w = w + n;
                    if self.cursor.emitted >= loc.uncomp_size {
                        self.cursor = CompCursor::new();
                        self.comp = self.comp + 1;
                        proof {
                            self.lemma_at_next(*infl);
                        }
                    } else if n == 0 {
                        proof {
                            let done = out@.take(w as int);
                            assert(done + Seq::<u8>::empty() =~= done);
                        }
                        break;
                    }
                    proof {
                        if stepping && all.sure {
                            let more = components_read(
                                self.zip@,
                                self.locs@,
                                self.place(),
                                out@.len() - w,
                            );
                            assert(out1.take(w - n) + (got + more.bytes) =~= out@.take(w as int)
                                + more.bytes);
                        }
                    }
                },
            }
        }
        Ok(w)
    }

    /// At the beginning of a component the decompressor may stand anywhere.
    proof fn lemma_at_next(self, infl: InflateCtx)
        requires
            self.cursor == CompCursor::fresh(),
        ensures
            self.in_step(infl),
    {
        if self.comp < LFDB_COMPONENTS {
            if let Some(loc) = self.locs@[self.comp as int] {
                lemma_fresh(self.zip@, loc, infl);
            }
        }
    }
}

/// Where `n` bytes of a component are all that comes, or all that there is room for,
/// the reading goes on behind them.
proof fn lemma_more_read(
    zip: Seq<u8>,
    locs: Seq<Option<CompLoc>>,
    at: Place,
    room: int,
    n: int,
)
    requires
        room > 0,
        0 <= at.comp < LFDB_COMPONENTS,
        locs[at.comp] matches Some(loc) && {
            let bytes = flow_bytes(content(zip, loc)).skip(at.taken);
            &&& 0 <= at.taken <= flow_bytes(content(zip, loc)).len()
            &&& n == min_len(room, bytes.len() as int)
            &&& content(zip, loc) is Ok || room <= bytes.len()
        },
    ensures
        ({
            let loc = locs[at.comp]->Some_0;
            let bytes = flow_bytes(content(zip, loc)).skip(at.taken);
            components_read(zip, locs, at, room) == and_then_read(
                bytes.take(n),
                stands_alone(zip, loc),
                components_read(
                    zip,
                    locs,
                    if at.taken + n >= loc.uncomp_size {
                        Place { comp: at.comp + 1, taken: 0, ..at }
                    } else {
                        Place { taken: at.taken + n, ..at }
                    },
                    room - n,
                ),
            )
        }),
{
    let loc = locs[at.comp]->Some_0;
    let c = flow_bytes(content(zip, loc));
    let bytes = c.skip(at.taken);
    if at.taken + n < loc.uncomp_size {
        let there = Place { taken: at.taken + n, ..at };
        if room - n > 0 {
            assert(c.skip(there.taken).len() == 0);
            assert(c.skip(there.taken).take(0) =~= Seq::empty());
        }
        let rest = components_read(zip, locs, there, room - n);
        assert(rest.bytes == Seq::<u8>::empty() && !rest.failed && rest.place == there);
        assert(bytes.take(n) + Seq::<u8>::empty() =~= bytes.take(n));
    }
}

} // verus!
