//! Loading packages.
use vstd::prelude::*;

use crate::aid::{aid_shaped, Aid};
use crate::backend::{Scp02Backend, Scp03Backend};
use crate::buffers::{capdu_bytes, capdu_slice, Capdu};
use crate::cap::lfdb::{
    beginning, block_of, block_read, complete, framed_len, in_block,
    law_block_from_its_beginning, law_block_length, law_reading_gives_the_block, unread,
    LoadFileDataBlock, Place,
};
use crate::cap::zip::CompLoc;
use crate::cap::{self, cap_of, CapError, CapFile, CapModel, InflateCtx};
use crate::command::install::{install_for_load, install_load_data};
use crate::command::load::{load_block, load_p1};
use crate::command::{short_apdu, BuildError};
use crate::error::{general_sw, ScllError};
use crate::limits::{HASH_MAX, LOAD_BLOCK_DATA};
use crate::report::{LoadPackageParams, LoadPackageReport};
use crate::scp::ScpSession;
use crate::transport::Transport;
use crate::workflow::session::{
    answer_view, commands, fails_with, lemma_nothing_performed, lemma_one_more, lemma_then, now,
    outcomes, performed, step_outcome, transmit_in_session, Answer, Step, SW_OK,
    SW_REF_NOT_FOUND, SW_WRONG_DATA,
};
use crate::workflow::ssd::copy_bounded;

verus! {

/// The most bytes that 256 blocks carry.
pub const MAX_LOAD_BYTES: usize = 57088;

/// What to load, and where.
pub struct LoadPackageArgs<'a> {
    pub target_sd_aid: &'a [u8],
    pub cap_zip: &'a [u8],
    /// A hash of the load file, or nothing.
    pub lfdb_hash: &'a [u8],
}

// ---- The blocks ------------------------------------------------------------

/// The number of blocks that a load file takes.
pub open spec fn piece_count(len: nat) -> nat {
    (len + 222) / 223
}

/// Where block `k` of a load file begins.
pub open spec fn piece_start(len: nat, k: int) -> int {
    if 223 * k < len {
        223 * k
    } else {
        len as int
    }
}

/// The blocks of a load file: each as long as it can be.
pub open spec fn pieces(whole: Seq<u8>) -> Seq<Seq<u8>> {
    Seq::new(
        piece_count(whole.len()),
        |k: int| whole.subrange(piece_start(whole.len(), k), piece_start(whole.len(), k + 1)),
    )
}

/// Several blocks one behind the other.
pub open spec fn joined(chunks: Seq<Seq<u8>>) -> Seq<u8>
    decreases chunks.len(),
{
    if chunks.len() == 0 {
        Seq::empty()
    } else {
        joined(chunks.drop_last()) + chunks.last()
    }
}

/// The blocks of a load file, one behind the other, are the load file.
pub proof fn law_pieces_join(whole: Seq<u8>)
    ensures
        joined(pieces(whole)) == whole,
{
    let all = pieces(whole);
    lemma_first_pieces(whole, all.len() as int);
    assert(all.take(all.len() as int) =~= all);
    assert(whole.take(whole.len() as int) =~= whole);
}

/// The first `k` blocks are the beginning of the load file.
proof fn lemma_first_pieces(whole: Seq<u8>, k: int)
    requires
        0 <= k <= piece_count(whole.len()),
    ensures
        joined(pieces(whole).take(k)) == whole.take(piece_start(whole.len(), k)),
    decreases k,
{
    let all = pieces(whole);
    if k > 0 {
        lemma_first_pieces(whole, k - 1);
        assert(all.take(k).drop_last() =~= all.take(k - 1));
        assert(all.take(k).last() == all[k - 1]);
        assert(joined(all.take(k)) =~= whole.take(piece_start(whole.len(), k)));
    } else {
        assert(joined(all.take(0)) =~= whole.take(0));
    }
}

/// LOAD of block `k`: it is marked as the last one once the whole length is there.
pub open spec fn load_command(chunks: Seq<Seq<u8>>, total: nat, k: int) -> Seq<u8> {
    short_apdu(
        0x84,
        0xE8,
        load_p1(joined(chunks.take(k + 1)).len() >= total),
        (k % 256) as u8,
        chunks[k],
        true,
    )
}

/// The LOAD commands of these blocks.
pub open spec fn load_commands(chunks: Seq<Seq<u8>>, total: nat) -> Seq<Seq<u8>> {
    Seq::new(chunks.len(), |k: int| load_command(chunks, total, k))
}

/// Of the blocks of a load file exactly the last one is marked, every other one is
/// full, and their numbers do not repeat.
pub proof fn law_last_block_is_marked(whole: Seq<u8>, k: int)
    requires
        whole.len() <= MAX_LOAD_BYTES,
        0 <= k < piece_count(whole.len()),
    ensures
        load_command(pieces(whole), whole.len(), k) == short_apdu(
            0x84,
            0xE8,
            if k == piece_count(whole.len()) - 1 {
                0x80
            } else {
                0x00
            },
            k as u8,
            pieces(whole)[k],
            true,
        ),
        k < piece_count(whole.len()) - 1 ==> pieces(whole)[k].len() == 223,
        k < 256,
{
    lemma_first_pieces(whole, k + 1);
}

/// One more block leaves the commands of the blocks before it as they were.
proof fn lemma_commands_push(chunks: Seq<Seq<u8>>, chunk: Seq<u8>, total: nat)
    ensures
        load_commands(chunks.push(chunk), total) == load_commands(chunks, total).push(
            load_command(chunks.push(chunk), total, chunks.len() as int),
        ),
        joined(chunks.push(chunk)) == joined(chunks) + chunk,
{
    let more = chunks.push(chunk);
    assert(more.drop_last() =~= chunks);
    assert forall|k: int| 0 <= k < chunks.len() implies load_commands(more, total)[k]
        == load_commands(chunks, total)[k] by {
        assert(more.take(k + 1) =~= chunks.take(k + 1));
    }
    assert(load_commands(more, total) =~= load_commands(chunks, total).push(
        load_command(more, total, chunks.len() as int),
    ));
}

// ---- Answers of the card ---------------------------------------------------

/// What a status word of INSTALL [for load] means.
pub open spec fn load_install_verdict(sw: u16) -> Result<(), ScllError> {
    if sw == SW_OK {
        Ok(())
    } else if sw == SW_REF_NOT_FOUND {
        Err(ScllError::ResidentSdNotFound)
    } else if sw == SW_WRONG_DATA {
        Err(ScllError::PackageAidExists)
    } else {
        Err(general_sw(sw))
    }
}

/// Reads the status word of INSTALL [for load].
pub fn load_install_status(sw: u16) -> (r: Result<(), ScllError>)
    ensures
        r == load_install_verdict(sw),
{
    match sw {
        SW_OK => Ok(()),
        SW_REF_NOT_FOUND => Err(ScllError::ResidentSdNotFound),
        SW_WRONG_DATA => Err(ScllError::PackageAidExists),
        other => Err(ScllError::from_general_sw(other)),
    }
}

/// The failure that an answer to INSTALL [for load] stands for.
pub open spec fn install_failure(o: Result<Answer, ScllError>) -> Option<ScllError> {
    match o {
        Err(e) => Some(e),
        Ok(a) => match load_install_verdict(a.sw) {
            Err(e) => Some(e),
            Ok(()) => None,
        },
    }
}

/// The failure that an answer to LOAD stands for.
pub open spec fn load_failure(o: Result<Answer, ScllError>) -> Option<ScllError> {
    match o {
        Err(e) => Some(e),
        Ok(a) => if a.sw == SW_OK {
            None
        } else {
            Some(general_sw(a.sw))
        },
    }
}

/// The card agreed.
pub open spec fn agreed(o: Result<Answer, ScllError>) -> bool {
    load_failure(o) is None
}

/// The blocks that come of a load file, which of them are sure to hold just these bytes,
/// and whether a corrupt component ends them.
pub struct Planned {
    pub chunks: Seq<Seq<u8>>,
    pub sure: Seq<bool>,
    pub failed: bool,
}

/// The blocks that come of a load file from a place on, after `sent` of its `total`
/// bytes: readings of at most 223 bytes, until the whole length is there or nothing more
/// comes.
pub open spec fn blocks_from(
    zip: Seq<u8>,
    locs: Seq<Option<CompLoc>>,
    at: Place,
    sent: int,
    total: int,
) -> Planned
    decreases
            (if sent < total {
                total - sent
            } else {
                0
            }),
{
    let x = block_read(zip, locs, at, 223);
    if sent >= total {
        Planned { chunks: Seq::empty(), sure: Seq::empty(), failed: false }
    } else if x.failed || x.bytes.len() == 0 {
        Planned { chunks: Seq::empty(), sure: Seq::empty(), failed: x.failed }
    } else {
        let rest = blocks_from(zip, locs, x.place, sent + x.bytes.len(), total);
        Planned {
            chunks: seq![x.bytes] + rest.chunks,
            sure: seq![x.sure] + rest.sure,
            failed: rest.failed,
        }
    }
}

/// The blocks that come of a load file.
pub open spec fn planned(zip: Seq<u8>, locs: Seq<Option<CompLoc>>) -> Planned {
    blocks_from(zip, locs, beginning(), 0, framed_len(locs) as int)
}

/// Of every block it is said whether it is sure.
proof fn lemma_as_many(
    zip: Seq<u8>,
    locs: Seq<Option<CompLoc>>,
    at: Place,
    sent: int,
    total: int,
)
    ensures
        blocks_from(zip, locs, at, sent, total).sure.len() == blocks_from(
            zip,
            locs,
            at,
            sent,
            total,
        ).chunks.len(),
    decreases
            (if sent < total {
                total - sent
            } else {
                0
            }),
{
    let x = block_read(zip, locs, at, 223);
    if sent < total && !x.failed && x.bytes.len() > 0 {
        lemma_as_many(zip, locs, x.place, sent + x.bytes.len(), total);
    }
}

/// The blocks that come of a complete archive are the blocks of its load file.
pub proof fn law_complete_archive_comes_whole(zip: Seq<u8>, locs: Seq<Option<CompLoc>>)
    requires
        complete(zip, locs),
        framed_len(locs) < usize::MAX,
    ensures
        !planned(zip, locs).failed,
        planned(zip, locs).chunks == pieces(block_of(zip, locs)),
        forall|k: int|
            0 <= k < planned(zip, locs).chunks.len() ==> #[trigger] planned(zip, locs).sure[k],
{
    let whole = block_of(zip, locs);
    law_block_length(zip, locs);
    law_block_from_its_beginning(zip, locs);
    assert(whole.skip(0) =~= whole);
    lemma_planned(zip, locs, beginning(), 0);
    assert(pieces(whole).skip(0) =~= pieces(whole));
}

proof fn lemma_planned(zip: Seq<u8>, locs: Seq<Option<CompLoc>>, at: Place, k: int)
    requires
        complete(zip, locs),
        framed_len(locs) < usize::MAX,
        0 <= k <= piece_count(block_of(zip, locs).len()),
        in_block(zip, locs, at),
        unread(zip, locs, at) == block_of(zip, locs).skip(
            piece_start(block_of(zip, locs).len(), k),
        ),
    ensures
        ({
            let whole = block_of(zip, locs);
            let plan = blocks_from(
                zip,
                locs,
                at,
                piece_start(whole.len(), k),
                framed_len(locs) as int,
            );
            &&& !plan.failed
            &&& plan.chunks == pieces(whole).skip(k)
            &&& forall|i: int| 0 <= i < plan.chunks.len() ==> #[trigger] plan.sure[i]
        }),
    decreases piece_count(block_of(zip, locs).len()) - k,
{
    let whole = block_of(zip, locs);
    law_block_length(zip, locs);
    let sent = piece_start(whole.len(), k);
    let total = framed_len(locs) as int;
    let plan = blocks_from(zip, locs, at, sent, total);
    if sent < total {
        law_reading_gives_the_block(zip, locs, at, 223);
        let x = block_read(zip, locs, at, 223);
        let then = piece_start(whole.len(), k + 1);
        assert(x.bytes =~= pieces(whole)[k]);
        assert(unread(zip, locs, x.place) =~= whole.skip(then));
        lemma_planned(zip, locs, x.place, k + 1);
        assert(seq![x.bytes] + pieces(whole).skip(k + 1) =~= pieces(whole).skip(k));
        let rest = blocks_from(zip, locs, x.place, then, total);
        lemma_as_many(zip, locs, x.place, then, total);
        assert forall|i: int| 0 <= i < plan.chunks.len() implies #[trigger] plan.sure[i] by {
            if i > 0 {
                assert(plan.sure[i] == rest.sure[i - 1]);
            }
        }
    } else {
        assert(pieces(whole).skip(k) =~= Seq::empty());
    }
}

/// How sending the blocks ended. All that come of the load file are sent, in order,
/// up to the first that the card does not take. A corrupt component ends the sending
/// with a failure. The blocks are as long as planned, and hold what was planned where
/// that is sure.
pub open spec fn blocks_sent(
    r: Result<u16, ScllError>,
    plan: Planned,
    total: nat,
    steps: Seq<Step>,
    chunks: Seq<Seq<u8>>,
) -> bool {
    &&& commands(steps) == load_commands(chunks, total)
    &&& forall|i: int| 0 <= i < steps.len() - 1 ==> agreed(#[trigger] outcomes(steps)[i])
    &&& chunks.len() <= plan.chunks.len()
    &&& forall|k: int|
        0 <= k < chunks.len() ==> {
            &&& (#[trigger] chunks[k]).len() == plan.chunks[k].len()
            &&& plan.sure[k] ==> chunks[k] == plan.chunks[k]
        }
    &&& match if steps.len() == 0 {
        None
    } else {
        load_failure(step_outcome(steps.last()))
    } {
        Some(e) => fails_with(r, e),
        None => {
            &&& chunks.len() == plan.chunks.len()
            &&& if plan.failed {
                fails_with(r, ScllError::Cap(CapError::Inflate))
            } else {
                r matches Ok(n) && n == chunks.len()
            }
        },
    }
}

/// Where sending the load file of a complete archive succeeds, the card has taken all
/// of it, in order and in as few blocks as can be.
pub proof fn law_success_means_all_was_sent(
    n: u16,
    zip: Seq<u8>,
    locs: Seq<Option<CompLoc>>,
    steps: Seq<Step>,
    chunks: Seq<Seq<u8>>,
    i: int,
)
    requires
        complete(zip, locs),
        framed_len(locs) < usize::MAX,
        blocks_sent(
            Ok(n),
            planned(zip, locs),
            framed_len(locs) as nat,
            steps,
            chunks,
        ),
        0 <= i < steps.len(),
    ensures
        joined(chunks) == block_of(zip, locs),
        n == piece_count(block_of(zip, locs).len()),
        steps[i].command == load_command(chunks, framed_len(locs) as nat, i),
        agreed(step_outcome(steps[i])),
{
    let whole = block_of(zip, locs);
    law_complete_archive_comes_whole(zip, locs);
    assert(chunks =~= pieces(whole));
    law_pieces_join(whole);
    assert(commands(steps).len() == steps.len());
    assert(commands(steps)[i] == steps[i].command);
    assert(load_commands(chunks, framed_len(locs) as nat)[i] == load_command(
        chunks,
        framed_len(locs) as nat,
        i,
    ));
    assert(outcomes(steps)[i] == step_outcome(steps[i]));
}

/// A corrupt component ends the sending with a failure, whatever the card says.
pub proof fn law_corrupt_archive_is_not_loaded(
    r: Result<u16, ScllError>,
    plan: Planned,
    total: nat,
    steps: Seq<Step>,
    chunks: Seq<Seq<u8>>,
)
    requires
        blocks_sent(r, plan, total, steps, chunks),
        plan.failed,
    ensures
        r is Err,
{
}

/// Sends the load file block by block.
#[verifier::rlimit(60)]
fn send_blocks<T: Transport, B: Scp02Backend + Scp03Backend>(
    t: &mut T,
    backend: &mut B,
    session: &mut ScpSession,
    block: LoadFileDataBlock<'_>,
    total: usize,
    infl: &mut InflateCtx,
) -> (r: (Result<u16, ScllError>, Ghost<(Seq<Step>, Seq<Seq<u8>>)>))
    requires
        total <= MAX_LOAD_BYTES,
        block.place() == beginning(),
        block.in_step(*old(infl)),
        total == framed_len(block.locations()),
    ensures
        performed(
            now(*old(t), *old(backend), *old(session)),
            now(*final(t), *final(backend), *final(session)),
            r.1@.0,
        ),
        blocks_sent(
            r.0,
            planned(block.archive(), block.locations()),
            total as nat,
            r.1@.0,
            r.1@.1,
        ),
{
    let ghost zip = block.archive();
    let ghost locs = block.locations();
    let ghost plan = planned(zip, locs);
    let ghost m0 = now(*t, *backend, *session);
    let ghost mut steps: Seq<Step> = Seq::empty();
    let ghost mut chunks: Seq<Seq<u8>> = Seq::empty();
    let mut lfdb: LoadFileDataBlock<'_> = block;
    let mut out: [u8; LOAD_BLOCK_DATA] = [0u8; LOAD_BLOCK_DATA];
    let mut sent: usize = 0;
    let mut block_no: u8 = 0;
    let mut count: u16 = 0;
    proof {
        lemma_nothing_performed(m0);
        assert(commands(steps) =~= load_commands(chunks, total as nat));
        assert(plan.chunks.skip(0) =~= plan.chunks);
        assert(plan.sure.skip(0) =~= plan.sure);
        lemma_as_many(zip, locs, beginning(), 0, total as int);
    }
    loop
        invariant_except_break
            sent < total,
            ({
                let rest = blocks_from(zip, locs, lfdb.place(), sent as int, total as int);
                &&& rest.failed == plan.failed
                &&& rest.chunks == plan.chunks.skip(chunks.len() as int)
                &&& rest.sure == plan.sure.skip(chunks.len() as int)
                &&& rest.sure.len() == rest.chunks.len()
                &&& plan.sure.len() == plan.chunks.len()
            }),
        invariant
            zip == block.archive(),
            locs == block.locations(),
            plan == planned(zip, locs),
            m0 == now(*old(t), *old(backend), *old(session)),
            0 < total <= MAX_LOAD_BYTES,
            lfdb.archive() == zip,
            lfdb.locations() == locs,
            lfdb.in_step(*infl),
            performed(m0, now(*t, *backend, *session), steps),
            steps.len() == chunks.len(),
            commands(steps) == load_commands(chunks, total as nat),
            forall|i: int| 0 <= i < steps.len() ==> agreed(#[trigger] outcomes(steps)[i]),
            count == chunks.len(),
            block_no == chunks.len() % 256,
            count <= sent,
            sent == joined(chunks).len(),
            chunks.len() <= plan.chunks.len(),
            forall|k: int|
                0 <= k < chunks.len() ==> {
                    &&& (#[trigger] chunks[k]).len() == plan.chunks[k].len()
                    &&& plan.sure[k] ==> chunks[k] == plan.chunks[k]
                },
        ensures
            chunks.len() == plan.chunks.len(),
            !plan.failed,
        decreases total - sent,
    {
        let ghost at = lfdb.place();
        let ghost x = block_read(zip, locs, at, 223);
        let ghost rest = blocks_from(zip, locs, at, sent as int, total as int);
        let n: usize = match lfdb.next_block(infl, &mut out) {
            Ok(n) => n,
            Err(e) => {
                proof {
                    assert(plan.chunks.skip(chunks.len() as int).len() == 0);
                    if steps.len() > 0 {
                        assert(outcomes(steps)[steps.len() - 1] == step_outcome(steps.last()));
                    }
                }
                return (Err(ScllError::Cap(e)), Ghost((steps, chunks)));
            },
        };
        if n == 0 {
            assert(plan.chunks.skip(chunks.len() as int).len() == 0);
            break;
        }
        let ghost k = chunks.len() as int;
        sent = sent + n;
        let last: bool = sent >= total;
        let chunk: &[u8] = &out[0..n];
        let ghost more = chunks.push(chunk@);
        proof {
            lemma_commands_push(chunks, chunk@, total as nat);
            assert(more.take(more.len() as int) =~= more);
            assert(chunk@ =~= out@.take(n as int));
            assert(rest.chunks[0] == x.bytes);
            assert(rest.sure[0] == x.sure);
            assert(plan.chunks.skip(k)[0] == plan.chunks[k]);
            assert(plan.sure.skip(k)[0] == plan.sure[k]);
            assert(blocks_from(zip, locs, x.place, sent as int, total as int).sure
                =~= rest.sure.skip(1));
            assert(plan.sure.skip(k).skip(1) =~= plan.sure.skip(k + 1));
            assert(blocks_from(zip, locs, x.place, sent as int, total as int).chunks
                =~= rest.chunks.skip(1));
            assert(plan.chunks.skip(k).skip(1) =~= plan.chunks.skip(k + 1));
        }
        let capdu: Capdu = match load_block(block_no, last, chunk) {
            Ok(c) => c,
            Err(e) => return (Err(ScllError::Build(e)), Ghost((steps, chunks))),
        };
        assert(capdu_bytes(capdu) == load_command(more, total as nat, k));
        let ghost m1 = now(*t, *backend, *session);
        let answer = transmit_in_session(t, backend, session, capdu_slice(&capdu));
        proof {
            let m2 = now(*t, *backend, *session);
            let step = choose|step: Step|
                performed(m1, m2, seq![step]) && (#[trigger] step_outcome(step)) == answer_view(
                    answer,
                ) && step.command == capdu_bytes(capdu);
            lemma_one_more(m0, m1, m2, steps, step);
            let before = steps;
            steps = steps.push(step);
            chunks = more;
            assert(forall|i: int|
                0 <= i < before.len() ==> outcomes(steps)[i] == outcomes(before)[i]);
            assert(steps.last() == step);
            assert(outcomes(steps)[before.len() as int] == step_outcome(step));
        }
        let (_data, sw) = match answer {
            Ok(x) => x,
            Err(e) => return (Err(e), Ghost((steps, chunks))),
        };
        if sw != SW_OK {
            return (Err(ScllError::from_general_sw(sw)), Ghost((steps, chunks)));
        }
        block_no = block_no.wrapping_add(1);
        count = count + 1;
        if last {
            assert(plan.chunks.skip(chunks.len() as int).len() == 0);
            break;
        }
    }
    proof {
        if steps.len() > 0 {
            assert(outcomes(steps)[steps.len() - 1] == step_outcome(steps.last()));
        }
    }
    (Ok(count), Ghost((steps, chunks)))
}

// ---- The workflow ----------------------------------------------------------

/// INSTALL [for load] of this package.
pub open spec fn install_command(args: LoadPackageArgs<'_>, m: CapModel) -> Seq<u8> {
    short_apdu(
        0x84,
        0xE6,
        0x02,
        0x00,
        install_load_data(m.package_aid, args.target_sd_aid@, args.lfdb_hash@),
        true,
    )
}

/// What is reported once all blocks were taken. The hash and the identifier are
/// looked at only then.
pub open spec fn load_reported(
    r: Result<LoadPackageReport, ScllError>,
    args: LoadPackageArgs<'_>,
    m: CapModel,
    blocks: u16,
) -> bool {
    if args.lfdb_hash@.len() > HASH_MAX {
        fails_with(r, ScllError::Build(BuildError::Overflow))
    } else if !aid_shaped(args.target_sd_aid@) {
        fails_with(r, ScllError::InvalidAid { len: args.target_sd_aid@.len() as usize })
    } else {
        r matches Ok(report) && {
            &&& report.effective.package_aid@ == m.package_aid
            &&& report.effective.load_file_size == framed_len(m.locs)
            &&& report.effective.hash_value@ == args.lfdb_hash@
            &&& report.effective.block_count == blocks
            &&& report.effective.target_sd_aid@ == args.target_sd_aid@
            &&& report.warnings@.len() == 0
        }
    }
}

/// What loading does: INSTALL [for load], and where the card agrees, the blocks.
pub open spec fn loaded(
    r: Result<LoadPackageReport, ScllError>,
    args: LoadPackageArgs<'_>,
    m: CapModel,
    first: Step,
    sent: Result<u16, ScllError>,
    steps: Seq<Step>,
    chunks: Seq<Seq<u8>>,
) -> bool {
    &&& first.command == install_command(args, m)
    &&& match install_failure(step_outcome(first)) {
        Some(e) => steps.len() == 0 && fails_with(r, e),
        None => {
            &&& blocks_sent(
                sent,
                planned(args.cap_zip@, m.locs),
                framed_len(m.locs) as nat,
                steps,
                chunks,
            )
            &&& match sent {
                Err(e) => fails_with(r, e),
                Ok(n) => load_reported(r, args, m, n),
            }
        },
    }
}

/// Loads a CAP file into a security domain. A file that cannot be read or is too
/// large, and an INSTALL command that does not fit, are found before anything is
/// sent.
#[verifier::rlimit(30)]
pub fn load_package<T: Transport, B: Scp02Backend + Scp03Backend>(
    t: &mut T,
    backend: &mut B,
    parent_session: &mut ScpSession,
    args: &LoadPackageArgs<'_>,
    infl: &mut InflateCtx,
) -> (r: Result<LoadPackageReport, ScllError>)
    ensures
        ({
            let from = now(*old(t), *old(backend), *old(parent_session));
            let to = now(*final(t), *final(backend), *final(parent_session));
            match cap_of(args.cap_zip@) {
                Err(e) => fails_with(r, ScllError::Cap(e)) && to == from,
                Ok(m) => if framed_len(m.locs) > MAX_LOAD_BYTES {
                    fails_with(r, ScllError::LoadTooLarge) && to == from
                } else if install_load_data(
                    m.package_aid,
                    args.target_sd_aid@,
                    args.lfdb_hash@,
                ).len() > 255 {
                    fails_with(r, ScllError::Build(BuildError::Overflow)) && to == from
                } else {
                    exists|
                        first: Step,
                        sent: Result<u16, ScllError>,
                        steps: Seq<Step>,
                        chunks: Seq<Seq<u8>>,
                    |
                        performed(from, to, seq![first] + steps) && #[trigger] loaded(
                            r,
                            *args,
                            m,
                            first,
                            sent,
                            steps,
                            chunks,
                        )
                },
            }
        }),
{
    let cap: CapFile<'_> = match cap::parse(args.cap_zip, infl) {
        Ok(c) => c,
        Err(e) => return Err(ScllError::Cap(e)),
    };
    let ghost m = cap.model();
    let total: usize = cap.lfdb().len();
    if total > MAX_LOAD_BYTES {
        return Err(ScllError::LoadTooLarge);
    }
    let install: Capdu = match install_for_load(
        cap.package_aid.as_bytes(),
        args.target_sd_aid,
        args.lfdb_hash,
    ) {
        Ok(c) => c,
        Err(e) => return Err(ScllError::Build(e)),
    };
    let ghost m0 = now(*t, *backend, *parent_session);
    let answer = transmit_in_session(t, backend, parent_session, capdu_slice(&install));
    let ghost m1 = now(*t, *backend, *parent_session);
    let ghost first = choose|step: Step|
        performed(m0, m1, seq![step]) && (#[trigger] step_outcome(step)) == answer_view(answer)
            && step.command == capdu_bytes(install);
    let ghost none: Seq<Step> = Seq::empty();
    let ghost no_chunks: Seq<Seq<u8>> = Seq::empty();
    proof {
        assert(seq![first] + none =~= seq![first]);
    }
    let (_data, sw) = match answer {
        Ok(x) => x,
        Err(e) => {
            let r: Result<LoadPackageReport, ScllError> = Err(e);
            assert(loaded(r, *args, m, first, Ok(0), none, no_chunks));
            return r;
        },
    };
    if let Err(e) = load_install_status(sw) {
        let r: Result<LoadPackageReport, ScllError> = Err(e);
        assert(loaded(r, *args, m, first, Ok(0), none, no_chunks));
        return r;
    }
    infl.reset();
    let lfdb: LoadFileDataBlock<'_> = cap.lfdb();
    let (sent, Ghost(log)) = send_blocks(
        t,
        backend,
        parent_session,
        lfdb,
        total,
        infl,
    );
    proof {
        lemma_then(
            m0,
            m1,
            now(*t, *backend, *parent_session),
            seq![first],
            log.0,
        );
    }
    let ghost sent0 = sent;
    let count: u16 = match sent {
        Ok(n) => n,
        Err(e) => {
            let r: Result<LoadPackageReport, ScllError> = Err(e);
            assert(loaded(r, *args, m, first, sent0, log.0, log.1));
            return r;
        },
    };
    let r: Result<LoadPackageReport, ScllError> = load_report(args, &cap, total, count);
    assert(loaded(r, *args, m, first, sent0, log.0, log.1));
    r
}

/// The report once all blocks were taken.
fn load_report(args: &LoadPackageArgs<'_>, cap: &CapFile<'_>, total: usize, count: u16) -> (r:
    Result<LoadPackageReport, ScllError>)
    requires
        total == framed_len(cap.source.locations()),
        total <= MAX_LOAD_BYTES,
    ensures
        load_reported(r, *args, cap.model(), count),
{
    let hash_value: Vec<u8> = copy_bounded(args.lfdb_hash, HASH_MAX)?;
    let target_sd_aid: Aid = Aid::new(args.target_sd_aid)?;
    Ok(
        LoadPackageReport {
            effective: LoadPackageParams {
                package_aid: cap.package_aid.clone(),
                load_file_size: total as u32,
                hash_value,
                block_count: count,
                target_sd_aid,
            },
            warnings: Vec::new(),
        },
    )
}

} // verus!
