//! Which failure comes when: of each operation, for every status word that has no meaning of
//! its own there, for every broken exchange, and for what is no identifier.
use vstd::prelude::*;

use crate::backend::Event;
use crate::cap::{CapError, CapModel};
use crate::error::{general_sw, ScllError};
use crate::report::{
    CreateSsdReport, DeleteCascade, DeleteKeyReport, DeleteObjectReport, InstallAppletReport,
    LoadPackageReport, OpenScpReport, PutKeysReport,
};
use crate::scp::{selected, ScpSession};
use crate::transport::Exchange;
use crate::workflow::applet::{
    applet_deletion, install_reported, DeleteAppletArgs, InstallAppletArgs,
};
use crate::workflow::card_status::{scope_from, set_status_verdict};
use crate::workflow::discover::{issuer_aid, optional_data};
use crate::workflow::keys::{delete_key_reported, echo_agrees, put_keys_reported, PutSdKeysArgs};
use crate::workflow::load::{load_install_verdict, loaded, planned, LoadPackageArgs};
use crate::workflow::open_scp::{opened, reply_in, OpenScpArgs};
use crate::workflow::session::{outcomes, select_outcome, step_outcome, Answer, Step};
use crate::workflow::ssd::{create_reported, delete_reported, CreateSsdArgs};

verus! {

/// A status word without a meaning of its own: `6982` and `6985` have errors, and any other
/// is carried as it came.
pub open spec fn means(sw: u16, e: ScllError) -> bool {
    if sw == 0x6982 {
        e is SecurityStatusNotSatisfied
    } else if sw == 0x6985 {
        e is ConditionsNotSatisfied
    } else {
        e matches ScllError::Card { sw: carried } && carried == sw
    }
}

/// What is no identifier is refused with its length.
pub open spec fn refuses(aid: Seq<u8>, e: ScllError) -> bool {
    &&& !(5 <= aid.len() <= 16)
    &&& aid.len() <= usize::MAX ==> (e matches ScllError::InvalidAid { len } && len == aid.len())
}

/// The error of a status word.
pub proof fn law_status_words(sw: u16)
    ensures
        means(sw, general_sw(sw)),
{
}

/// Selecting, reading an optional object, and the first command of a load.
pub proof fn law_simple_commands_fail(a: Answer)
    ensures
        a.sw != 0x9000 && a.sw != 0x6A82 ==> select_outcome(Ok(a)) is Err && means(
            a.sw,
            select_outcome(Ok(a))->Err_0,
        ),
        a.sw != 0x9000 && a.sw != 0x6A88 ==> optional_data(Ok(a)) is Err && means(
            a.sw,
            optional_data(Ok(a))->Err_0,
        ),
        a.sw != 0x9000 && a.sw != 0x6A88 && a.sw != 0x6A80 ==> load_install_verdict(a.sw) is Err
            && means(a.sw, load_install_verdict(a.sw)->Err_0),
        a.sw != 0x9000 && a.sw != 0x6985 ==> set_status_verdict(a.sw) is Err && means(
            a.sw,
            set_status_verdict(a.sw)->Err_0,
        ),
        a.sw != 0x9000 && a.sw != 0x6310 && a.sw != 0x6A88 ==> {
            let r = scope_from(seq![Ok::<Answer, ScllError>(a)], 0, Seq::empty(), 0);
            r is Some && r->Some_0 is Err && means(a.sw, r->Some_0->Err_0)
        },
{
}

/// A broken exchange is the failure of the command that needed it.
pub proof fn law_broken_exchanges(e: ScllError)
    ensures
        select_outcome(Err(e)) == Err::<Seq<u8>, ScllError>(e),
        optional_data(Err(e)) == Err::<Option<Seq<u8>>, ScllError>(e),
{
}

/// The issuer of a card: what was expected, if that is an identifier.
pub proof fn law_expected_issuer(aid: Seq<u8>, fci: Seq<u8>)
    ensures
        5 <= aid.len() <= 16 ==> issuer_aid(Some(aid), fci) == Ok::<Seq<u8>, ScllError>(aid),
        !(5 <= aid.len() <= 16) ==> issuer_aid(Some(aid), fci) is Err && refuses(
            aid,
            issuer_aid(Some(aid), fci)->Err_0,
        ),
{
}

/// Creating a security domain.
pub proof fn law_create_fails(
    r: Result<CreateSsdReport, ScllError>,
    args: CreateSsdArgs<'_>,
    a: Answer,
)
    requires
        create_reported(r, args, Ok(a)),
    ensures
        a.sw != 0x9000 && a.sw != 0x6A88 && a.sw != 0x6A80 ==> r is Err && means(a.sw, r->Err_0),
        a.sw == 0x9000 && !(5 <= args.ssd_aid@.len() <= 16) ==> r is Err && refuses(
            args.ssd_aid@,
            r->Err_0,
        ),
        r matches Ok(report) ==> report.warnings@.len() == 0,
{
}

/// Deleting a security domain.
pub proof fn law_delete_fails(
    r: Result<DeleteObjectReport, ScllError>,
    ssd_aid: Seq<u8>,
    cascade: DeleteCascade,
    a: Answer,
)
    requires
        delete_reported(r, ssd_aid, cascade, Ok(a)),
    ensures
        a.sw != 0x9000 && a.sw != 0x6A88 && a.sw != 0x6985 ==> r is Err && means(a.sw, r->Err_0),
        a.sw == 0x9000 && !(5 <= ssd_aid.len() <= 16) ==> r is Err && refuses(ssd_aid, r->Err_0),
        r matches Ok(report) ==> report.warnings@.len() == 0,
{
}

/// Installing an applet.
pub proof fn law_install_fails(
    r: Result<InstallAppletReport, ScllError>,
    args: InstallAppletArgs<'_>,
    a: Answer,
)
    requires
        install_reported(r, args, Ok(a)),
    ensures
        a.sw != 0x9000 && a.sw != 0x6A88 && a.sw != 0x6A80 ==> r is Err && means(a.sw, r->Err_0),
        a.sw == 0x9000 && !(5 <= args.instance_aid@.len() <= 16) ==> r is Err && refuses(
            args.instance_aid@,
            r->Err_0,
        ),
        r matches Ok(report) ==> report.warnings@.len() == 0,
{
}

/// Deleting an applet.
pub proof fn law_applet_deletion_fails(
    args: DeleteAppletArgs<'_>,
    sent: Seq<Seq<u8>>,
    got: Seq<Result<Answer, ScllError>>,
    r: Result<DeleteObjectReport, ScllError>,
)
    requires
        applet_deletion(args, sent, got, r),
    ensures
        got[0] matches Err(e) ==> sent.len() == 1 && r == Err::<DeleteObjectReport, ScllError>(e),
        got[0] matches Ok(a) ==> {
            &&& a.sw != 0x9000 && a.sw != 0x6A88 ==> r is Err && means(a.sw, r->Err_0)
            &&& a.sw == 0x9000 && !(5 <= args.instance_aid@.len() <= 16) ==> sent.len() == 1
                && r is Err && refuses(args.instance_aid@, r->Err_0)
        },
        got.len() == 2 ==> {
            &&& got[1] matches Err(e) ==> r == Err::<DeleteObjectReport, ScllError>(e)
            &&& got[1] matches Ok(a) ==> (a.sw != 0x9000 && a.sw != 0x6A88 && a.sw != 0x6985
                ==> r is Err && means(a.sw, r->Err_0))
        },
        sent.len() == got.len(),
        1 <= sent.len() <= 2,
        r matches Ok(report) ==> report.warnings@.len() == 0,
{
}

/// Putting keys.
pub proof fn law_put_keys_fails(
    r: Result<PutKeysReport, ScllError>,
    channel: ScpSession,
    args: PutSdKeysArgs<'_>,
    results: Seq<Seq<u8>>,
    answer: Result<Answer, ScllError>,
)
    requires
        put_keys_reported(r, channel, args, results, answer),
    ensures
        answer matches Err(e) ==> r == Err::<PutKeysReport, ScllError>(e),
        answer matches Ok(a) ==> {
            &&& a.sw != 0x9000 ==> r is Err && means(a.sw, r->Err_0)
            &&& a.sw == 0x9000 && echo_agrees(
                a.data,
                args.new_kvn,
                results[3] + results[4] + results[5],
            ) && !(5 <= args.target_sd_aid@.len() <= 16) ==> r is Err && refuses(
                args.target_sd_aid@,
                r->Err_0,
            )
        },
        r matches Ok(report) ==> report.warnings@.len() == 0,
{
}

/// Deleting keys.
pub proof fn law_delete_keys_fails(
    r: Result<DeleteKeyReport, ScllError>,
    kvn: u8,
    target_sd_aid: Seq<u8>,
    answer: Result<Answer, ScllError>,
)
    requires
        delete_key_reported(r, kvn, target_sd_aid, answer),
    ensures
        answer matches Err(e) ==> r == Err::<DeleteKeyReport, ScllError>(e),
        answer matches Ok(a) ==> {
            &&& a.sw != 0x9000 && a.sw != 0x6A88 ==> r is Err && means(a.sw, r->Err_0)
            &&& a.sw == 0x9000 && !(5 <= target_sd_aid.len() <= 16) ==> r is Err && refuses(
                target_sd_aid,
                r->Err_0,
            )
        },
{
}

/// Loading a package: nothing is sent behind a refused INSTALL [for load], and nothing
/// behind a refused block; the refusal is the failure. Where the card refused nothing the
/// data were broken, and that is the failure.
pub proof fn law_load_fails(
    r: Result<LoadPackageReport, ScllError>,
    args: LoadPackageArgs<'_>,
    m: CapModel,
    first: Step,
    sent: Result<u16, ScllError>,
    steps: Seq<Step>,
    chunks: Seq<Seq<u8>>,
    k: int,
)
    requires
        loaded(r, args, m, first, sent, steps, chunks),
        0 <= k < steps.len(),
    ensures
        step_outcome(first) matches Ok(a) && a.sw == 0x9000,
        !(step_outcome(steps[k]) matches Ok(a) && a.sw == 0x9000) ==> k == steps.len() - 1,
        step_outcome(steps[k]) matches Err(e) ==> r == Err::<LoadPackageReport, ScllError>(e),
        step_outcome(steps[k]) matches Ok(a) ==> (a.sw != 0x9000 ==> r is Err && means(
            a.sw,
            r->Err_0,
        )),
        (step_outcome(steps.last()) matches Ok(a) && a.sw == 0x9000) && planned(
            args.cap_zip@,
            m.locs,
        ).failed ==> r is Err && r->Err_0 == ScllError::Cap(CapError::Inflate),
        r matches Ok(report) ==> report.warnings@.len() == 0,
{
    assert(outcomes(steps)[k] == step_outcome(steps[k]));
}

/// A refused INSTALL [for load].
pub proof fn law_load_is_refused(
    r: Result<LoadPackageReport, ScllError>,
    args: LoadPackageArgs<'_>,
    m: CapModel,
    first: Step,
    sent: Result<u16, ScllError>,
    steps: Seq<Step>,
    chunks: Seq<Seq<u8>>,
)
    requires
        loaded(r, args, m, first, sent, steps, chunks),
        !(step_outcome(first) matches Ok(a) && a.sw == 0x9000),
    ensures
        steps.len() == 0,
        r is Err,
        step_outcome(first) matches Err(e) ==> r->Err_0 == e,
        step_outcome(first) matches Ok(a) ==> {
            &&& a.sw == 0x6A88 ==> r->Err_0 is ResidentSdNotFound
            &&& a.sw == 0x6A80 ==> r->Err_0 is PackageAidExists
            &&& a.sw != 0x6A88 && a.sw != 0x6A80 ==> means(a.sw, r->Err_0)
        },
{
}

/// Opening a channel: what stops it, and how far it had come.
pub proof fn law_opening_fails(
    r: Result<OpenScpReport, ScllError>,
    args: OpenScpArgs<'_>,
    link: Seq<Exchange>,
    calls: Seq<Event>,
)
    requires
        opened(r, args, link, calls),
        selected(args.advertised@, args.force_scp) is Some,
        args.target_aid@.len() <= 255,
    ensures
        link.len() >= 1,
        reply_in(link[0]) matches Err(e) ==> r is Err && r->Err_0 == e && link.len() == 1,
        reply_in(link[0]) matches Ok(a) ==> {
            &&& a.sw != 0x9000 ==> r is Err && link.len() == 1 && calls.len() == 0
            &&& a.sw != 0x9000 && a.sw != 0x6A82 ==> means(a.sw, r->Err_0)
            &&& a.sw == 0x6A82 ==> r->Err_0 is CardNotUsable
            &&& a.sw == 0x9000 && !(5 <= args.target_aid@.len() <= 16) ==> r is Err && refuses(
                args.target_aid@,
                r->Err_0,
            ) && link.len() == 1
        },
        link.len() == 2 && calls.len() == 1 ==> r is Err,
        link.len() >= 2 ==> {
            &&& reply_in(link[1]) matches Err(e) ==> r is Err && r->Err_0 == e && link.len() == 2
            &&& reply_in(link[1]) matches Ok(a) ==> (a.sw != 0x9000 ==> r is Err && link.len() == 2
                && means(a.sw, r->Err_0))
        },
{
}

} // verus!
