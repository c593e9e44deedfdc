//! Security domains, applets, application commands and packages.
use vstd::prelude::*;

use crate::aid::aid_shaped;
use crate::buffers::rapdu_bytes;
use crate::cap::CapModel;
use crate::cap::lfdb::{block_of, complete, framed_len};
use crate::command::delete::object_reference;
use crate::command::install::PrivLen;
use crate::error::ScllError;
use crate::laws::commands::{
    fields_in, law_install_data, law_install_for_load_data, law_short_command,
};
use crate::report::{
    AppletTransmitReport, CreateSsdReport, DeleteCascade, DeleteObjectReport, InstallAppletReport,
    LoadPackageReport,
};
use crate::scp::ScpSession;
use crate::workflow::applet::{
    applet_data, applet_deletion, delete_command, install_params_field, install_reported, wants_elf,
    DeleteAppletArgs, InstallAppletArgs,
};
use crate::workflow::load::{
    install_command, joined, law_last_block_is_marked, law_success_means_all_was_sent,
    load_commands, load_install_verdict, loaded, planned, LoadPackageArgs,
};
use crate::workflow::session::{step_outcome, Answer, Step};
use crate::workflow::ssd::{
    cascades, create_data, create_reported, delete_reported, first_bad_aid, CreateSsdArgs,
};
use crate::workflow::transmit::transmit_reported;

verus! {

/// An identifier has 5 to 16 octets.
pub proof fn law_identifier_length(bytes: Seq<u8>)
    ensures
        aid_shaped(bytes) <==> 5 <= bytes.len() <= 16,
{
}

// ---- Security domains ------------------------------------------------------

/// The data field that creates a security domain: load file, module, the new domain, its
/// privileges, its parameters, and an empty field.
pub proof fn law_create_data(args: CreateSsdArgs<'_>, enc: PrivLen)
    requires
        args.elf_aid@.len() <= 255,
        args.module_aid@.len() <= 255,
        args.ssd_aid@.len() <= 255,
        args.install_params@.len() <= 255,
    ensures
        ({
            let p = args.privileges@;
            let short = enc is Jcop1Byte && p[1] == 0 && p[2] == 0;
            fields_in(create_data(args, enc), 6) == Some(
                seq![
                    args.elf_aid@,
                    args.module_aid@,
                    args.ssd_aid@,
                    if short {
                        seq![p[0]]
                    } else {
                        p
                    },
                    args.install_params@,
                    Seq::empty(),
                ],
            )
        }),
{
    let p = args.privileges@;
    law_install_data(
        args.elf_aid@,
        args.module_aid@,
        args.ssd_aid@,
        p,
        enc,
        args.install_params@,
    );
    assert(p.take(1) =~= seq![p[0]]);
}

/// A security domain is created exactly where the card says `9000` and all four
/// identifiers are ones; the report says what was asked for. `6A88` means that the parent
/// is missing, and `6A80` that the identifier is taken.
pub proof fn law_create_outcome(
    r: Result<CreateSsdReport, ScllError>,
    args: CreateSsdArgs<'_>,
    answer: Result<Answer, ScllError>,
)
    requires
        create_reported(r, args, answer),
    ensures
        r is Ok <==> {
            &&& answer matches Ok(a) && a.sw == 0x9000
            &&& 5 <= args.ssd_aid@.len() <= 16
            &&& 5 <= args.parent_sd_aid@.len() <= 16
            &&& 5 <= args.elf_aid@.len() <= 16
            &&& 5 <= args.module_aid@.len() <= 16
        },
        r matches Ok(report) ==> {
            let e = report.effective;
            &&& e.ssd_aid_effective@ == args.ssd_aid@
            &&& !e.aid_was_generated
            &&& e.parent_sd_aid@ == args.parent_sd_aid@
            &&& e.privileges_used@ == args.privileges@
            &&& e.elf_aid_used@ == args.elf_aid@
            &&& e.module_aid_used@ == args.module_aid@
            &&& e.install_params_used@ == args.install_params@
        },
        answer matches Ok(a) ==> {
            &&& a.sw == 0x6A88 ==> r == Err::<CreateSsdReport, ScllError>(
                ScllError::ResidentSdNotFound,
            )
            &&& a.sw == 0x6A80 ==> r == Err::<CreateSsdReport, ScllError>(
                ScllError::AidAlreadyExists,
            )
        },
        answer matches Err(e) ==> r == Err::<CreateSsdReport, ScllError>(e),
{
    lemma_four_aids(args.ssd_aid@, args.parent_sd_aid@, args.elf_aid@, args.module_aid@);
}

proof fn lemma_four_aids(a: Seq<u8>, b: Seq<u8>, c: Seq<u8>, d: Seq<u8>)
    ensures
        first_bad_aid(seq![a, b, c, d]) is None <==> (aid_shaped(a) && aid_shaped(b) && aid_shaped(
            c,
        ) && aid_shaped(d)),
{
    let all = seq![a, b, c, d];
    reveal_with_fuel(first_bad_aid, 5);
    assert(all.skip(1) =~= seq![b, c, d]);
    assert(all.skip(1).skip(1) =~= seq![c, d]);
    assert(all.skip(1).skip(1).skip(1) =~= seq![d]);
    assert(all.skip(1).skip(1).skip(1).skip(1) =~= Seq::empty());
}

/// What depends on a domain is deleted with it exactly under the two requests that say
/// so.
pub proof fn law_which_deletions_cascade(cascade: DeleteCascade)
    ensures
        cascades(cascade) <==> cascade is Cascade || cascade is Always,
        wants_elf(cascade) <==> cascade is Always || cascade is IfLastInstance,
{
}

/// A security domain is deleted exactly where the card says `9000`; `6A88` means that it
/// is gone, and `6985`, where nothing else was to be deleted, that it is not empty.
pub proof fn law_delete_outcome(
    r: Result<DeleteObjectReport, ScllError>,
    ssd_aid: Seq<u8>,
    cascade: DeleteCascade,
    answer: Result<Answer, ScllError>,
)
    requires
        delete_reported(r, ssd_aid, cascade, answer),
    ensures
        r is Ok <==> (answer matches Ok(a) && a.sw == 0x9000 && 5 <= ssd_aid.len() <= 16),
        r matches Ok(report) ==> {
            let e = report.effective;
            &&& e.target_aid@ == ssd_aid
            &&& e.target_kind is Ssd
            &&& e.cascade_requested == cascade
            &&& e.cascade_used == (cascade is Cascade || cascade is Always)
            &&& e.instances_removed@.len() == 0
            &&& e.elfs_removed@.len() == 0
        },
        answer matches Ok(a) ==> {
            &&& a.sw == 0x6A88 ==> r == Err::<DeleteObjectReport, ScllError>(
                ScllError::TargetNoLongerExists,
            )
            &&& a.sw == 0x6985 && !(cascade is Cascade || cascade is Always) ==> r == Err::<
                DeleteObjectReport,
                ScllError,
            >(ScllError::SsdHasApplets)
            &&& a.sw == 0x6985 && (cascade is Cascade || cascade is Always) ==> r == Err::<
                DeleteObjectReport,
                ScllError,
            >(ScllError::ConditionsNotSatisfied)
        },
        answer matches Err(e) ==> r == Err::<DeleteObjectReport, ScllError>(e),
{
}

// ---- Applets ---------------------------------------------------------------

/// The parameters of an applet: `C9` with the application's, and, where there are any,
/// `EF` with the system's behind them.
pub proof fn law_install_parameters(app: Seq<u8>, sys: Seq<u8>)
    requires
        app.len() <= 255,
        sys.len() <= 255,
    ensures
        ({
            let s = install_params_field(app, sys);
            let n = 2 + app.len() as int;
            &&& s[0] == 0xC9
            &&& s[1] == app.len()
            &&& s.subrange(2, n) == app
            &&& sys.len() == 0 ==> s.len() == n
            &&& sys.len() > 0 ==> {
                &&& s.len() == n + 2 + sys.len()
                &&& s[n] == 0xEF
                &&& s[n + 1] == sys.len()
                &&& s.skip(n + 2) == sys
            }
        }),
{
    let s = install_params_field(app, sys);
    let n = 2 + app.len() as int;
    assert(s.subrange(2, n) =~= app);
    if sys.len() > 0 {
        assert(s.skip(n + 2) =~= sys);
    }
}

/// The data field that installs an applet: package, module, the new instance, its
/// privileges, its parameters, and an empty field.
pub proof fn law_applet_data(args: InstallAppletArgs<'_>, enc: PrivLen)
    requires
        args.package_aid@.len() <= 255,
        args.module_aid@.len() <= 255,
        args.instance_aid@.len() <= 255,
        install_params_field(
            args.applet_install_params@,
            args.system_install_params@,
        ).len() <= 255,
    ensures
        ({
            let p = args.privileges@;
            let short = enc is Jcop1Byte && p[1] == 0 && p[2] == 0;
            fields_in(applet_data(args, enc), 6) == Some(
                seq![
                    args.package_aid@,
                    args.module_aid@,
                    args.instance_aid@,
                    if short {
                        seq![p[0]]
                    } else {
                        p
                    },
                    install_params_field(args.applet_install_params@, args.system_install_params@),
                    Seq::empty(),
                ],
            )
        }),
{
    let p = args.privileges@;
    law_install_data(
        args.package_aid@,
        args.module_aid@,
        args.instance_aid@,
        p,
        enc,
        install_params_field(args.applet_install_params@, args.system_install_params@),
    );
    assert(p.take(1) =~= seq![p[0]]);
}

/// An applet is installed exactly where the card says `9000` and all four identifiers are
/// ones; the report says what was asked for. `6A88` means that the package is missing, and
/// `6A80` that the identifier is taken.
pub proof fn law_install_outcome(
    r: Result<InstallAppletReport, ScllError>,
    args: InstallAppletArgs<'_>,
    answer: Result<Answer, ScllError>,
)
    requires
        install_reported(r, args, answer),
    ensures
        r is Ok <==> {
            &&& answer matches Ok(a) && a.sw == 0x9000
            &&& 5 <= args.instance_aid@.len() <= 16
            &&& 5 <= args.package_aid@.len() <= 16
            &&& 5 <= args.module_aid@.len() <= 16
            &&& 5 <= args.parent_sd_aid@.len() <= 16
        },
        r matches Ok(report) ==> {
            let e = report.effective;
            &&& e.instance_aid@ == args.instance_aid@
            &&& e.package_aid_used@ == args.package_aid@
            &&& e.module_aid_used@ == args.module_aid@
            &&& e.privileges_used@ == args.privileges@
            &&& e.system_install_params@ == args.system_install_params@
            &&& e.applet_install_params@ == args.applet_install_params@
            &&& e.parent_sd_aid@ == args.parent_sd_aid@
        },
        answer matches Ok(a) ==> {
            &&& a.sw == 0x6A88 ==> r == Err::<InstallAppletReport, ScllError>(
                ScllError::PackageNotFound,
            )
            &&& a.sw == 0x6A80 ==> r == Err::<InstallAppletReport, ScllError>(
                ScllError::AidAlreadyExists,
            )
        },
        answer matches Err(e) ==> r == Err::<InstallAppletReport, ScllError>(e),
{
    lemma_four_aids(
        args.instance_aid@,
        args.package_aid@,
        args.module_aid@,
        args.parent_sd_aid@,
    );
}

/// DELETE of one object: `84 E4 00 00`, a length, `4F`, the length of the identifier, the
/// identifier, and `00`.
pub proof fn law_delete_command(aid: Seq<u8>)
    requires
        aid.len() <= 253,
    ensures
        ({
            let s = delete_command(aid);
            &&& s.len() == 8 + aid.len()
            &&& s[0] == 0x84 && s[1] == 0xE4 && s[2] == 0x00 && s[3] == 0x00
            &&& s[4] == 2 + aid.len()
            &&& s[5] == 0x4F
            &&& s[6] == aid.len()
            &&& s.subrange(7, 7 + aid.len() as int) == aid
            &&& s.last() == 0x00
        }),
{
    let data = object_reference(aid);
    law_short_command(0x84, 0xE4, 0x00, 0x00, data, true);
    let s = delete_command(aid);
    assert(s.subrange(7, 7 + aid.len() as int) =~= aid);
}

/// Deleting an applet deletes the instance first. The load file goes too, and only then,
/// where the request says so and names it. Success means that the card agreed to each,
/// and the report lists exactly what went.
pub proof fn law_applet_deletion(
    args: DeleteAppletArgs<'_>,
    sent: Seq<Seq<u8>>,
    got: Seq<Result<Answer, ScllError>>,
    r: Result<DeleteObjectReport, ScllError>,
)
    requires
        applet_deletion(args, sent, got, r),
        r is Ok,
    ensures
        ({
            let both = (args.cascade_elf is Always || args.cascade_elf is IfLastInstance)
                && args.elf_aid is Some;
            let e = r->Ok_0.effective;
            &&& sent.len() == (if both {
                2int
            } else {
                1
            })
            &&& sent[0] == delete_command(args.instance_aid@)
            &&& both ==> sent[1] == delete_command(args.elf_aid->Some_0@)
            &&& forall|i: int|
                0 <= i < got.len() ==> ((#[trigger] got[i]) matches Ok(a) && a.sw == 0x9000)
            &&& e.target_aid@ == args.instance_aid@
            &&& e.target_kind is AppletInstance
            &&& e.cascade_requested == args.cascade_elf
            &&& e.cascade_used == both
            &&& e.instances_removed@.len() == 1 && e.instances_removed@[0]@ == args.instance_aid@
            &&& both ==> e.elfs_removed@.len() == 1 && e.elfs_removed@[0]@ == args.elf_aid->Some_0@
            &&& !both ==> e.elfs_removed@.len() == 0
        }),
{
}

/// What the status words mean where an applet cannot be deleted: `6A88` that the object
/// is gone, and `6985` for the load file that others depend on it.
pub proof fn law_applet_deletion_failures(
    args: DeleteAppletArgs<'_>,
    sent: Seq<Seq<u8>>,
    got: Seq<Result<Answer, ScllError>>,
    r: Result<DeleteObjectReport, ScllError>,
)
    requires
        applet_deletion(args, sent, got, r),
    ensures
        got[0] matches Ok(a) ==> {
            &&& a.sw != 0x9000 ==> sent.len() == 1 && r is Err
            &&& a.sw == 0x6A88 ==> r == Err::<DeleteObjectReport, ScllError>(
                ScllError::TargetNoLongerExists,
            )
        },
        got.len() == 2 ==> (got[1] matches Ok(a) ==> {
            &&& a.sw != 0x9000 ==> r is Err
            &&& a.sw == 0x6985 ==> r == Err::<DeleteObjectReport, ScllError>(
                ScllError::ElfHasOtherInstances,
            )
            &&& a.sw == 0x6A88 ==> r == Err::<DeleteObjectReport, ScllError>(
                ScllError::TargetNoLongerExists,
            )
        }),
{
}

// ---- Application commands --------------------------------------------------

/// What is reported of an application command is the card's answer, whatever its status
/// word, with the lengths of both and with the parameters of the channel.
pub proof fn law_transmit_report(
    r: Result<AppletTransmitReport, ScllError>,
    channel: ScpSession,
    command: Seq<u8>,
    answer: Result<Answer, ScllError>,
)
    requires
        transmit_reported(r, channel, command, answer),
    ensures
        match answer {
            Err(e) => r == Err::<AppletTransmitReport, ScllError>(e),
            Ok(a) => r matches Ok(report) && {
                let e = report.effective;
                &&& rapdu_bytes(report.rapdu) == a.data
                &&& report.sw == a.sw
                &&& e.sw@.len() == 2 && e.sw@[0] * 256 + e.sw@[1] == a.sw
                &&& command.len() < 0x1_0000 ==> e.capdu_plaintext_len == command.len()
                &&& a.data.len() < 0x1_0000 ==> e.rapdu_plaintext_len == a.data.len()
                &&& match channel {
                    ScpSession::Scp03(s) => e.session_id == s@.session.0 && e.sec_level
                        == s@.security_level && e.scp_protocol is Scp03,
                    ScpSession::Scp02(s) => e.session_id == s@.session.0 && e.sec_level
                        == s@.security_level && e.scp_protocol is Scp02,
                }
            },
        },
{
}

// ---- Packages --------------------------------------------------------------

/// INSTALL [for load]: `84 E6 02 00`, and in its data the package, the security domain,
/// the hash and two empty fields.
pub proof fn law_install_for_load(args: LoadPackageArgs<'_>, m: CapModel)
    requires
        m.package_aid.len() <= 16,
        args.target_sd_aid@.len() <= 16,
        args.lfdb_hash@.len() <= 64,
    ensures
        ({
            let s = install_command(args, m);
            let n = 5 + m.package_aid.len() + args.target_sd_aid@.len()
                + args.lfdb_hash@.len() as int;
            &&& s[0] == 0x84 && s[1] == 0xE6 && s[2] == 0x02 && s[3] == 0x00
            &&& s[4] == n
            &&& fields_in(s.subrange(5, 5 + n), 5) == Some(
                seq![
                    m.package_aid,
                    args.target_sd_aid@,
                    args.lfdb_hash@,
                    Seq::empty(),
                    Seq::empty(),
                ],
            )
            &&& s.len() == 6 + n && s.last() == 0x00
        }),
{
    let data = crate::command::install::install_load_data(
        m.package_aid,
        args.target_sd_aid@,
        args.lfdb_hash@,
    );
    law_install_for_load_data(m.package_aid, args.target_sd_aid@, args.lfdb_hash@);
    law_short_command(0x84, 0xE6, 0x02, 0x00, data, true);
}

/// The status words of INSTALL [for load]: `9000` lets the blocks follow, `6A88` means that
/// the security domain is missing, and `6A80` that the package is there already.
pub proof fn law_install_for_load_status(sw: u16)
    ensures
        load_install_verdict(sw) is Ok <==> sw == 0x9000,
        sw == 0x6A88 ==> load_install_verdict(sw) == Err::<(), ScllError>(
            ScllError::ResidentSdNotFound,
        ),
        sw == 0x6A80 ==> load_install_verdict(sw) == Err::<(), ScllError>(
            ScllError::PackageAidExists,
        ),
{
}

/// Where a complete package was loaded, the card agreed to INSTALL [for load] and to every
/// block; the data of the blocks, one behind the other, are the load file; the blocks are
/// numbered from zero, full but for the last, and only the last is marked. The report
/// says how many there were, and how long the load file is.
pub proof fn law_loaded(
    r: Result<LoadPackageReport, ScllError>,
    args: LoadPackageArgs<'_>,
    m: CapModel,
    first: Step,
    sent: Result<u16, ScllError>,
    steps: Seq<Step>,
    chunks: Seq<Seq<u8>>,
    k: int,
)
    requires
        loaded(r, args, m, first, sent, steps, chunks),
        r is Ok,
        complete(args.cap_zip@, m.locs),
        framed_len(m.locs) <= 57088,
        0 <= k < steps.len(),
    ensures
        first.command == install_command(args, m),
        step_outcome(first) matches Ok(a) && a.sw == 0x9000,
        step_outcome(steps[k]) matches Ok(a) && a.sw == 0x9000,
        joined(chunks) == block_of(args.cap_zip@, m.locs),
        ({
            let s = steps[k].command;
            let last = k == steps.len() - 1;
            &&& chunks.len() == steps.len()
            &&& s[0] == 0x84 && s[1] == 0xE8
            &&& s[2] == (if last {
                0x80
            } else {
                0x00int
            })
            &&& s[3] == k
            &&& chunks[k].len() > 0 ==> s[4] == chunks[k].len() && s.subrange(
                5,
                5 + chunks[k].len() as int,
            ) == chunks[k]
            &&& !last ==> chunks[k].len() == 223
            &&& s.last() == 0x00
        }),
        ({
            let e = r->Ok_0.effective;
            &&& e.package_aid@ == m.package_aid
            &&& e.load_file_size == framed_len(m.locs)
            &&& e.hash_value@ == args.lfdb_hash@
            &&& e.block_count == steps.len()
            &&& e.target_sd_aid@ == args.target_sd_aid@
        }),
{
    let zip = args.cap_zip@;
    let whole = block_of(zip, m.locs);
    let total = framed_len(m.locs) as nat;
    let n = sent->Ok_0;
    assert(crate::workflow::load::blocks_sent(Ok(n), planned(zip, m.locs), total, steps, chunks));
    law_success_means_all_was_sent(n, zip, m.locs, steps, chunks, k);
    crate::workflow::load::law_complete_archive_comes_whole(zip, m.locs);
    crate::cap::lfdb::law_block_length(zip, m.locs);
    assert(chunks =~= crate::workflow::load::pieces(whole));
    assert(crate::workflow::session::commands(steps).len() == steps.len());
    assert(load_commands(chunks, total).len() == chunks.len());
    law_last_block_is_marked(whole, k);
    let p1: u8 = if k == steps.len() - 1 {
        0x80
    } else {
        0x00
    };
    assert(chunks[k].len() <= 223);
    law_short_command(0x84, 0xE8, p1, k as u8, chunks[k], true);
}

} // verus!
