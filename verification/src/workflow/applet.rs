//! Applet instances.
use vstd::prelude::*;

use crate::aid::{aid_shaped, Aid};
use crate::backend::{Scp02Backend, Scp03Backend};
use crate::buffers::{capdu_slice, Capdu};
use crate::command::delete::{delete_object, object_reference};
use crate::command::install::{install_data, install_for_install_make_selectable, PrivLen};
use crate::command::{lv, short_apdu, BuildError};
use crate::error::{general_sw, ScllError};
use crate::limits::INSTALL_PARAMS_MAX;
use crate::report::{
    DeleteCascade, DeleteObjectParams, DeleteObjectReport, DeleteTargetKind, InstallAppletParams,
    InstallAppletReport,
};
use crate::scp::ScpSession;
use crate::transport::Transport;
use crate::workflow::session::{
    answer_view, commands, exchanged, fails_with, lemma_one_more, now, outcomes, performed,
    step_outcome, transmit_in_session, Answer, Step, SW_CONDITIONS, SW_OK, SW_REF_NOT_FOUND,
    SW_WRONG_DATA,
};
use crate::workflow::ssd::{copy_bounded, first_bad_aid};

verus! {

/// Application parameters.
const TAG_C9_APP_PARAMS: u8 = 0xC9;

/// System parameters.
const TAG_EF_SYS_PARAMS: u8 = 0xEF;

/// Privileges that an applet must not have: security domain, DAP verification,
/// delegated management and mandated DAP verification.
const PRIV_REFUSED_MASK: u8 = 0xE1;

/// What to install.
pub struct InstallAppletArgs<'a> {
    pub parent_sd_aid: &'a [u8],
    pub package_aid: &'a [u8],
    pub module_aid: &'a [u8],
    pub instance_aid: &'a [u8],
    pub privileges: [u8; 3],
    pub system_install_params: &'a [u8],
    pub applet_install_params: &'a [u8],
}

/// What to delete. The load file is deleted too where `cascade_elf` asks for it
/// and `elf_aid` names it.
pub struct DeleteAppletArgs<'a> {
    pub instance_aid: &'a [u8],
    pub elf_aid: Option<&'a [u8]>,
    pub cascade_elf: DeleteCascade,
}

/// The parameter field: the application's parameters under `C9` and, where there
/// are any, the system's under `EF`.
pub open spec fn install_params_field(app: Seq<u8>, sys: Seq<u8>) -> Seq<u8> {
    let head = seq![0xC9u8] + lv(app);
    if sys.len() == 0 {
        head
    } else {
        head + (seq![0xEFu8] + lv(sys))
    }
}

/// Appends a tag, a length octet and a value; at most 255 bytes fit.
fn push_tlv(out: &mut Vec<u8>, tag: u8, value: &[u8]) -> (r: Result<(), ScllError>)
    requires
        old(out)@.len() <= INSTALL_PARAMS_MAX,
    ensures
        match r {
            Ok(()) => old(out)@.len() + 2 + value@.len() <= INSTALL_PARAMS_MAX && final(out)@
                == old(out)@ + (seq![tag] + lv(value@)),
            Err(e) => old(out)@.len() + 2 + value@.len() > INSTALL_PARAMS_MAX && e
                == ScllError::Build(BuildError::Overflow),
        },
{
    if value.len() > 255 || out.len() + 2 + value.len() > INSTALL_PARAMS_MAX {
        return Err(ScllError::Build(BuildError::Overflow));
    }
    out.push(tag);
    out.push(value.len() as u8);
    out.extend_from_slice(value);
    assert(out@ =~= old(out)@ + (seq![tag] + lv(value@)));
    Ok(())
}

/// Assembles the parameter field.
fn build_install_params(app_params: &[u8], sys_params: &[u8]) -> (r: Result<Vec<u8>, ScllError>)
    ensures
        match r {
            Ok(v) => v@ == install_params_field(app_params@, sys_params@) && v@.len()
                <= INSTALL_PARAMS_MAX,
            Err(e) => install_params_field(app_params@, sys_params@).len() > INSTALL_PARAMS_MAX && e
                == ScllError::Build(BuildError::Overflow),
        },
{
    let mut out: Vec<u8> = Vec::new();
    push_tlv(&mut out, TAG_C9_APP_PARAMS, app_params)?;
    assert(out@ =~= seq![0xC9u8] + lv(app_params@));
    if sys_params.len() > 0 {
        push_tlv(&mut out, TAG_EF_SYS_PARAMS, sys_params)?;
    }
    Ok(out)
}

/// The data field of the INSTALL command of an applet.
pub open spec fn applet_data(args: InstallAppletArgs<'_>, priv_len: PrivLen) -> Seq<u8> {
    install_data(
        args.package_aid@,
        args.module_aid@,
        args.instance_aid@,
        args.privileges@,
        priv_len,
        install_params_field(args.applet_install_params@, args.system_install_params@),
    )
}

/// What a status word of INSTALL means for an applet.
pub open spec fn install_verdict(sw: u16) -> Result<(), ScllError> {
    if sw == SW_OK {
        Ok(())
    } else if sw == SW_REF_NOT_FOUND {
        Err(ScllError::PackageNotFound)
    } else if sw == SW_WRONG_DATA {
        Err(ScllError::AidAlreadyExists)
    } else {
        Err(general_sw(sw))
    }
}

/// Reads the status word of INSTALL for an applet.
pub fn install_applet_status(sw: u16) -> (r: Result<(), ScllError>)
    ensures
        r == install_verdict(sw),
{
    match sw {
        SW_OK => Ok(()),
        SW_REF_NOT_FOUND => Err(ScllError::PackageNotFound),
        SW_WRONG_DATA => Err(ScllError::AidAlreadyExists),
        other => Err(ScllError::from_general_sw(other)),
    }
}

/// What is reported, given the card's answer.
pub open spec fn install_reported(
    r: Result<InstallAppletReport, ScllError>,
    args: InstallAppletArgs<'_>,
    answer: Result<Answer, ScllError>,
) -> bool {
    match answer {
        Err(e) => fails_with(r, e),
        Ok(a) => match install_verdict(a.sw) {
            Err(e) => fails_with(r, e),
            Ok(()) => match first_bad_aid(
                seq![args.instance_aid@, args.package_aid@, args.module_aid@, args.parent_sd_aid@],
            ) {
                Some(e) => fails_with(r, e),
                None => r matches Ok(report) && {
                    &&& report.effective.instance_aid@ == args.instance_aid@
                    &&& report.effective.package_aid_used@ == args.package_aid@
                    &&& report.effective.module_aid_used@ == args.module_aid@
                    &&& report.effective.privileges_used == args.privileges
                    &&& report.effective.system_install_params@ == args.system_install_params@
                    &&& report.effective.applet_install_params@ == args.applet_install_params@
                    &&& report.effective.parent_sd_aid@ == args.parent_sd_aid@
                    &&& report.warnings@.len() == 0
                },
            },
        },
    }
}

/// Installs an applet from a loaded package and makes it selectable. A refused
/// privilege and a command that does not fit are found before anything is sent.
pub fn install_applet<T: Transport, B: Scp02Backend + Scp03Backend>(
    t: &mut T,
    backend: &mut B,
    parent_session: &mut ScpSession,
    args: &InstallAppletArgs<'_>,
    priv_len: PrivLen,
) -> (r: Result<InstallAppletReport, ScllError>)
    ensures
        if args.privileges[0] & 0xE1 != 0 {
            &&& fails_with(r, ScllError::UnsupportedPrivilege)
            &&& now(*final(t), *final(backend), *final(parent_session)) == now(
                *old(t),
                *old(backend),
                *old(parent_session),
            )
        } else if applet_data(*args, priv_len).len() > 255 {
            &&& fails_with(r, ScllError::Build(BuildError::Overflow))
            &&& now(*final(t), *final(backend), *final(parent_session)) == now(
                *old(t),
                *old(backend),
                *old(parent_session),
            )
        } else {
            exists|answer: Result<Answer, ScllError>| #[trigger]
                exchanged(
                    now(*old(t), *old(backend), *old(parent_session)),
                    now(*final(t), *final(backend), *final(parent_session)),
                    short_apdu(0x84, 0xE6, 0x0C, 0x00, applet_data(*args, priv_len), true),
                    answer,
                ) && install_reported(r, *args, answer)
        },
{
    if args.privileges[0] & PRIV_REFUSED_MASK != 0 {
        return Err(ScllError::UnsupportedPrivilege);
    }
    let params: Vec<u8> = build_install_params(
        args.applet_install_params,
        args.system_install_params,
    )?;
    let capdu: Capdu = match install_for_install_make_selectable(
        args.package_aid,
        args.module_aid,
        args.instance_aid,
        args.privileges,
        priv_len,
        params.as_slice(),
    ) {
        Ok(c) => c,
        Err(e) => return Err(ScllError::Build(e)),
    };
    let answer = transmit_in_session(t, backend, parent_session, capdu_slice(&capdu));
    assert(exchanged(
        now(*old(t), *old(backend), *old(parent_session)),
        now(*t, *backend, *parent_session),
        short_apdu(0x84, 0xE6, 0x0C, 0x00, applet_data(*args, priv_len), true),
        answer_view(answer),
    ));
    let (_data, sw) = answer?;
    install_applet_status(sw)?;
    proof {
        let aids = seq![
            args.instance_aid@,
            args.package_aid@,
            args.module_aid@,
            args.parent_sd_aid@,
        ];
        reveal_with_fuel(first_bad_aid, 5);
        assert(aids.skip(1)[0] == args.package_aid@);
        assert(aids.skip(1).skip(1)[0] == args.module_aid@);
        assert(aids.skip(1).skip(1).skip(1)[0] == args.parent_sd_aid@);
        assert(aids.skip(1).skip(1).skip(1).skip(1).len() == 0);
    }
    let instance_aid: Aid = Aid::new(args.instance_aid)?;
    let package_aid_used: Aid = Aid::new(args.package_aid)?;
    let module_aid_used: Aid = Aid::new(args.module_aid)?;
    let system_install_params: Vec<u8> = copy_bounded(
        args.system_install_params,
        INSTALL_PARAMS_MAX,
    )?;
    let applet_install_params: Vec<u8> = copy_bounded(
        args.applet_install_params,
        INSTALL_PARAMS_MAX,
    )?;
    let parent_sd_aid: Aid = Aid::new(args.parent_sd_aid)?;
    Ok(
        InstallAppletReport {
            effective: InstallAppletParams {
                instance_aid,
                package_aid_used,
                module_aid_used,
                privileges_used: args.privileges,
                system_install_params,
                applet_install_params,
                parent_sd_aid,
            },
            warnings: Vec::new(),
        },
    )
}

/// The command that deletes one object and nothing that depends on it.
pub open spec fn delete_command(aid: Seq<u8>) -> Seq<u8> {
    short_apdu(0x84, 0xE4, 0x00, 0x00, object_reference(aid), true)
}

/// What a status word of DELETE means for an instance.
pub open spec fn instance_verdict(sw: u16) -> Result<(), ScllError> {
    if sw == SW_OK {
        Ok(())
    } else if sw == SW_REF_NOT_FOUND {
        Err(ScllError::TargetNoLongerExists)
    } else {
        Err(general_sw(sw))
    }
}

/// What a status word of DELETE means for a load file: `6985` says that other
/// instances depend on it.
pub open spec fn elf_verdict(sw: u16) -> Result<(), ScllError> {
    if sw == SW_OK {
        Ok(())
    } else if sw == SW_CONDITIONS {
        Err(ScllError::ElfHasOtherInstances)
    } else if sw == SW_REF_NOT_FOUND {
        Err(ScllError::TargetNoLongerExists)
    } else {
        Err(general_sw(sw))
    }
}

/// Reads the status word of DELETE for an instance.
pub fn delete_instance_status(sw: u16) -> (r: Result<(), ScllError>)
    ensures
        r == instance_verdict(sw),
{
    match sw {
        SW_OK => Ok(()),
        SW_REF_NOT_FOUND => Err(ScllError::TargetNoLongerExists),
        other => Err(ScllError::from_general_sw(other)),
    }
}

/// Reads the status word of DELETE for a load file.
pub fn delete_elf_status(sw: u16) -> (r: Result<(), ScllError>)
    ensures
        r == elf_verdict(sw),
{
    match sw {
        SW_OK => Ok(()),
        SW_CONDITIONS => Err(ScllError::ElfHasOtherInstances),
        SW_REF_NOT_FOUND => Err(ScllError::TargetNoLongerExists),
        other => Err(ScllError::from_general_sw(other)),
    }
}

/// Whether the load file is to be deleted too.
pub open spec fn wants_elf(cascade: DeleteCascade) -> bool {
    cascade is Always || cascade is IfLastInstance
}

/// The load file to delete, where there is one.
pub open spec fn elf_to_delete(args: DeleteAppletArgs<'_>) -> Option<Seq<u8>> {
    if wants_elf(args.cascade_elf) {
        match args.elf_aid {
            Some(elf) => Some(elf@),
            None => None,
        }
    } else {
        None
    }
}

/// What is reported where the instance, and `elf` where it is given, are gone.
pub open spec fn applet_deleted(
    r: Result<DeleteObjectReport, ScllError>,
    args: DeleteAppletArgs<'_>,
    elf: Option<Seq<u8>>,
) -> bool {
    r matches Ok(report) && {
        &&& report.effective.target_aid@ == args.instance_aid@
        &&& report.effective.target_kind is AppletInstance
        &&& report.effective.cascade_requested == args.cascade_elf
        &&& report.effective.cascade_used == elf is Some
        &&& report.effective.instances_removed@.len() == 1
        &&& report.effective.instances_removed@[0]@ == args.instance_aid@
        &&& match elf {
            Some(aid) => report.effective.elfs_removed@.len() == 1
                && report.effective.elfs_removed@[0]@ == aid,
            None => report.effective.elfs_removed@.len() == 0,
        }
        &&& report.warnings@.len() == 0
    }
}

/// The commands that are sent and what each answer leads to: first the instance
/// is deleted, and only if the card agrees and the identifier is one, the load
/// file.
pub open spec fn applet_deletion(
    args: DeleteAppletArgs<'_>,
    sent: Seq<Seq<u8>>,
    got: Seq<Result<Answer, ScllError>>,
    r: Result<DeleteObjectReport, ScllError>,
) -> bool {
    &&& sent.len() == got.len()
    &&& sent.len() >= 1
    &&& sent[0] == delete_command(args.instance_aid@)
    &&& match got[0] {
        Err(e) => sent.len() == 1 && fails_with(r, e),
        Ok(a) => match instance_verdict(a.sw) {
            Err(e) => sent.len() == 1 && fails_with(r, e),
            Ok(()) => if !aid_shaped(args.instance_aid@) {
                sent.len() == 1 && fails_with(
                    r,
                    ScllError::InvalidAid { len: args.instance_aid@.len() as usize },
                )
            } else {
                match elf_to_delete(args) {
                    None => sent.len() == 1 && applet_deleted(r, args, None),
                    Some(elf) => if object_reference(elf).len() > 255 {
                        sent.len() == 1 && fails_with(r, ScllError::Build(BuildError::Overflow))
                    } else {
                        &&& sent.len() == 2
                        &&& sent[1] == delete_command(elf)
                        &&& match got[1] {
                            Err(e) => fails_with(r, e),
                            Ok(a) => match elf_verdict(a.sw) {
                                Err(e) => fails_with(r, e),
                                Ok(()) => if !aid_shaped(elf) {
                                    fails_with(
                                        r,
                                        ScllError::InvalidAid { len: elf.len() as usize },
                                    )
                                } else {
                                    applet_deleted(r, args, Some(elf))
                                },
                            },
                        }
                    },
                }
            },
        },
    }
}

/// Deletes an applet instance and, on request, its load file.
pub fn delete_applet<T: Transport, B: Scp02Backend + Scp03Backend>(
    t: &mut T,
    backend: &mut B,
    parent_session: &mut ScpSession,
    args: &DeleteAppletArgs<'_>,
) -> (r: Result<DeleteObjectReport, ScllError>)
    ensures
        if object_reference(args.instance_aid@).len() > 255 {
            &&& fails_with(r, ScllError::Build(BuildError::Overflow))
            &&& now(*final(t), *final(backend), *final(parent_session)) == now(
                *old(t),
                *old(backend),
                *old(parent_session),
            )
        } else {
            exists|steps: Seq<Step>| #[trigger]
                performed(
                    now(*old(t), *old(backend), *old(parent_session)),
                    now(*final(t), *final(backend), *final(parent_session)),
                    steps,
                ) && applet_deletion(*args, commands(steps), outcomes(steps), r)
        },
{
    let ghost m0 = now(*t, *backend, *parent_session);
    let capdu: Capdu = match delete_object(args.instance_aid, false) {
        Ok(c) => c,
        Err(e) => return Err(ScllError::Build(e)),
    };
    let answer = transmit_in_session(t, backend, parent_session, capdu_slice(&capdu));
    let ghost m1 = now(*t, *backend, *parent_session);
    let ghost step1 = choose|step: Step|
        performed(m0, m1, seq![step]) && (#[trigger] step_outcome(step)) == answer_view(answer)
            && step.command == delete_command(args.instance_aid@);
    assert(performed(m0, m1, seq![step1]) && step_outcome(step1) == answer_view(answer)
        && step1.command == delete_command(args.instance_aid@));
    assert(commands(seq![step1]) =~= seq![step1.command]);
    assert(outcomes(seq![step1]) =~= seq![step_outcome(step1)]);
    let (_data, sw) = answer?;
    delete_instance_status(sw)?;
    let removed: Aid = Aid::new(args.instance_aid)?;
    let mut instances_removed: Vec<Aid> = Vec::new();
    instances_removed.push(removed);
    let mut elfs_removed: Vec<Aid> = Vec::new();
    let want_cascade: bool = match args.cascade_elf {
        DeleteCascade::Always => true,
        DeleteCascade::IfLastInstance => true,
        _ => false,
    };
    let mut cascade_used: bool = false;
    if want_cascade {
        if let Some(elf) = args.elf_aid {
            let ecapdu: Capdu = match delete_object(elf, false) {
                Ok(c) => c,
                Err(e) => return Err(ScllError::Build(e)),
            };
            let eanswer = transmit_in_session(t, backend, parent_session, capdu_slice(&ecapdu));
            proof {
                let m2 = now(*t, *backend, *parent_session);
                let step2 = choose|step: Step|
                    performed(m1, m2, seq![step]) && (#[trigger] step_outcome(step))
                        == answer_view(eanswer) && step.command == delete_command(elf@);
                assert(performed(m1, m2, seq![step2]));
                lemma_one_more(m0, m1, m2, seq![step1], step2);
            }
            let (_edata, esw) = eanswer?;
            delete_elf_status(esw)?;
            elfs_removed.push(Aid::new(elf)?);
            cascade_used = true;
        }
    }
    let target_aid: Aid = Aid::new(args.instance_aid)?;
    Ok(
        DeleteObjectReport {
            effective: DeleteObjectParams {
                target_aid,
                target_kind: DeleteTargetKind::AppletInstance,
                cascade_requested: args.cascade_elf,
                cascade_used,
                instances_removed,
                elfs_removed,
            },
            warnings: Vec::new(),
        },
    )
}

} // verus!
