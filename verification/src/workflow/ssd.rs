//! Supplementary security domains and packages.
use vstd::prelude::*;

use crate::aid::{aid_shaped, Aid};
use crate::backend::{Scp02Backend, Scp03Backend};
use crate::buffers::{capdu_slice, Capdu};
use crate::command::delete::{cascade_p2, delete_object, object_reference};
use crate::command::install::{install_data, install_for_install_make_selectable, PrivLen};
use crate::command::{short_apdu, BuildError};
use crate::error::{general_sw, ScllError};
use crate::limits::INSTALL_PARAMS_MAX;
use crate::report::{
    CreateSsdParams, CreateSsdReport, DeleteCascade, DeleteObjectParams, DeleteObjectReport,
    DeleteTargetKind,
};
use crate::scp::ScpSession;
use crate::transport::Transport;
use crate::workflow::session::{
    answer_view, exchanged, fails_with, now, transmit_in_session, Answer, SW_CONDITIONS, SW_OK,
    SW_REF_NOT_FOUND, SW_WRONG_DATA,
};

verus! {

/// Privileges that a security domain created here must not have: DAP
/// verification, delegated management and mandated DAP verification.
const PRIV_REFUSED_MASK: u8 = 0x61;

/// What to create.
pub struct CreateSsdArgs<'a> {
    pub parent_sd_aid: &'a [u8],
    pub ssd_aid: &'a [u8],
    pub elf_aid: &'a [u8],
    pub module_aid: &'a [u8],
    pub privileges: [u8; 3],
    /// The complete parameter field, with its `C9` object.
    pub install_params: &'a [u8],
}

/// The error of the first byte string that is no identifier.
pub open spec fn first_bad_aid(aids: Seq<Seq<u8>>) -> Option<ScllError>
    decreases aids.len(),
{
    if aids.len() == 0 {
        None
    } else if !aid_shaped(aids[0]) {
        Some(ScllError::InvalidAid { len: aids[0].len() as usize })
    } else {
        first_bad_aid(aids.skip(1))
    }
}

/// A copy of `src`, which must not be longer than `max`.
pub(crate) fn copy_bounded(src: &[u8], max: usize) -> (r: Result<Vec<u8>, ScllError>)
    ensures
        match r {
            Ok(v) => src@.len() <= max && v@ == src@,
            Err(e) => src@.len() > max && e == ScllError::Build(BuildError::Overflow),
        },
{
    if src.len() > max {
        return Err(ScllError::Build(BuildError::Overflow));
    }
    Ok(vstd::slice::slice_to_vec(src))
}

/// The data field of the INSTALL command that creates a security domain.
pub open spec fn create_data(args: CreateSsdArgs<'_>, priv_len: PrivLen) -> Seq<u8> {
    install_data(
        args.elf_aid@,
        args.module_aid@,
        args.ssd_aid@,
        args.privileges@,
        priv_len,
        args.install_params@,
    )
}

/// What a status word of INSTALL means for a security domain.
pub open spec fn create_verdict(sw: u16) -> Result<(), ScllError> {
    if sw == SW_OK {
        Ok(())
    } else if sw == SW_REF_NOT_FOUND {
        Err(ScllError::ResidentSdNotFound)
    } else if sw == SW_WRONG_DATA {
        Err(ScllError::AidAlreadyExists)
    } else {
        Err(general_sw(sw))
    }
}

/// Reads the status word of INSTALL for a security domain.
pub fn create_ssd_status(sw: u16) -> (r: Result<(), ScllError>)
    ensures
        r == create_verdict(sw),
{
    match sw {
        SW_OK => Ok(()),
        SW_REF_NOT_FOUND => Err(ScllError::ResidentSdNotFound),
        SW_WRONG_DATA => Err(ScllError::AidAlreadyExists),
        other => Err(ScllError::from_general_sw(other)),
    }
}

/// What is reported, given the card's answer. The identifiers are looked at only
/// after the card has agreed.
pub open spec fn create_reported(
    r: Result<CreateSsdReport, ScllError>,
    args: CreateSsdArgs<'_>,
    answer: Result<Answer, ScllError>,
) -> bool {
    match answer {
        Err(e) => fails_with(r, e),
        Ok(a) => match create_verdict(a.sw) {
            Err(e) => fails_with(r, e),
            Ok(()) => match first_bad_aid(
                seq![args.ssd_aid@, args.parent_sd_aid@, args.elf_aid@, args.module_aid@],
            ) {
                Some(e) => fails_with(r, e),
                None => r matches Ok(report) && {
                    &&& report.effective.ssd_aid_effective@ == args.ssd_aid@
                    &&& !report.effective.aid_was_generated
                    &&& report.effective.parent_sd_aid@ == args.parent_sd_aid@
                    &&& report.effective.privileges_used == args.privileges
                    &&& report.effective.elf_aid_used@ == args.elf_aid@
                    &&& report.effective.module_aid_used@ == args.module_aid@
                    &&& report.effective.install_params_used@ == args.install_params@
                    &&& report.warnings@.len() == 0
                },
            },
        },
    }
}

/// Creates a supplementary security domain. A refused privilege and a command
/// that does not fit are found before anything is sent.
pub fn create_ssd<T: Transport, B: Scp02Backend + Scp03Backend>(
    t: &mut T,
    backend: &mut B,
    parent_session: &mut ScpSession,
    args: &CreateSsdArgs<'_>,
    priv_len: PrivLen,
) -> (r: Result<CreateSsdReport, ScllError>)
    ensures
        if args.privileges[0] & 0x61 != 0 {
            &&& fails_with(r, ScllError::UnsupportedPrivilege)
            &&& now(*final(t), *final(backend), *final(parent_session)) == now(
                *old(t),
                *old(backend),
                *old(parent_session),
            )
        } else if create_data(*args, priv_len).len() > 255 {
            &&& fails_with(r, ScllError::Build(BuildError::Overflow))
            &&& now(*final(t), *final(backend), *final(parent_session)) == now(
                *old(t),
                *old(backend),
                *old(parent_session),
            )
        } else {
            exists|answer: Result<Answer, ScllError>| #[trigger]
                exchanged(
                    now(*old(t), *old(backend), *old(parent_session)),
                    now(*final(t), *final(backend), *final(parent_session)),
                    short_apdu(0x84, 0xE6, 0x0C, 0x00, create_data(*args, priv_len), true),
                    answer,
                ) && create_reported(r, *args, answer)
        },
{
    if args.privileges[0] & PRIV_REFUSED_MASK != 0 {
        return Err(ScllError::UnsupportedPrivilege);
    }
    let capdu: Capdu = match install_for_install_make_selectable(
        args.elf_aid,
        args.module_aid,
        args.ssd_aid,
        args.privileges,
        priv_len,
        args.install_params,
    ) {
        Ok(c) => c,
        Err(e) => return Err(ScllError::Build(e)),
    };
    let answer = transmit_in_session(t, backend, parent_session, capdu_slice(&capdu));
    assert(exchanged(
        now(*old(t), *old(backend), *old(parent_session)),
        now(*t, *backend, *parent_session),
        short_apdu(0x84, 0xE6, 0x0C, 0x00, create_data(*args, priv_len), true),
        answer_view(answer),
    ));
    let (_data, sw) = answer?;
    create_ssd_status(sw)?;
    proof {
        let aids = seq![args.ssd_aid@, args.parent_sd_aid@, args.elf_aid@, args.module_aid@];
        reveal_with_fuel(first_bad_aid, 5);
        assert(aids.skip(1)[0] == args.parent_sd_aid@);
        assert(aids.skip(1).skip(1)[0] == args.elf_aid@);
        assert(aids.skip(1).skip(1).skip(1)[0] == args.module_aid@);
        assert(aids.skip(1).skip(1).skip(1).skip(1).len() == 0);
    }
    let ssd_aid_effective: Aid = Aid::new(args.ssd_aid)?;
    let parent_sd_aid: Aid = Aid::new(args.parent_sd_aid)?;
    let elf_aid_used: Aid = Aid::new(args.elf_aid)?;
    let module_aid_used: Aid = Aid::new(args.module_aid)?;
    let install_params_used: Vec<u8> = copy_bounded(args.install_params, INSTALL_PARAMS_MAX)?;
    Ok(
        CreateSsdReport {
            effective: CreateSsdParams {
                ssd_aid_effective,
                aid_was_generated: false,
                parent_sd_aid,
                privileges_used: args.privileges,
                elf_aid_used,
                module_aid_used,
                install_params_used,
            },
            warnings: Vec::new(),
        },
    )
}

/// Whether a deletion takes what depends on the security domain with it.
pub open spec fn cascades(cascade: DeleteCascade) -> bool {
    cascade is Cascade || cascade is Always
}

/// What a status word of DELETE means for a security domain: `6985` says that it
/// is not empty, but only where nothing else was to be deleted.
pub open spec fn delete_verdict(sw: u16, cascade: bool) -> Result<(), ScllError> {
    if sw == SW_OK {
        Ok(())
    } else if sw == SW_REF_NOT_FOUND {
        Err(ScllError::TargetNoLongerExists)
    } else if sw == SW_CONDITIONS && !cascade {
        Err(ScllError::SsdHasApplets)
    } else {
        Err(general_sw(sw))
    }
}

/// Reads the status word of DELETE for a security domain.
pub fn delete_ssd_status(sw: u16, cascade: bool) -> (r: Result<(), ScllError>)
    ensures
        r == delete_verdict(sw, cascade),
{
    match sw {
        SW_OK => Ok(()),
        SW_REF_NOT_FOUND => Err(ScllError::TargetNoLongerExists),
        other => {
            if other == SW_CONDITIONS && !cascade {
                Err(ScllError::SsdHasApplets)
            } else {
                Err(ScllError::from_general_sw(other))
            }
        },
    }
}

/// What is reported, given the card's answer.
pub open spec fn delete_reported(
    r: Result<DeleteObjectReport, ScllError>,
    ssd_aid: Seq<u8>,
    cascade: DeleteCascade,
    answer: Result<Answer, ScllError>,
) -> bool {
    match answer {
        Err(e) => fails_with(r, e),
        Ok(a) => match delete_verdict(a.sw, cascades(cascade)) {
            Err(e) => fails_with(r, e),
            Ok(()) => if !aid_shaped(ssd_aid) {
                fails_with(r, ScllError::InvalidAid { len: ssd_aid.len() as usize })
            } else {
                r matches Ok(report) && {
                    &&& report.effective.target_aid@ == ssd_aid
                    &&& report.effective.target_kind is Ssd
                    &&& report.effective.cascade_requested == cascade
                    &&& report.effective.cascade_used == cascades(cascade)
                    &&& report.effective.instances_removed@.len() == 0
                    &&& report.effective.elfs_removed@.len() == 0
                    &&& report.warnings@.len() == 0
                }
            },
        },
    }
}

/// Deletes a security domain, with what depends on it where `cascade` says so.
pub fn delete_ssd<T: Transport, B: Scp02Backend + Scp03Backend>(
    t: &mut T,
    backend: &mut B,
    parent_session: &mut ScpSession,
    ssd_aid: &[u8],
    cascade: DeleteCascade,
) -> (r: Result<DeleteObjectReport, ScllError>)
    ensures
        if object_reference(ssd_aid@).len() > 255 {
            &&& fails_with(r, ScllError::Build(BuildError::Overflow))
            &&& now(*final(t), *final(backend), *final(parent_session)) == now(
                *old(t),
                *old(backend),
                *old(parent_session),
            )
        } else {
            exists|answer: Result<Answer, ScllError>| #[trigger]
                exchanged(
                    now(*old(t), *old(backend), *old(parent_session)),
                    now(*final(t), *final(backend), *final(parent_session)),
                    short_apdu(
                        0x84,
                        0xE4,
                        0x00,
                        cascade_p2(cascades(cascade)),
                        object_reference(ssd_aid@),
                        true,
                    ),
                    answer,
                ) && delete_reported(r, ssd_aid@, cascade, answer)
        },
{
    let cascade_flag: bool = match cascade {
        DeleteCascade::Cascade => true,
        DeleteCascade::Always => true,
        _ => false,
    };
    let capdu: Capdu = match delete_object(ssd_aid, cascade_flag) {
        Ok(c) => c,
        Err(e) => return Err(ScllError::Build(e)),
    };
    let answer = transmit_in_session(t, backend, parent_session, capdu_slice(&capdu));
    assert(exchanged(
        now(*old(t), *old(backend), *old(parent_session)),
        now(*t, *backend, *parent_session),
        short_apdu(
            0x84,
            0xE4,
            0x00,
            cascade_p2(cascades(cascade)),
            object_reference(ssd_aid@),
            true,
        ),
        answer_view(answer),
    ));
    let (_data, sw) = answer?;
    delete_ssd_status(sw, cascade_flag)?;
    let target_aid: Aid = Aid::new(ssd_aid)?;
    Ok(
        DeleteObjectReport {
            effective: DeleteObjectParams {
                target_aid,
                target_kind: DeleteTargetKind::Ssd,
                cascade_requested: cascade,
                cascade_used: cascade_flag,
                instances_removed: Vec::new(),
                elfs_removed: Vec::new(),
            },
            warnings: Vec::new(),
        },
    )
}

} // verus!
