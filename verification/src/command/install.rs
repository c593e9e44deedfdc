//! INSTALL (GPCS v2.3.1 §11.5).
use vstd::prelude::*;

use crate::buffers::{capdu_bytes, capdu_new};
use crate::command::{build_from, built, lv, push_lv, BuildError, Capdu};
use crate::limits::CAPDU_MAX;
use crate::util::text::Logged;

verus! {

/// How long the privileges field is where one byte would do (GPCS v2.3.1
/// §11.1.2).
#[derive(Clone, Copy, Default, Debug, PartialEq, Eq, Structural)]
pub enum PrivLen {
    /// Always three bytes.
    #[default]
    Canonical,
    /// One byte where bytes two and three are zero, as NXP JCOP 4 demands.
    Jcop1Byte,
}

impl Logged for PrivLen {
    open spec fn text(&self) -> Seq<char> {
        match self {
            PrivLen::Canonical => "Canonical"@,
            PrivLen::Jcop1Byte => "Jcop1Byte"@,
        }
    }

    fn to_text(&self) -> (r: String) {
        match self {
            PrivLen::Canonical => "Canonical".to_owned(),
            PrivLen::Jcop1Byte => "Jcop1Byte".to_owned(),
        }
    }
}

/// The privileges field: an extended privilege always takes three bytes.
pub open spec fn privileges_field(privileges: Seq<u8>, enc: PrivLen) -> Seq<u8> {
    if privileges[1] == 0 && privileges[2] == 0 && enc == PrivLen::Jcop1Byte {
        privileges.take(1)
    } else {
        privileges
    }
}

/// The data field of INSTALL [for load]; parameters and token are empty.
pub open spec fn install_load_data(
    package_aid: Seq<u8>,
    target_sd_aid: Seq<u8>,
    lfdb_hash: Seq<u8>,
) -> Seq<u8> {
    lv(package_aid) + lv(target_sd_aid) + lv(lfdb_hash) + seq![0u8, 0u8]
}

/// The data field of INSTALL [for install and make selectable]; the token is
/// empty.
pub open spec fn install_data(
    elf_aid: Seq<u8>,
    module_aid: Seq<u8>,
    instance_aid: Seq<u8>,
    privileges: Seq<u8>,
    priv_len: PrivLen,
    install_params: Seq<u8>,
) -> Seq<u8> {
    lv(elf_aid) + lv(module_aid) + lv(instance_aid) + lv(privileges_field(privileges, priv_len))
        + lv(install_params) + seq![0u8]
}

/// Appends the privileges field.
fn push_privileges(data: &mut Capdu, privileges: [u8; 3], enc: PrivLen) -> (r: Result<
    (),
    BuildError,
>)
    ensures
        r is Ok <==> capdu_bytes(*old(data)).len() + lv(privileges_field(privileges@, enc)).len()
            <= CAPDU_MAX,
        r is Ok ==> capdu_bytes(*final(data)) == capdu_bytes(*old(data)) + lv(
            privileges_field(privileges@, enc),
        ),
        r matches Err(e) ==> e == BuildError::Overflow,
{
    let extended: bool = privileges[1] != 0 || privileges[2] != 0;
    if !extended && enc == PrivLen::Jcop1Byte {
        let first: [u8; 1] = [privileges[0]];
        assert(first@ =~= privileges@.take(1));
        push_lv(data, &first)
    } else {
        push_lv(data, &privileges)
    }
}

/// INSTALL [for load] of a package into a security domain.
pub fn install_for_load(package_aid: &[u8], target_sd_aid: &[u8], lfdb_hash: &[u8]) -> (r: Result<
    Capdu,
    BuildError,
>)
    ensures
        built(
            r,
            0x84,
            0xE6,
            0x02,
            0x00,
            install_load_data(package_aid@, target_sd_aid@, lfdb_hash@),
            true,
        ),
{
    let none: [u8; 0] = [];
    let mut data: Capdu = capdu_new();
    push_lv(&mut data, package_aid)?;
    push_lv(&mut data, target_sd_aid)?;
    push_lv(&mut data, lfdb_hash)?;
    push_lv(&mut data, &none)?;
    push_lv(&mut data, &none)?;
    assert(capdu_bytes(data) =~= install_load_data(package_aid@, target_sd_aid@, lfdb_hash@));
    build_from(0x84, 0xE6, 0x02, 0x00, &data, true)
}

/// INSTALL [for install and make selectable]. `install_params` is the complete
/// parameter field, with its `C9` object.
pub fn install_for_install_make_selectable(
    elf_aid: &[u8],
    module_aid: &[u8],
    instance_aid: &[u8],
    privileges: [u8; 3],
    priv_len: PrivLen,
    install_params: &[u8],
) -> (r: Result<Capdu, BuildError>)
    ensures
        built(
            r,
            0x84,
            0xE6,
            0x0C,
            0x00,
            install_data(
                elf_aid@,
                module_aid@,
                instance_aid@,
                privileges@,
                priv_len,
                install_params@,
            ),
            true,
        ),
{
    let none: [u8; 0] = [];
    let mut data: Capdu = capdu_new();
    push_lv(&mut data, elf_aid)?;
    push_lv(&mut data, module_aid)?;
    push_lv(&mut data, instance_aid)?;
    push_privileges(&mut data, privileges, priv_len)?;
    push_lv(&mut data, install_params)?;
    push_lv(&mut data, &none)?;
    assert(capdu_bytes(data) =~= install_data(
        elf_aid@,
        module_aid@,
        instance_aid@,
        privileges@,
        priv_len,
        install_params@,
    ));
    build_from(0x84, 0xE6, 0x0C, 0x00, &data, true)
}

} // verus!
