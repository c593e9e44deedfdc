//! Commands, octet by octet, as a card reads them.
use vstd::prelude::*;

use crate::command::{lv, short_apdu};
use crate::command::delete::{cascade_p2, key_reference, object_reference};
use crate::command::get_status::status_query;
use crate::command::install::{install_data, install_load_data, privileges_field, PrivLen};
use crate::command::load::load_p1;
use crate::command::put_key::{key_block_octets, key_data, KeyBlockFields};

verus! {

/// A short command: four octets of header; where there are data their length and the
/// data; and where an answer is expected a zero at the end.
pub proof fn law_short_command(cla: u8, ins: u8, p1: u8, p2: u8, data: Seq<u8>, le: bool)
    requires
        data.len() <= 255,
    ensures
        ({
            let s = short_apdu(cla, ins, p1, p2, data, le);
            &&& s[0] == cla
            &&& s[1] == ins
            &&& s[2] == p1
            &&& s[3] == p2
            &&& s.len() == 4 + (if data.len() > 0 {
                1 + data.len() as int
            } else {
                0
            }) + (if le {
                1int
            } else {
                0
            })
            &&& data.len() > 0 ==> s[4] == data.len() && s.subrange(5, 5 + data.len() as int)
                == data
            &&& le ==> s.last() == 0
        }),
{
    let s = short_apdu(cla, ins, p1, p2, data, le);
    if data.len() > 0 {
        assert(s.subrange(5, 5 + data.len() as int) =~= data);
    }
}

/// Commands that differ in header or data are different.
pub proof fn law_short_commands_differ(
    cla: u8,
    ins: u8,
    p1: u8,
    p2: u8,
    data: Seq<u8>,
    cla2: u8,
    ins2: u8,
    p12: u8,
    p22: u8,
    data2: Seq<u8>,
    le: bool,
)
    requires
        data.len() <= 255,
        data2.len() <= 255,
        short_apdu(cla, ins, p1, p2, data, le) == short_apdu(cla2, ins2, p12, p22, data2, le),
    ensures
        cla == cla2,
        ins == ins2,
        p1 == p12,
        p2 == p22,
        data == data2,
{
    law_short_command(cla, ins, p1, p2, data, le);
    law_short_command(cla2, ins2, p12, p22, data2, le);
    if data.len() == 0 {
        assert(data =~= data2);
    }
}

/// Fields with their lengths in front of them, read one after the other; nothing where
/// one is not all there.
pub open spec fn fields_in(s: Seq<u8>, count: nat) -> Option<Seq<Seq<u8>>>
    decreases count,
{
    if count == 0 {
        if s.len() == 0 {
            Some(Seq::empty())
        } else {
            None
        }
    } else if s.len() == 0 || s.len() < 1 + s[0] {
        None
    } else {
        match fields_in(s.skip(1 + s[0] as int), (count - 1) as nat) {
            None => None,
            Some(rest) => Some(seq![s.subrange(1, 1 + s[0] as int)] + rest),
        }
    }
}

/// One field in front of others.
proof fn lemma_field(field: Seq<u8>, rest: Seq<u8>, count: nat, fields: Seq<Seq<u8>>)
    requires
        field.len() <= 255,
        fields_in(rest, count) == Some(fields),
    ensures
        fields_in(lv(field) + rest, count + 1) == Some(seq![field] + fields),
{
    let s = lv(field) + rest;
    assert(s[0] == field.len());
    assert(s.subrange(1, 1 + s[0] as int) =~= field);
    assert(s.skip(1 + s[0] as int) =~= rest);
}

/// The data field of INSTALL [for load]: the package, the security domain, the hash, and
/// two empty fields.
pub proof fn law_install_for_load_data(package_aid: Seq<u8>, sd_aid: Seq<u8>, hash: Seq<u8>)
    requires
        package_aid.len() <= 255,
        sd_aid.len() <= 255,
        hash.len() <= 255,
    ensures
        fields_in(install_load_data(package_aid, sd_aid, hash), 5) == Some(
            seq![package_aid, sd_aid, hash, Seq::empty(), Seq::empty()],
        ),
{
    let nothing = Seq::<u8>::empty();
    let none = Seq::<Seq<u8>>::empty();
    lemma_field(nothing, nothing, 0, none);
    let f1 = lv(nothing) + nothing;
    lemma_field(nothing, f1, 1, seq![nothing] + none);
    let f2 = lv(nothing) + f1;
    lemma_field(hash, f2, 2, seq![nothing] + (seq![nothing] + none));
    let f3 = lv(hash) + f2;
    lemma_field(sd_aid, f3, 3, seq![hash] + (seq![nothing] + (seq![nothing] + none)));
    let f4 = lv(sd_aid) + f3;
    lemma_field(
        package_aid,
        f4,
        4,
        seq![sd_aid] + (seq![hash] + (seq![nothing] + (seq![nothing] + none))),
    );
    assert(install_load_data(package_aid, sd_aid, hash) =~= lv(package_aid) + f4);
    assert(seq![package_aid] + (seq![sd_aid] + (seq![hash] + (seq![nothing] + (seq![nothing]
        + none)))) =~= seq![package_aid, sd_aid, hash, nothing, nothing]);
}

/// The data field of INSTALL [for install and make selectable]: the load file, the
/// module, the instance, the privileges, the parameters, and an empty field.
pub proof fn law_install_data(
    elf_aid: Seq<u8>,
    module_aid: Seq<u8>,
    instance_aid: Seq<u8>,
    privileges: Seq<u8>,
    enc: PrivLen,
    params: Seq<u8>,
)
    requires
        elf_aid.len() <= 255,
        module_aid.len() <= 255,
        instance_aid.len() <= 255,
        privileges.len() == 3,
        params.len() <= 255,
    ensures
        fields_in(
            install_data(elf_aid, module_aid, instance_aid, privileges, enc, params),
            6,
        ) == Some(
            seq![
                elf_aid,
                module_aid,
                instance_aid,
                privileges_field(privileges, enc),
                params,
                Seq::empty(),
            ],
        ),
{
    let nothing = Seq::<u8>::empty();
    let none = Seq::<Seq<u8>>::empty();
    let privs = privileges_field(privileges, enc);
    lemma_field(nothing, nothing, 0, none);
    let f1 = lv(nothing) + nothing;
    let l1 = seq![nothing] + none;
    lemma_field(params, f1, 1, l1);
    let f2 = lv(params) + f1;
    let l2 = seq![params] + l1;
    lemma_field(privs, f2, 2, l2);
    let f3 = lv(privs) + f2;
    let l3 = seq![privs] + l2;
    lemma_field(instance_aid, f3, 3, l3);
    let f4 = lv(instance_aid) + f3;
    let l4 = seq![instance_aid] + l3;
    lemma_field(module_aid, f4, 4, l4);
    let f5 = lv(module_aid) + f4;
    let l5 = seq![module_aid] + l4;
    lemma_field(elf_aid, f5, 5, l5);
    assert(install_data(elf_aid, module_aid, instance_aid, privileges, enc, params) =~= lv(elf_aid)
        + f5);
    assert(seq![elf_aid] + l5 =~= seq![elf_aid, module_aid, instance_aid, privs, params, nothing]);
}

/// The privileges field has three octets, but one where the second and the third are
/// zero and the card wants it so. No privilege is lost: with zeros behind it the field is
/// the privileges.
pub proof fn law_privileges_field(privileges: Seq<u8>, enc: PrivLen)
    requires
        privileges.len() == 3,
    ensures
        ({
            let f = privileges_field(privileges, enc);
            let short = enc is Jcop1Byte && privileges[1] == 0 && privileges[2] == 0;
            &&& f.len() == (if short {
                1int
            } else {
                3
            })
            &&& forall|i: int|
                0 <= i < 3 ==> #[trigger] privileges[i] == (if i < f.len() {
                    f[i]
                } else {
                    0
                })
        }),
{
}

/// The data field of a deletion: `4F`, the length of the identifier, and the identifier.
/// What depends on the object goes too where P2 is `80`.
pub proof fn law_deletion_data(aid: Seq<u8>, cascade: bool)
    requires
        aid.len() <= 255,
    ensures
        object_reference(aid)[0] == 0x4F,
        fields_in(object_reference(aid).skip(1), 1) == Some(seq![aid]),
        cascade ==> cascade_p2(cascade) == 0x80,
        !cascade ==> cascade_p2(cascade) == 0x00,
{
    lemma_field(aid, Seq::empty(), 0, Seq::empty());
    assert(object_reference(aid).skip(1) =~= lv(aid) + Seq::<u8>::empty());
    assert(seq![aid] + Seq::<Seq<u8>>::empty() =~= seq![aid]);
}

/// The data field of a query: `4F`, the length of the identifier, and the identifier.
pub proof fn law_query_data(aid: Seq<u8>)
    requires
        aid.len() <= 255,
    ensures
        status_query(aid)[0] == 0x4F,
        fields_in(status_query(aid).skip(1), 1) == Some(seq![aid]),
{
    lemma_field(aid, Seq::empty(), 0, Seq::empty());
    assert(status_query(aid).skip(1) =~= lv(aid) + Seq::<u8>::empty());
    assert(seq![aid] + Seq::<Seq<u8>>::empty() =~= seq![aid]);
}

/// The data field of a key deletion: `D0 01` and the identifier where it is given, and
/// `D2 01` and the version where it is given, in this order.
pub proof fn law_key_deletion_data(kid: Option<u8>, kvn: Option<u8>)
    ensures
        ({
            let s = key_reference(kid, kvn);
            let at = if kid is Some {
                3int
            } else {
                0
            };
            &&& s.len() == at + (if kvn is Some {
                3int
            } else {
                0
            })
            &&& kid matches Some(k) ==> s[0] == 0xD0 && s[1] == 1 && s[2] == k
            &&& kvn matches Some(v) ==> s[at] == 0xD2 && s[at + 1] == 1 && s[at + 2] == v
        }),
{
}

/// P1 of LOAD marks the last block with `80`, and no other.
pub proof fn law_load_marks_the_last(last: bool)
    ensures
        last ==> load_p1(last) == 0x80,
        !last ==> load_p1(last) == 0x00,
{
}

/// A key block: its type; for an AES key (`88`) the length of the encrypted key and one
/// more, and the length of the clear key; for any other the length of the encrypted key;
/// then the encrypted key, the length of the check value, and the check value.
pub proof fn law_key_block(b: KeyBlockFields)
    requires
        b.encrypted_key.len() <= 254,
        b.kcv.len() == 3,
    ensures
        ({
            let s = key_block_octets(b);
            let n = b.encrypted_key.len() as int;
            let at = if b.key_type == 0x88 {
                3int
            } else {
                2
            };
            &&& s.len() == at + n + 4
            &&& s[0] == b.key_type
            &&& b.key_type == 0x88 ==> s[1] == n + 1 && s[2] == b.clear_key_len
            &&& b.key_type != 0x88 ==> s[1] == n
            &&& s.subrange(at, at + n) == b.encrypted_key
            &&& s[at + n] == 3
            &&& s.skip(at + n + 1) == b.kcv
        }),
{
    let s = key_block_octets(b);
    let n = b.encrypted_key.len() as int;
    let at = if b.key_type == 0x88 {
        3int
    } else {
        2
    };
    assert(s.subrange(at, at + n) =~= b.encrypted_key);
    assert(s.skip(at + n + 1) =~= b.kcv);
}

/// The data field of PUT KEY: the new version, and the three blocks in the order in which
/// a card numbers their keys from one on.
pub proof fn law_put_key_data(
    new_kvn: u8,
    first: KeyBlockFields,
    second: KeyBlockFields,
    third: KeyBlockFields,
)
    ensures
        ({
            let s = key_data(new_kvn, first, second, third);
            let a = 1 + key_block_octets(first).len() as int;
            let b = a + key_block_octets(second).len();
            &&& s[0] == new_kvn
            &&& s.subrange(1, a) == key_block_octets(first)
            &&& s.subrange(a, b) == key_block_octets(second)
            &&& s.skip(b) == key_block_octets(third)
        }),
{
    let s = key_data(new_kvn, first, second, third);
    let a = 1 + key_block_octets(first).len() as int;
    let b = a + key_block_octets(second).len();
    assert(s.subrange(1, a) =~= key_block_octets(first));
    assert(s.subrange(a, b) =~= key_block_octets(second));
    assert(s.skip(b) =~= key_block_octets(third));
}

} // verus!
