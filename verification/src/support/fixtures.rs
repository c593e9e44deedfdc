//! Answers of a card.
use vstd::prelude::*;
use vstd::slice::slice_to_vec;

verus! {

/// The two bytes of a status word.
pub open spec fn sw_bytes(sw: u16) -> Seq<u8> {
    seq![(sw / 256) as u8, (sw % 256) as u8]
}

/// Appends a status word.
pub fn rapdu(data: &[u8], sw: u16) -> (r: Vec<u8>)
    ensures
        r@ == data@ + sw_bytes(sw),
{
    let mut v: Vec<u8> = slice_to_vec(data);
    v.push((sw / 256) as u8);
    v.push((sw % 256) as u8);
    assert(v@ =~= data@ + sw_bytes(sw));
    v
}

/// An answer that is only a status word.
pub fn sw(word: u16) -> (r: Vec<u8>)
    ensures
        r@ == sw_bytes(word),
{
    let v: Vec<u8> = vec![(word / 256) as u8, (word % 256) as u8];
    assert(v@ =~= sw_bytes(word));
    v
}

/// One object with a short tag and a length of one byte.
pub open spec fn short_object(tag: u8, value: Seq<u8>) -> Seq<u8> {
    seq![tag, value.len() as u8] + value
}

/// An FCI template that names an application.
pub fn fci_with_aid(aid: &[u8]) -> (r: Vec<u8>)
    requires
        aid@.len() <= 253,
    ensures
        r@ == short_object(0x6F, short_object(0x84, aid@)),
{
    let la: u8 = aid.len() as u8;
    let mut v: Vec<u8> = vec![0x6F, la + 2, 0x84, la];
    v.extend_from_slice(aid);
    assert(v@ =~= short_object(0x6F, short_object(0x84, aid@)));
    v
}

/// Card Recognition Data with one secure channel variant.
pub open spec fn recognition_data(scp: u8, i_param: u8) -> Seq<u8> {
    short_object(
        0x66,
        short_object(
            0x73,
            short_object(
                0x64,
                short_object(
                    0x06,
                    seq![0x2Au8, 0x86, 0x48, 0x86, 0xFC, 0x6B, scp, i_param],
                ),
            ),
        ),
    )
}

/// Card Recognition Data of a card with SCP03.
pub fn crd_scp03(i_param: u8) -> (r: Vec<u8>)
    ensures
        r@ == recognition_data(0x03, i_param),
{
    let v: Vec<u8> = vec![
        0x66, 0x0E, 0x73, 0x0C, 0x64, 0x0A, 0x06, 0x08, 0x2A, 0x86, 0x48, 0x86, 0xFC, 0x6B, 0x03,
        i_param,
    ];
    assert(v@ =~= recognition_data(0x03, i_param));
    v
}

/// Card Recognition Data of a card with SCP02.
pub fn crd_scp02(i_param: u8) -> (r: Vec<u8>)
    ensures
        r@ == recognition_data(0x02, i_param),
{
    let v: Vec<u8> = vec![
        0x66, 0x0E, 0x73, 0x0C, 0x64, 0x0A, 0x06, 0x08, 0x2A, 0x86, 0x48, 0x86, 0xFC, 0x6B, 0x02,
        i_param,
    ];
    assert(v@ =~= recognition_data(0x02, i_param));
    v
}

/// The entry of an AES key of 16 bytes: identifier, version, type and length.
pub open spec fn aes_key_entry(kid: u8, kvn: u8) -> Seq<u8> {
    short_object(0xC0, seq![kid, kvn, 0x88, 0x10])
}

/// A Key Information Template with three AES keys of version 1.
pub fn kit_aes_kvn1() -> (r: Vec<u8>)
    ensures
        r@ == short_object(
            0xE0,
            aes_key_entry(1, 1) + aes_key_entry(2, 1) + aes_key_entry(3, 1),
        ),
{
    let v: Vec<u8> = vec![
        0xE0, 0x12, 0xC0, 0x04, 0x01, 0x01, 0x88, 0x10, 0xC0, 0x04, 0x02, 0x01, 0x88, 0x10, 0xC0,
        0x04, 0x03, 0x01, 0x88, 0x10,
    ];
    assert(v@ =~= short_object(
        0xE0,
        aes_key_entry(1, 1) + aes_key_entry(2, 1) + aes_key_entry(3, 1),
    ));
    v
}

/// Card Capability Information: four logical channels, and the privileges of a
/// security domain.
pub fn cci_basic() -> (r: Vec<u8>)
    ensures
        r@ == short_object(
            0x67,
            short_object(0xA0, seq![4u8]) + short_object(0xA3, seq![0x80u8, 0, 0]),
        ),
{
    let v: Vec<u8> = vec![0x67, 0x08, 0xA0, 0x01, 0x04, 0xA3, 0x03, 0x80, 0x00, 0x00];
    assert(v@ =~= short_object(
        0x67,
        short_object(0xA0, seq![4u8]) + short_object(0xA3, seq![0x80u8, 0, 0]),
    ));
    v
}

/// Ten bytes of key diversification data.
pub open spec fn no_diversification() -> Seq<u8> {
    Seq::new(10, |i: int| 0u8)
}

/// The answer of a card with SCP03 to INITIALIZE UPDATE; a sequence counter
/// follows where the card challenge is pseudo-random.
pub fn iu_scp03(kvn: u8, i_param: u8, challenge: [u8; 8], cryptogram: [u8; 8]) -> (r: Vec<u8>)
    ensures
        r@ == no_diversification() + seq![kvn, 0x03, i_param] + challenge@ + cryptogram@ + (if i_param
            & 0x10 != 0 {
            seq![0u8, 0, 1]
        } else {
            Seq::empty()
        }),
{
    let mut b: Vec<u8> = vec![0, 0, 0, 0, 0, 0, 0, 0, 0, 0, kvn, 0x03, i_param];
    assert(b@ =~= no_diversification() + seq![kvn, 0x03, i_param]);
    b.extend_from_slice(&challenge);
    b.extend_from_slice(&cryptogram);
    if i_param & 0x10 != 0 {
        let counter: [u8; 3] = [0, 0, 1];
        assert(counter@ =~= seq![0u8, 0, 1]);
        b.extend_from_slice(&counter);
    } else {
        assert(b@ + Seq::<u8>::empty() =~= b@);
    }
    b
}

/// The answer of a card with SCP02 to INITIALIZE UPDATE.
pub fn iu_scp02(kvn: u8, counter: [u8; 2], challenge: [u8; 6], cryptogram: [u8; 8]) -> (r: Vec<u8>)
    ensures
        r@ == no_diversification() + seq![kvn, 0x02] + counter@ + challenge@ + cryptogram@,
{
    let mut b: Vec<u8> = vec![0, 0, 0, 0, 0, 0, 0, 0, 0, 0, kvn, 0x02];
    assert(b@ =~= no_diversification() + seq![kvn, 0x02]);
    b.extend_from_slice(&counter);
    b.extend_from_slice(&challenge);
    b.extend_from_slice(&cryptogram);
    b
}

/// A life cycle object.
pub open spec fn life_cycle_object(life_cycle: u8) -> Seq<u8> {
    seq![0x9Fu8, 0x70, 0x01, life_cycle]
}

/// A registry entry with a life cycle byte.
pub fn status_e3(life_cycle: u8) -> (r: Vec<u8>)
    ensures
        r@ == short_object(
            0xE3,
            short_object(0x4F, seq![0xA0u8, 0, 0, 0, 0x03, 0, 0]) + life_cycle_object(life_cycle),
        ),
{
    let v: Vec<u8> = vec![
        0xE3, 0x0D, 0x4F, 0x07, 0xA0, 0x00, 0x00, 0x00, 0x03, 0x00, 0x00, 0x9F, 0x70, 0x01,
        life_cycle,
    ];
    assert(v@ =~= short_object(
        0xE3,
        short_object(0x4F, seq![0xA0u8, 0, 0, 0, 0x03, 0, 0]) + life_cycle_object(life_cycle),
    ));
    v
}

/// The answer to PUT KEY: the version and three check values.
pub fn put_key_echo(new_kvn: u8, kcv: [u8; 3]) -> (r: Vec<u8>)
    ensures
        r@ == seq![new_kvn] + kcv@ + kcv@ + kcv@,
{
    let mut v: Vec<u8> = vec![new_kvn];
    assert(v@ =~= seq![new_kvn]);
    v.extend_from_slice(&kcv);
    v.extend_from_slice(&kcv);
    v.extend_from_slice(&kcv);
    v
}

/// A registry entry of up to 255 bytes.
pub open spec fn registry_entry(body: Seq<u8>) -> Seq<u8> {
    (if body.len() < 0x80 {
        seq![0xE3u8, body.len() as u8]
    } else {
        seq![0xE3u8, 0x81u8, body.len() as u8]
    }) + body
}

fn wrap_e3(inner: &[u8]) -> (r: Vec<u8>)
    requires
        inner@.len() <= 255,
    ensures
        r@ == registry_entry(inner@),
{
    let mut v: Vec<u8> = vec![0xE3];
    if inner.len() < 0x80 {
        v.push(inner.len() as u8);
    } else {
        v.push(0x81);
        v.push(inner.len() as u8);
    }
    v.extend_from_slice(inner);
    assert(v@ =~= registry_entry(inner@));
    v
}

/// Appends one object.
fn push_object(v: &mut Vec<u8>, tag: u8, value: &[u8])
    requires
        value@.len() <= 255,
    ensures
        final(v)@ == old(v)@ + short_object(tag, value@),
{
    v.push(tag);
    v.push(value.len() as u8);
    v.extend_from_slice(value);
    assert(v@ =~= old(v)@ + short_object(tag, value@));
}

/// Appends a life cycle object.
fn push_life_cycle(v: &mut Vec<u8>, life_cycle: u8)
    ensures
        final(v)@ == old(v)@ + life_cycle_object(life_cycle),
{
    v.push(0x9F);
    v.push(0x70);
    v.push(0x01);
    v.push(life_cycle);
    assert(v@ =~= old(v)@ + life_cycle_object(life_cycle));
}

/// The body of the entry of an application or a security domain.
pub open spec fn app_body(aid: Seq<u8>, life_cycle: u8, privs: Seq<u8>) -> Seq<u8> {
    short_object(0x4F, aid) + life_cycle_object(life_cycle) + short_object(0xC5, privs)
}

/// A registry entry of an application or a security domain.
pub fn status_e3_app(aid: &[u8], life_cycle: u8, privs: &[u8]) -> (r: Vec<u8>)
    requires
        app_body(aid@, life_cycle, privs@).len() <= 255,
    ensures
        r@ == registry_entry(app_body(aid@, life_cycle, privs@)),
{
    let mut inner: Vec<u8> = Vec::new();
    push_object(&mut inner, 0x4F, aid);
    push_life_cycle(&mut inner, life_cycle);
    push_object(&mut inner, 0xC5, privs);
    assert(inner@ =~= app_body(aid@, life_cycle, privs@));
    wrap_e3(inner.as_slice())
}

/// The objects of several modules.
pub open spec fn module_objects(modules: Seq<&[u8]>) -> Seq<u8>
    decreases modules.len(),
{
    if modules.len() == 0 {
        Seq::empty()
    } else {
        module_objects(modules.drop_last()) + short_object(0x84, modules.last()@)
    }
}

/// The body of the entry of a load file.
pub open spec fn elf_body(
    elf: Seq<u8>,
    life_cycle: u8,
    assoc_sd: Seq<u8>,
    modules: Seq<&[u8]>,
) -> Seq<u8> {
    short_object(0x4F, elf) + life_cycle_object(life_cycle) + (if assoc_sd.len() > 0 {
        short_object(0xCC, assoc_sd)
    } else {
        Seq::empty()
    }) + module_objects(modules)
}

/// The objects of the first modules are no longer than those of all.
proof fn lemma_module_objects(modules: Seq<&[u8]>, k: int)
    requires
        0 <= k <= modules.len(),
    ensures
        module_objects(modules.take(k)).len() <= module_objects(modules).len(),
        k < modules.len() ==> modules[k]@.len() <= module_objects(modules).len(),
    decreases modules.len() - k,
{
    if k < modules.len() {
        lemma_module_objects(modules, k + 1);
        assert(modules.take(k + 1).drop_last() =~= modules.take(k));
    } else {
        assert(modules.take(k) =~= modules);
    }
}

/// A registry entry of a load file and its modules. Without an associated
/// security domain its object is left out.
pub fn status_e3_elf(elf: &[u8], life_cycle: u8, assoc_sd: &[u8], modules: &[&[u8]]) -> (r: Vec<u8>)
    requires
        elf_body(elf@, life_cycle, assoc_sd@, modules@).len() <= 255,
    ensures
        r@ == registry_entry(elf_body(elf@, life_cycle, assoc_sd@, modules@)),
{
    let mut inner: Vec<u8> = Vec::new();
    push_object(&mut inner, 0x4F, elf);
    push_life_cycle(&mut inner, life_cycle);
    if assoc_sd.len() > 0 {
        push_object(&mut inner, 0xCC, assoc_sd);
    }
    let ghost head = inner@;
    let mut i: usize = 0;
    assert(modules@.take(0) =~= Seq::empty());
    while i < modules.len()
        invariant
            i <= modules.len(),
            module_objects(modules@).len() <= 255,
            inner@ =~= head + module_objects(modules@.take(i as int)),
        decreases modules.len() - i,
    {
        proof {
            lemma_module_objects(modules@, i as int);
            assert(modules@.take(i + 1).drop_last() =~= modules@.take(i as int));
        }
        push_object(&mut inner, 0x84, modules[i]);
        i = i + 1;
    }
    assert(modules@.take(i as int) =~= modules@);
    assert(inner@ =~= elf_body(elf@, life_cycle, assoc_sd@, modules@));
    wrap_e3(inner.as_slice())
}

} // verus!
