//! What the contents of values are: the fields that the values hold, and nothing else.
use vstd::prelude::*;

use crate::aid::{aid_read, Aid};
use crate::backend::{
    array_result, block_result, capdu_result, field_result, gained, grew, rapdu_result,
};
use crate::buffers::{
    block_bytes, capdu_bytes, field_bytes, rapdu_bytes, Capdu, EncKeyBlock, Field, Rapdu,
};
use crate::cap::components::{applet_views, AppletEntry};
use crate::command::{built, BuildError};
use crate::command::put_key::KeyBlock;
use crate::error::{BackendError, ScllError};
use crate::laws::commands::law_short_command;
use crate::laws::octets::{lemma_number_2, number};
use crate::model::{
    aid_views, keyset_views, opt_aid_view, ApplicationEntry, CardInventory, ExecutableLoadFileEntry,
    Keyset, SecurityDomainEntry,
};
use crate::response::{
    keys_read, opt_bytes, recognized, registry_read, CardRecognition, KeyInformation, RegistryEntry,
};
use crate::scp::{scp02, scp03, ScpSession};
use crate::support::fixtures::sw_bytes;
use crate::tlv::{tlv_views, Tlv, TlvError};
use crate::transport::{reply_view, Exchange, TransportError};
use crate::util::keys::setting;
use crate::util::text::bool_text;
use crate::workflow::card_status::scope_view;
use crate::workflow::discover::{aid_result, opt_rapdu, optional_view};
use crate::workflow::session::{
    answer_view, performed, step_valid, steps_events, steps_exchanges, steps_linked, Answer, Moment,
    Step,
};

verus! {

// ---- Single values ---------------------------------------------------------

/// Reading an identifier gives its octets where there are 5 to 16, and otherwise an error
/// that says how many there were.
pub proof fn law_identifiers_are_read(r: Result<Aid, ScllError>, bytes: Seq<u8>)
    requires
        aid_read(r, bytes),
        bytes.len() <= usize::MAX,
    ensures
        r is Ok <==> 5 <= bytes.len() <= 16,
        r matches Ok(aid) ==> aid@ == bytes,
        r matches Err(e) ==> (e matches ScllError::InvalidAid { len } && len == bytes.len()),
{
}

/// A command is built exactly where its data have at most 255 octets, and a command that is
/// built has the header, the length, the data and the expected length.
pub proof fn law_commands_are_built(
    r: Result<Capdu, BuildError>,
    cla: u8,
    ins: u8,
    p1: u8,
    p2: u8,
    data: Seq<u8>,
    le: bool,
)
    requires
        built(r, cla, ins, p1, p2, data, le),
    ensures
        r is Ok <==> data.len() <= 255,
        r matches Ok(apdu) ==> {
            let s = capdu_bytes(apdu);
            &&& s[0] == cla && s[1] == ins && s[2] == p1 && s[3] == p2
            &&& data.len() > 0 ==> s[4] == data.len() && s.subrange(5, 5 + data.len() as int)
                == data
            &&& le ==> s.last() == 0
        },
{
    if data.len() <= 255 {
        law_short_command(cla, ins, p1, p2, data, le);
    }
}

/// A status word is sent with its higher octet first.
pub proof fn law_status_octets(sw: u16)
    ensures
        sw_bytes(sw).len() == 2,
        number(sw_bytes(sw)) == sw,
{
    lemma_number_2(sw_bytes(sw));
}

/// A setting counts where it is there and not empty.
pub proof fn law_empty_settings_count_as_missing(value: &str)
    ensures
        setting(Some(value)) is Some <==> value@.len() > 0,
        setting(None) is None,
        value@.len() > 0 ==> setting(Some(value)) == Some(value@),
{
}

/// The truth values by their names.
pub proof fn law_truth_values()
    ensures
        bool_text(true) == seq!['t', 'r', 'u', 'e'],
        bool_text(false) == seq!['f', 'a', 'l', 's', 'e'],
{
    reveal_strlit("true");
    reveal_strlit("false");
    assert("true"@ =~= seq!['t', 'r', 'u', 'e']);
    assert("false"@ =~= seq!['f', 'a', 'l', 's', 'e']);
}

// ---- Results ---------------------------------------------------------------

/// The content of a result is the octets of what succeeded, or the failure itself.
pub proof fn law_results(
    c: Result<Capdu, BackendError>,
    d: Result<Rapdu, BackendError>,
    e: Result<Field, BackendError>,
    f: Result<EncKeyBlock, BackendError>,
    g: Result<[u8; 8], BackendError>,
)
    ensures
        c matches Ok(v) ==> capdu_result(c) == Ok::<Seq<u8>, BackendError>(capdu_bytes(v)),
        c matches Err(x) ==> capdu_result(c) == Err::<Seq<u8>, BackendError>(x),
        d matches Ok(v) ==> rapdu_result(d) == Ok::<Seq<u8>, BackendError>(rapdu_bytes(v)),
        d matches Err(x) ==> rapdu_result(d) == Err::<Seq<u8>, BackendError>(x),
        e matches Ok(v) ==> field_result(e) == Ok::<Seq<u8>, BackendError>(field_bytes(v)),
        e matches Err(x) ==> field_result(e) == Err::<Seq<u8>, BackendError>(x),
        f matches Ok(v) ==> block_result(f) == Ok::<Seq<u8>, BackendError>(block_bytes(v)),
        f matches Err(x) ==> block_result(f) == Err::<Seq<u8>, BackendError>(x),
        g matches Ok(v) ==> array_result(g) == Ok::<Seq<u8>, BackendError>(v@),
        g matches Err(x) ==> array_result(g) == Err::<Seq<u8>, BackendError>(x),
{
}

/// The same of commands and responses on a channel.
pub proof fn law_channel_results(
    c: Result<Capdu, ScllError>,
    d: Result<Rapdu, ScllError>,
    t: Result<Rapdu, TransportError>,
    a: Result<(Rapdu, u16), ScllError>,
)
    ensures
        c matches Ok(v) ==> scp03::command_view(c) == Ok::<Seq<u8>, ScllError>(capdu_bytes(v)),
        c matches Err(x) ==> scp03::command_view(c) == Err::<Seq<u8>, ScllError>(x),
        d matches Ok(v) ==> scp03::response_view(d) == Ok::<Seq<u8>, ScllError>(rapdu_bytes(v)),
        d matches Err(x) ==> scp03::response_view(d) == Err::<Seq<u8>, ScllError>(x),
        t matches Ok(v) ==> reply_view(t) == Ok::<Seq<u8>, TransportError>(rapdu_bytes(v)),
        t matches Err(x) ==> reply_view(t) == Err::<Seq<u8>, TransportError>(x),
        a matches Ok(v) ==> answer_view(a) == Ok::<Answer, ScllError>(
            (Answer { data: rapdu_bytes(v.0), sw: v.1 }),
        ),
        a matches Err(x) ==> answer_view(a) == Err::<Answer, ScllError>(x),
{
}

/// The same of what discovery and the status operations read.
pub proof fn law_operation_results(
    a: Result<Aid, ScllError>,
    o: Result<Option<Rapdu>, ScllError>,
    d: Option<Rapdu>,
    s: Result<(Vec<u8>, bool), ScllError>,
)
    ensures
        a matches Ok(v) ==> aid_result(a) == Ok::<Seq<u8>, ScllError>(v@),
        a matches Err(x) ==> aid_result(a) == Err::<Seq<u8>, ScllError>(x),
        o matches Ok(v) ==> optional_view(o) == Ok::<Option<Seq<u8>>, ScllError>(opt_rapdu(v)),
        o matches Err(x) ==> optional_view(o) == Err::<Option<Seq<u8>>, ScllError>(x),
        d matches Some(v) ==> opt_rapdu(d) == Some(rapdu_bytes(v)),
        d is None ==> opt_rapdu(d) is None,
        s matches Ok(v) ==> scope_view(s) == Ok::<(Seq<u8>, bool), ScllError>((v.0@, v.1)),
        s matches Err(x) ==> scope_view(s) == Err::<(Seq<u8>, bool), ScllError>(x),
{
}

/// The same of what is read of a card's answers.
pub proof fn law_reading_results(
    c: Result<CardRecognition, TlvError>,
    k: Result<KeyInformation, TlvError>,
    e: Result<Vec<RegistryEntry<'_>>, TlvError>,
    i: int,
)
    ensures
        c matches Ok(v) ==> recognized(c) is Ok && recognized(c)->Ok_0 == v.scp@,
        c matches Err(x) ==> recognized(c) is Err && recognized(c)->Err_0 == x,
        k matches Ok(v) ==> {
            &&& keys_read(k) is Ok
            &&& keys_read(k)->Ok_0.0 == v.format
            &&& keys_read(k)->Ok_0.1.len() == v.keysets@.len()
            &&& 0 <= i < v.keysets@.len() ==> {
                &&& keys_read(k)->Ok_0.1[i].kvn == v.keysets@[i].kvn
                &&& keys_read(k)->Ok_0.1[i].keys == v.keysets@[i].keys@
            }
        },
        k matches Err(x) ==> keys_read(k) is Err && keys_read(k)->Err_0 == x,
        e matches Ok(v) ==> {
            &&& registry_read(e) is Ok
            &&& registry_read(e)->Ok_0.len() == v@.len()
            &&& 0 <= i < v@.len() ==> registry_read(e)->Ok_0[i] == v@[i]@
        },
        e matches Err(x) ==> registry_read(e) is Err && registry_read(e)->Err_0 == x,
{
}

// ---- Fields ----------------------------------------------------------------

/// The answer of a card to INITIALIZE UPDATE, of either protocol.
pub proof fn law_update_fields(a: scp03::IuResponse, b: scp02::IuResponse)
    ensures
        a@.kvn == a.kvn,
        a@.i_param == a.i_param,
        a@.mode == a.mode,
        a@.card_challenge == field_bytes(a.card_challenge),
        a@.card_cryptogram == field_bytes(a.card_cryptogram),
        a@.sequence_counter is Some <==> a.sequence_counter is Some,
        a.sequence_counter matches Some(c) ==> a@.sequence_counter == Some(c@),
        b@.kvn == b.kvn,
        b@.seq_counter == b.seq_counter@,
        b@.card_challenge == b.card_challenge@,
        b@.card_cryptogram == b.card_cryptogram@,
{
}

/// The answers of both protocols, and the channels that they lead to.
pub proof fn law_update_results(
    a: Result<scp03::IuResponse, ScllError>,
    b: Result<scp02::IuResponse, ScllError>,
    c: Result<(scp03::Scp03State, Capdu), ScllError>,
    d: Result<(scp02::Scp02State, Capdu), ScllError>,
)
    ensures
        a matches Ok(v) ==> scp03::iu_view(a) == Ok::<scp03::IuFields, ScllError>(v@),
        a matches Err(x) ==> scp03::iu_view(a) == Err::<scp03::IuFields, ScllError>(x),
        b matches Ok(v) ==> scp02::iu_view(b) == Ok::<scp02::IuFields, ScllError>(v@),
        b matches Err(x) ==> scp02::iu_view(b) == Err::<scp02::IuFields, ScllError>(x),
        c matches Ok(v) ==> scp03::begin_view(c) == Ok::<
            (scp03::Scp03Channel, Seq<u8>),
            ScllError,
        >((v.0@, capdu_bytes(v.1))),
        c matches Err(x) ==> scp03::begin_view(c) == Err::<
            (scp03::Scp03Channel, Seq<u8>),
            ScllError,
        >(x),
        d matches Ok(v) ==> scp02::begin_view(d) == Ok::<
            (scp02::Scp02Channel, Seq<u8>),
            ScllError,
        >((v.0@, capdu_bytes(v.1))),
        d matches Err(x) ==> scp02::begin_view(d) == Err::<
            (scp02::Scp02Channel, Seq<u8>),
            ScllError,
        >(x),
{
}

/// An entry of the registry as a card sends it.
pub proof fn law_registry_fields(e: RegistryEntry<'_>, i: int)
    ensures
        e@.aid == e.aid@,
        e@.life_cycle == e.life_cycle,
        e@.privileges == e.privileges@,
        e@.associated_sd_aid == opt_bytes(e.associated_sd_aid),
        e@.elf_aid == opt_bytes(e.elf_aid),
        e@.more_modules == e.more_modules,
        e@.modules.len() == e.modules@.len(),
        0 <= i < e.modules@.len() ==> e@.modules[i] == e.modules@[i]@,
        e.elf_aid matches Some(v) ==> opt_bytes(e.elf_aid) == Some(v@),
        e.elf_aid is None ==> opt_bytes(e.elf_aid) is None,
{
}

/// The objects of an inventory.
pub proof fn law_inventory_fields(
    inv: CardInventory,
    d: SecurityDomainEntry,
    a: ApplicationEntry,
    f: ExecutableLoadFileEntry,
    i: int,
)
    ensures
        inv@.security_domains.len() == inv.security_domains@.len(),
        inv@.applets.len() == inv.applets@.len(),
        inv@.elfs.len() == inv.elfs@.len(),
        0 <= i < inv.security_domains@.len() ==> inv@.security_domains[i]
            == inv.security_domains@[i]@,
        0 <= i < inv.applets@.len() ==> inv@.applets[i] == inv.applets@[i]@,
        0 <= i < inv.elfs@.len() ==> inv@.elfs[i] == inv.elfs@[i]@,
        d@.aid == d.aid@,
        d@.life_cycle_state == d.life_cycle_state,
        d@.privileges == d.privileges@,
        d@.associated_sd_aid == opt_aid_view(d.associated_sd_aid),
        a@.aid == a.aid@,
        a@.life_cycle_state == a.life_cycle_state,
        a@.privileges == a.privileges@,
        a@.associated_sd_aid == a.associated_sd_aid@,
        a@.associated_elf_aid == opt_aid_view(a.associated_elf_aid),
        f@.aid == f.aid@,
        f@.life_cycle_state == f.life_cycle_state,
        f@.associated_sd_aid == f.associated_sd_aid@,
        f@.modules.len() == f.modules@.len(),
        0 <= i < f.modules@.len() ==> f@.modules[i] == f.modules@[i]@,
        aid_views(f.modules@) == f@.modules,
        d.associated_sd_aid matches Some(v) ==> opt_aid_view(d.associated_sd_aid) == Some(v@),
        d.associated_sd_aid is None ==> opt_aid_view(d.associated_sd_aid) is None,
{
}

/// A key block, an object, an applet and a key set.
pub proof fn law_part_fields(
    b: KeyBlock<'_>,
    objects: Seq<Tlv<'_>>,
    applets: Seq<AppletEntry>,
    sets: Seq<Keyset>,
    i: int,
)
    ensures
        b@.key_type == b.key_type,
        b@.encrypted_key == b.encrypted_key@,
        b@.kcv == b.kcv@,
        b@.clear_key_len == b.clear_key_len,
        tlv_views(objects).len() == objects.len(),
        0 <= i < objects.len() ==> {
            &&& tlv_views(objects)[i].tag == objects[i].tag
            &&& tlv_views(objects)[i].value == objects[i].value@
        },
        applet_views(applets).len() == applets.len(),
        0 <= i < applets.len() ==> {
            &&& applet_views(applets)[i].class_aid == applets[i].class_aid@
            &&& applet_views(applets)[i].install_method_offset == applets[i].install_method_offset
        },
        keyset_views(sets).len() == sets.len(),
        0 <= i < sets.len() ==> {
            &&& keyset_views(sets)[i].kvn == sets[i].kvn
            &&& keyset_views(sets)[i].keys == sets[i].keys@
        },
{
}

// ---- Logs ------------------------------------------------------------------

/// A log that grew by something is what it was, and that.
pub proof fn law_logs_only_grow<T>(before: Seq<T>, after: Seq<T>)
    requires
        grew(before, after),
    ensures
        after == before + gained(before, after),
{
    assert(after =~= before + gained(before, after));
}

/// Steps that were all sent stand on the link one behind the other, each with its protected
/// command and its reply; each goes on from the channel that the one before it left, and
/// nothing else happened.
pub proof fn law_steps_follow_each_other(from: Moment, to: Moment, steps: Seq<Step>, i: int)
    requires
        performed(from, to, steps),
        forall|k: int| 0 <= k < steps.len() ==> (#[trigger] steps[k]).wrapped is Ok,
        0 <= i < steps.len(),
    ensures
        to.link.len() == from.link.len() + steps.len(),
        to.link.take(from.link.len() as int) == from.link,
        to.link[from.link.len() + i] == (Exchange::Apdu {
            command: steps[i].wrapped->Ok_0,
            reply: steps[i].reply,
        }),
        step_valid(steps[i]),
        steps[0].before == from.channel,
        i + 1 < steps.len() ==> steps[i + 1].before == steps[i].after,
        steps.last().after == to.channel,
        to.backend.len() <= from.backend.len() + 2 * steps.len(),
        to.backend.take(from.backend.len() as int) == from.backend,
{
    lemma_steps(steps, from.channel, to.channel, i);
    assert(to.link.take(from.link.len() as int) =~= from.link);
    assert(to.backend.take(from.backend.len() as int) =~= from.backend);
}

proof fn lemma_steps(
    steps: Seq<Step>,
    first: ScpSession,
    last: ScpSession,
    i: int,
)
    requires
        steps_linked(steps, first, last),
        forall|k: int| 0 <= k < steps.len() ==> (#[trigger] steps[k]).wrapped is Ok,
        0 <= i < steps.len(),
    ensures
        steps_exchanges(steps).len() == steps.len(),
        steps_exchanges(steps)[i] == (Exchange::Apdu {
            command: steps[i].wrapped->Ok_0,
            reply: steps[i].reply,
        }),
        step_valid(steps[i]),
        steps[0].before == first,
        i + 1 < steps.len() ==> steps[i + 1].before == steps[i].after,
        steps.last().after == last,
        steps_events(steps).len() <= 2 * steps.len(),
    decreases steps.len(),
{
    let init = steps.drop_last();
    if init.len() > 0 {
        assert forall|k: int| 0 <= k < init.len() implies (#[trigger] init[k]).wrapped is Ok by {
            assert(init[k] == steps[k]);
        }
        lemma_steps(init, first, steps.last().before, 0);
        lemma_steps(init, first, steps.last().before, init.len() - 1);
        if i < init.len() {
            lemma_steps(init, first, steps.last().before, i);
        }
    } else {
        assert(steps_linked(init, first, steps.last().before));
        assert(steps_exchanges(init).len() == 0);
        assert(steps_events(init).len() == 0);
    }
}

} // verus!
