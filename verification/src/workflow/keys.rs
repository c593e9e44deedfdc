//! The keys of a security domain.
use vstd::prelude::*;

use crate::aid::{aid_shaped, Aid};
use crate::backend::{Event, KeyBackend, KeyHandle, KeyKind, Scp02Backend, Scp03Backend};
use crate::buffers::{block_bytes, block_slice, capdu_slice, rapdu_slice, Capdu, EncKeyBlock};
use crate::command::delete::{delete_key, key_reference};
use crate::command::put_key::{key_data, put_key, KeyBlock, KeyBlockFields};
use crate::command::{short_apdu, BuildError};
use crate::error::{general_sw, BackendError, ScllError};
use crate::model::KeyType;
use crate::report::{DeleteKeyParams, DeleteKeyReport, PutKeysParams, PutKeysReport, ScpProtocol};
use crate::scp::{protocol_of, ScpSession};
use crate::transport::Transport;
use crate::workflow::session::{
    answer_view, exchanged, fails_with, lemma_one_outcome, now, transmit_in_session, Answer,
    Moment, SW_OK, SW_REF_NOT_FOUND,
};

verus! {

const KEY_TYPE_AES: u8 = 0x88;

const KEY_TYPE_3DES: u8 = 0x80;

/// P1 of PUT KEY that adds a version.
const P1_ADD: u8 = 0x00;

/// The new version and three check values.
const KCV_ECHO_LEN: usize = 10;

/// Three new keys of one kind.
#[derive(Debug, Clone, Copy)]
pub struct NewKeyset {
    pub enc: KeyHandle,
    pub mac: KeyHandle,
    pub dek: KeyHandle,
    pub kind: KeyKind,
}

/// What to put. `dek` encrypts the new keys under SCP03; under SCP02 the
/// session's own key does, and `dek` is not used.
pub struct PutSdKeysArgs<'a> {
    pub dek: KeyHandle,
    pub new_keys: NewKeyset,
    pub new_kvn: u8,
    pub target_sd_aid: &'a [u8],
}

/// The key number `i` of a set.
pub open spec fn nth_key(keys: NewKeyset, i: int) -> KeyHandle {
    if i == 0 {
        keys.enc
    } else if i == 1 {
        keys.mac
    } else {
        keys.dek
    }
}

/// The encryption of a new key under the channel's protocol, and its result.
pub open spec fn encryption_of(
    event: Event,
    channel: ScpSession,
    dek: KeyHandle,
    key: KeyHandle,
) -> Option<Result<Seq<u8>, BackendError>> {
    match (event, channel) {
        (Event::EncryptKey03 { dek: d, key: k, result }, ScpSession::Scp03(_)) => if d == dek && k
            == key {
            Some(result)
        } else {
            None
        },
        (Event::EncryptKey02 { session, key: k, result }, ScpSession::Scp02(s)) => if session
            == s@.session && k == key {
            Some(result)
        } else {
            None
        },
        _ => None,
    }
}

/// The check value of a key, and its result.
pub open spec fn check_value_of(event: Event, key: KeyHandle) -> Option<
    Result<Seq<u8>, BackendError>,
> {
    match event {
        Event::KeyCheckValue { key: k, result } => if k == key {
            Some(result)
        } else {
            None
        },
        _ => None,
    }
}

/// The result of call number `i` of the preparation: three encryptions and
/// then three check values, each in the order ENC, MAC, DEK.
pub open spec fn prepared_by(
    event: Event,
    i: int,
    channel: ScpSession,
    dek: KeyHandle,
    keys: NewKeyset,
) -> Option<Result<Seq<u8>, BackendError>> {
    if i < 3 {
        encryption_of(event, channel, dek, nth_key(keys, i))
    } else {
        check_value_of(event, nth_key(keys, i - 3))
    }
}

/// The calls that prepare PUT KEY: six of them, or as many as it took to fail.
pub open spec fn preparation(
    calls: Seq<Event>,
    channel: ScpSession,
    dek: KeyHandle,
    keys: NewKeyset,
) -> Result<Seq<Seq<u8>>, ScllError>
    decreases calls.len(),
{
    if calls.len() == 0 {
        Ok(Seq::empty())
    } else {
        match preparation(calls.drop_last(), channel, dek, keys) {
            Err(e) => Err(e),
            Ok(results) => match prepared_by(calls.last(), calls.len() - 1, channel, dek, keys) {
                Some(Ok(bytes)) => Ok(results.push(bytes)),
                Some(Err(e)) => Err(ScllError::Backend(e)),
                None => Err(ScllError::KeyNotFound),
            },
        }
    }
}

/// Every call is one of the preparation, and nothing is called after a failure.
pub open spec fn preparation_calls(
    calls: Seq<Event>,
    channel: ScpSession,
    dek: KeyHandle,
    keys: NewKeyset,
) -> bool {
    &&& 1 <= calls.len() <= 6
    &&& forall|i: int|
        0 <= i < calls.len() ==> prepared_by(#[trigger] calls[i], i, channel, dek, keys) is Some
    &&& forall|i: int|
        0 <= i < calls.len() - 1 ==> prepared_by(#[trigger] calls[i], i, channel, dek, keys)->Some_0
            is Ok
    &&& calls.len() < 6 ==> prepared_by(
        calls.last(),
        calls.len() - 1,
        channel,
        dek,
        keys,
    )->Some_0 is Err
}

/// The key type byte and the length of the clear key that PUT KEY carries.
pub open spec fn key_type_byte(channel: ScpSession) -> u8 {
    match channel {
        ScpSession::Scp03(_) => 0x88,
        ScpSession::Scp02(_) => 0x80,
    }
}

/// Length of the clear keys: by their kind under SCP03, 16 under SCP02.
pub open spec fn clear_key_len(channel: ScpSession, kind: KeyKind) -> u8 {
    match channel {
        ScpSession::Scp03(_) => kind.len() as u8,
        ScpSession::Scp02(_) => 16,
    }
}

/// One key block of the command.
pub open spec fn block_fields(
    channel: ScpSession,
    kind: KeyKind,
    results: Seq<Seq<u8>>,
    i: int,
) -> KeyBlockFields {
    KeyBlockFields {
        key_type: key_type_byte(channel),
        encrypted_key: results[i],
        kcv: results[i + 3],
        clear_key_len: clear_key_len(channel, kind),
    }
}

/// The data field of the command, from the six results of the preparation.
pub open spec fn put_keys_data(
    channel: ScpSession,
    args: PutSdKeysArgs<'_>,
    results: Seq<Seq<u8>>,
) -> Seq<u8> {
    key_data(
        args.new_kvn,
        block_fields(channel, args.new_keys.kind, results, 0),
        block_fields(channel, args.new_keys.kind, results, 1),
        block_fields(channel, args.new_keys.kind, results, 2),
    )
}

/// The three check values in one.
pub open spec fn kcvs_of(results: Seq<Seq<u8>>) -> Seq<u8> {
    results[3] + results[4] + results[5]
}

/// The card's echo is right: either it is too short to say anything, or it holds
/// the new version and the check values.
pub open spec fn echo_agrees(echo: Seq<u8>, new_kvn: u8, kcvs: Seq<u8>) -> bool {
    echo.len() >= 10 ==> echo.take(10) == seq![new_kvn] + kcvs
}

/// Joins three check values and holds them against the card's echo.
pub fn verify_kcv_echo(
    echo: &[u8],
    new_kvn: u8,
    kcv_enc: [u8; 3],
    kcv_mac: [u8; 3],
    kcv_dek: [u8; 3],
) -> (r: Result<[u8; 9], ScllError>)
    ensures
        match r {
            Ok(kcvs) => kcvs@ == kcv_enc@ + kcv_mac@ + kcv_dek@ && echo_agrees(
                echo@,
                new_kvn,
                kcvs@,
            ),
            Err(e) => e == ScllError::KeyCheckValueMismatch && !echo_agrees(
                echo@,
                new_kvn,
                kcv_enc@ + kcv_mac@ + kcv_dek@,
            ),
        },
{
    let kcvs: [u8; 9] = [
        kcv_enc[0],
        kcv_enc[1],
        kcv_enc[2],
        kcv_mac[0],
        kcv_mac[1],
        kcv_mac[2],
        kcv_dek[0],
        kcv_dek[1],
        kcv_dek[2],
    ];
    assert(kcvs@ =~= kcv_enc@ + kcv_mac@ + kcv_dek@);
    if echo.len() >= KCV_ECHO_LEN {
        let ghost expected = seq![new_kvn] + kcvs@;
        if echo[0] != new_kvn {
            assert(echo@.take(10)[0] != expected[0]);
            return Err(ScllError::KeyCheckValueMismatch);
        }
        let mut i: usize = 0;
        while i < 9
            invariant
                i <= 9,
                echo.len() >= 10,
                echo@[0] == new_kvn,
                expected == seq![new_kvn] + kcvs@,
                kcvs@ == kcv_enc@ + kcv_mac@ + kcv_dek@,
                forall|j: int| 0 <= j < i ==> echo@[1 + j] == #[trigger] kcvs@[j],
            decreases 9 - i,
        {
            if echo[1 + i] != kcvs[i] {
                assert(echo@.take(10)[1 + i] != expected[1 + i]);
                return Err(ScllError::KeyCheckValueMismatch);
            }
            i = i + 1;
        }
        assert(echo@.take(10) =~= expected) by {
            assert forall|k: int| 0 <= k < 10 implies echo@.take(10)[k] == expected[k] by {
                if k > 0 {
                    assert(echo@[1 + (k - 1)] == kcvs@[k - 1]);
                }
            }
        }
    }
    Ok(kcvs)
}

/// What is reported, given the card's answer.
pub open spec fn put_keys_reported(
    r: Result<PutKeysReport, ScllError>,
    channel: ScpSession,
    args: PutSdKeysArgs<'_>,
    results: Seq<Seq<u8>>,
    answer: Result<Answer, ScllError>,
) -> bool {
    match answer {
        Err(e) => fails_with(r, e),
        Ok(a) => if a.sw != SW_OK {
            fails_with(r, general_sw(a.sw))
        } else if !echo_agrees(a.data, args.new_kvn, kcvs_of(results)) {
            fails_with(r, ScllError::KeyCheckValueMismatch)
        } else if !aid_shaped(args.target_sd_aid@) {
            fails_with(r, ScllError::InvalidAid { len: args.target_sd_aid@.len() as usize })
        } else {
            r matches Ok(report) && {
                &&& report.effective.target_sd_aid@ == args.target_sd_aid@
                &&& report.effective.scp_protocol == protocol_of(channel)
                &&& report.effective.new_kvn == args.new_kvn
                &&& report.effective.key_type == (if channel is Scp03 {
                    KeyType::Aes
                } else {
                    KeyType::Des
                })
                &&& report.effective.key_length == clear_key_len(channel, args.new_keys.kind)
                &&& report.effective.kcvs@ == kcvs_of(results)
                &&& report.warnings@.len() == 0
            }
        },
    }
}

/// What putting keys does: the preparation, and where it succeeds and the
/// command fits, one command over the channel.
pub open spec fn keys_put(
    from: Moment,
    to: Moment,
    args: PutSdKeysArgs<'_>,
    calls: Seq<Event>,
    r: Result<PutKeysReport, ScllError>,
) -> bool {
    let mid = Moment { backend: from.backend + calls, ..from };
    &&& preparation_calls(calls, from.channel, args.dek, args.new_keys)
    &&& match preparation(calls, from.channel, args.dek, args.new_keys) {
        Err(e) => to == mid && fails_with(r, e),
        Ok(results) => {
            let data = put_keys_data(from.channel, args, results);
            if data.len() > 255 {
                to == mid && fails_with(r, ScllError::Build(BuildError::Overflow))
            } else {
                exists|answer: Result<Answer, ScllError>| #[trigger]
                    exchanged(mid, to, short_apdu(0x84, 0xD8, 0x00, 0x81, data, true), answer)
                        && put_keys_reported(r, from.channel, args, results, answer)
            }
        },
    }
}

/// Two results of putting keys say the same.
pub open spec fn same_put_result(
    a: Result<PutKeysReport, ScllError>,
    b: Result<PutKeysReport, ScllError>,
) -> bool {
    match (a, b) {
        (Ok(x), Ok(y)) => {
            &&& x.effective.target_sd_aid@ == y.effective.target_sd_aid@
            &&& x.effective.scp_protocol == y.effective.scp_protocol
            &&& x.effective.new_kvn == y.effective.new_kvn
            &&& x.effective.key_type == y.effective.key_type
            &&& x.effective.key_length == y.effective.key_length
            &&& x.effective.kcvs@ == y.effective.kcvs@
            &&& x.warnings@.len() == 0
            &&& y.warnings@.len() == 0
        },
        (Err(x), Err(y)) => x == y,
        _ => false,
    }
}

/// Requests that differ in nothing but the key encryption key.
pub open spec fn same_but_for_dek(a: PutSdKeysArgs<'_>, b: PutSdKeysArgs<'_>) -> bool {
    &&& a.new_keys == b.new_keys
    &&& a.new_kvn == b.new_kvn
    &&& a.target_sd_aid@ == b.target_sd_aid@
}

/// Over SCP02 the key encryption key of the request changes nothing: whatever happens
/// with one may happen with any other; the same calls and the same answers of the card
/// lead to the same result; nothing is ever encrypted under it; and what is sent begins
/// with the new version.
pub proof fn law_dek_is_not_used_over_scp02(
    from: Moment,
    to: Moment,
    a: PutSdKeysArgs<'_>,
    b: PutSdKeysArgs<'_>,
    calls: Seq<Event>,
    ra: Result<PutKeysReport, ScllError>,
    rb: Result<PutKeysReport, ScllError>,
)
    requires
        from.channel is Scp02,
        same_but_for_dek(a, b),
        keys_put(from, to, a, calls, ra),
    ensures
        keys_put(from, to, b, calls, ra),
        keys_put(from, to, b, calls, rb) ==> same_put_result(ra, rb),
        forall|i: int| 0 <= i < calls.len() ==> !((#[trigger] calls[i]) is EncryptKey03),
        preparation(calls, from.channel, a.dek, a.new_keys) matches Ok(results)
            ==> put_keys_data(from.channel, a, results) == put_keys_data(from.channel, b, results)
            && put_keys_data(from.channel, a, results)[0] == a.new_kvn,
{
    lemma_dek_free(calls, from.channel, a.dek, b.dek, a.new_keys);
    assert forall|i: int| 0 <= i < calls.len() implies prepared_by(
        #[trigger] calls[i],
        i,
        from.channel,
        a.dek,
        a.new_keys,
    ) == prepared_by(calls[i], i, from.channel, b.dek, b.new_keys) by {}
    let last = calls.len() - 1;
    assert(calls.last() == calls[last]);
    let mid = Moment { backend: from.backend + calls, ..from };
    if let Ok(results) = preparation(calls, from.channel, a.dek, a.new_keys) {
        let data = put_keys_data(from.channel, a, results);
        if data.len() <= 255 {
            let command = short_apdu(0x84, 0xD8, 0x00, 0x81, data, true);
            let answer = choose|answer: Result<Answer, ScllError>| #[trigger]
                exchanged(mid, to, command, answer) && put_keys_reported(
                    ra,
                    from.channel,
                    a,
                    results,
                    answer,
                );
            assert(put_keys_reported(ra, from.channel, b, results, answer));
            if keys_put(from, to, b, calls, rb) {
                let other = choose|answer: Result<Answer, ScllError>| #[trigger]
                    exchanged(mid, to, command, answer) && put_keys_reported(
                        rb,
                        from.channel,
                        b,
                        results,
                        answer,
                    );
                lemma_one_outcome(mid, to, command, answer, other);
            }
        }
    }
    assert forall|i: int| 0 <= i < calls.len() implies !((#[trigger] calls[i]) is EncryptKey03) by {
        assert(prepared_by(calls[i], i, from.channel, a.dek, a.new_keys) is Some);
    }
}

/// Over SCP02 the preparation does not depend on the key encryption key.
proof fn lemma_dek_free(
    calls: Seq<Event>,
    channel: ScpSession,
    a: KeyHandle,
    b: KeyHandle,
    keys: NewKeyset,
)
    requires
        channel is Scp02,
    ensures
        preparation(calls, channel, a, keys) == preparation(calls, channel, b, keys),
    decreases calls.len(),
{
    if calls.len() > 0 {
        lemma_dek_free(calls.drop_last(), channel, a, b, keys);
    }
}

/// Encrypts a new key for PUT KEY: under the static key encryption key with
/// SCP03, under the session's own with SCP02.
fn encrypt<B: Scp02Backend + Scp03Backend>(
    backend: &mut B,
    session: &ScpSession,
    dek: KeyHandle,
    new: KeyHandle,
) -> (r: Result<EncKeyBlock, ScllError>)
    ensures
        exists|event: Event| #[trigger]
            final(backend).events() == old(backend).events().push(event) && match encryption_of(
                event,
                *session,
                dek,
                new,
            ) {
                Some(Ok(bytes)) => r matches Ok(v) && block_bytes(v) == bytes,
                Some(Err(e)) => r matches Err(x) && x == ScllError::Backend(e),
                None => false,
            },
{
    match session {
        ScpSession::Scp03(_) => match backend.scp03_encrypt_put_key_payload(&dek, &new) {
            Ok(v) => Ok(v),
            Err(e) => Err(ScllError::Backend(e)),
        },
        ScpSession::Scp02(s) => match backend.scp02_encrypt_put_key_payload_for_session(
            &s.session(),
            &new,
        ) {
            Ok(v) => Ok(v),
            Err(e) => Err(ScllError::Backend(e)),
        },
    }
}

/// The check value of a key.
fn check_value<B: KeyBackend>(backend: &mut B, key: KeyHandle) -> (r: Result<[u8; 3], ScllError>)
    ensures
        exists|event: Event| #[trigger]
            final(backend).events() == old(backend).events().push(event) && match check_value_of(
                event,
                key,
            ) {
                Some(Ok(bytes)) => r matches Ok(v) && v@ == bytes,
                Some(Err(e)) => r matches Err(x) && x == ScllError::Backend(e),
                None => false,
            },
{
    match backend.compute_kcv(&key) {
        Ok(v) => Ok(v),
        Err(e) => Err(ScllError::Backend(e)),
    }
}

/// One more call of the preparation.
proof fn lemma_prepared(
    calls: Seq<Event>,
    event: Event,
    channel: ScpSession,
    dek: KeyHandle,
    keys: NewKeyset,
)
    requires
        calls.len() < 6,
        preparation(calls, channel, dek, keys) is Ok,
        forall|i: int|
            0 <= i < calls.len() ==> (prepared_by(#[trigger] calls[i], i, channel, dek, keys)
                matches Some(Ok(b))),
        prepared_by(event, calls.len() as int, channel, dek, keys) is Some,
    ensures
        match prepared_by(event, calls.len() as int, channel, dek, keys) {
            Some(Ok(bytes)) => {
                &&& preparation(calls.push(event), channel, dek, keys) == Ok::<
                    Seq<Seq<u8>>,
                    ScllError,
                >((preparation(calls, channel, dek, keys)->Ok_0).push(bytes))
                &&& forall|i: int|
                    0 <= i < calls.push(event).len() ==> (prepared_by(
                        #[trigger] calls.push(event)[i],
                        i,
                        channel,
                        dek,
                        keys,
                    ) matches Some(Ok(b)))
                &&& calls.len() == 5 ==> preparation_calls(calls.push(event), channel, dek, keys)
            },
            Some(Err(e)) => {
                &&& preparation(calls.push(event), channel, dek, keys) == Err::<
                    Seq<Seq<u8>>,
                    ScllError,
                >(ScllError::Backend(e))
                &&& preparation_calls(calls.push(event), channel, dek, keys)
            },
            None => false,
        },
{
    let all = calls.push(event);
    assert(all.drop_last() =~= calls);
    assert(all.last() == event);
    assert forall|i: int| 0 <= i < calls.len() implies (prepared_by(
        #[trigger] all[i],
        i,
        channel,
        dek,
        keys,
    ) matches Some(Ok(b))) by {
        assert(all[i] == calls[i]);
    }
}

/// Adds a key version to a security domain, over a channel to that domain.
pub fn put_sd_keys<T: Transport, B: Scp02Backend + Scp03Backend>(
    t: &mut T,
    backend: &mut B,
    session: &mut ScpSession,
    args: &PutSdKeysArgs<'_>,
) -> (r: Result<PutKeysReport, ScllError>)
    ensures
        exists|calls: Seq<Event>| #[trigger]
            keys_put(
                now(*old(t), *old(backend), *old(session)),
                now(*final(t), *final(backend), *final(session)),
                *args,
                calls,
                r,
            ),
{
    let ghost m0 = now(*t, *backend, *session);
    let ghost mut calls = Seq::<Event>::empty();
    let ghost channel = *session;
    let keyset: NewKeyset = args.new_keys;
    let protocol: ScpProtocol = session.protocol();
    let is_scp03: bool = protocol == ScpProtocol::Scp03;
    let key_type: u8 = if is_scp03 {
        KEY_TYPE_AES
    } else {
        KEY_TYPE_3DES
    };
    assert(m0.backend =~= m0.backend + calls);

    let enc_blob = encrypt(backend, session, args.dek, keyset.enc);
    proof {
        let event = backend.events().last();
        assert(backend.events() =~= m0.backend + calls.push(event));
        lemma_prepared(calls, event, channel, args.dek, keyset);
        calls = calls.push(event);
    }
    let enc_blob: EncKeyBlock = match enc_blob {
        Ok(v) => v,
        Err(e) => {
            assert(keys_put(
                m0,
                now(*t, *backend, *session),
                *args,
                calls,
                Err::<PutKeysReport, ScllError>(e),
            ));
            return Err(e);
        },
    };
    let mac_blob = encrypt(backend, session, args.dek, keyset.mac);
    proof {
        let event = backend.events().last();
        assert(backend.events() =~= m0.backend + calls.push(event));
        lemma_prepared(calls, event, channel, args.dek, keyset);
        calls = calls.push(event);
    }
    let mac_blob: EncKeyBlock = match mac_blob {
        Ok(v) => v,
        Err(e) => {
            assert(keys_put(
                m0,
                now(*t, *backend, *session),
                *args,
                calls,
                Err::<PutKeysReport, ScllError>(e),
            ));
            return Err(e);
        },
    };
    let dek_blob = encrypt(backend, session, args.dek, keyset.dek);
    proof {
        let event = backend.events().last();
        assert(backend.events() =~= m0.backend + calls.push(event));
        lemma_prepared(calls, event, channel, args.dek, keyset);
        calls = calls.push(event);
    }
    let dek_blob: EncKeyBlock = match dek_blob {
        Ok(v) => v,
        Err(e) => {
            assert(keys_put(
                m0,
                now(*t, *backend, *session),
                *args,
                calls,
                Err::<PutKeysReport, ScllError>(e),
            ));
            return Err(e);
        },
    };
    let kcv_enc = check_value(backend, keyset.enc);
    proof {
        let event = backend.events().last();
        assert(backend.events() =~= m0.backend + calls.push(event));
        lemma_prepared(calls, event, channel, args.dek, keyset);
        calls = calls.push(event);
    }
    let kcv_enc: [u8; 3] = match kcv_enc {
        Ok(v) => v,
        Err(e) => {
            assert(keys_put(
                m0,
                now(*t, *backend, *session),
                *args,
                calls,
                Err::<PutKeysReport, ScllError>(e),
            ));
            return Err(e);
        },
    };
    let kcv_mac = check_value(backend, keyset.mac);
    proof {
        let event = backend.events().last();
        assert(backend.events() =~= m0.backend + calls.push(event));
        lemma_prepared(calls, event, channel, args.dek, keyset);
        calls = calls.push(event);
    }
    let kcv_mac: [u8; 3] = match kcv_mac {
        Ok(v) => v,
        Err(e) => {
            assert(keys_put(
                m0,
                now(*t, *backend, *session),
                *args,
                calls,
                Err::<PutKeysReport, ScllError>(e),
            ));
            return Err(e);
        },
    };
    let kcv_dek = check_value(backend, keyset.dek);
    proof {
        let event = backend.events().last();
        assert(backend.events() =~= m0.backend + calls.push(event));
        lemma_prepared(calls, event, channel, args.dek, keyset);
        calls = calls.push(event);
    }
    let kcv_dek: [u8; 3] = match kcv_dek {
        Ok(v) => v,
        Err(e) => {
            assert(keys_put(
                m0,
                now(*t, *backend, *session),
                *args,
                calls,
                Err::<PutKeysReport, ScllError>(e),
            ));
            return Err(e);
        },
    };
    let ghost results = preparation(calls, channel, args.dek, keyset)->Ok_0;
    let ghost mid = now(*t, *backend, *session);

    let clear_len: u8 = if is_scp03 {
        keyset.kind.clear_len() as u8
    } else {
        16
    };
    let blocks: [KeyBlock<'_>; 3] = [
        KeyBlock {
            key_type,
            encrypted_key: block_slice(&enc_blob),
            kcv: kcv_enc,
            clear_key_len: clear_len,
        },
        KeyBlock {
            key_type,
            encrypted_key: block_slice(&mac_blob),
            kcv: kcv_mac,
            clear_key_len: clear_len,
        },
        KeyBlock {
            key_type,
            encrypted_key: block_slice(&dek_blob),
            kcv: kcv_dek,
            clear_key_len: clear_len,
        },
    ];
    proof {
        assert(blocks@[0]@ == block_fields(channel, keyset.kind, results, 0));
        assert(blocks@[1]@ == block_fields(channel, keyset.kind, results, 1));
        assert(blocks@[2]@ == block_fields(channel, keyset.kind, results, 2));
    }
    let capdu: Capdu = match put_key(P1_ADD, args.new_kvn, &blocks) {
        Ok(c) => c,
        Err(e) => {
            assert(keys_put(
                m0,
                mid,
                *args,
                calls,
                Err::<PutKeysReport, ScllError>(ScllError::Build(e)),
            ));
            return Err(ScllError::Build(e));
        },
    };
    let answer = transmit_in_session(t, backend, session, capdu_slice(&capdu));
    let ghost to = now(*t, *backend, *session);
    assert(exchanged(
        mid,
        to,
        short_apdu(0x84, 0xD8, 0x00, 0x81, put_keys_data(channel, *args, results), true),
        answer_view(answer),
    ));
    let r = put_keys_finish(answer, protocol, args, kcv_enc, kcv_mac, kcv_dek, clear_len);
    assert(put_keys_reported(r, channel, *args, results, answer_view(answer)));
    assert(keys_put(m0, to, *args, calls, r));
    r
}

/// What follows from the card's answer to PUT KEY.
fn put_keys_finish(
    answer: Result<(crate::buffers::Rapdu, u16), ScllError>,
    protocol: ScpProtocol,
    args: &PutSdKeysArgs<'_>,
    kcv_enc: [u8; 3],
    kcv_mac: [u8; 3],
    kcv_dek: [u8; 3],
    clear_len: u8,
) -> (r: Result<PutKeysReport, ScllError>)
    ensures
        forall|channel: ScpSession, results: Seq<Seq<u8>>|
            protocol_of(channel) == protocol && clear_len == clear_key_len(
                channel,
                args.new_keys.kind,
            ) && results.len() == 6 && results[3] == kcv_enc@ && results[4] == kcv_mac@
                && results[5] == kcv_dek@ ==> #[trigger] put_keys_reported(
                r,
                channel,
                *args,
                results,
                answer_view(answer),
            ),
{
    let (echo, sw) = answer?;
    if sw != SW_OK {
        return Err(ScllError::from_general_sw(sw));
    }
    let kcvs: [u8; 9] = verify_kcv_echo(
        rapdu_slice(&echo),
        args.new_kvn,
        kcv_enc,
        kcv_mac,
        kcv_dek,
    )?;
    let target_sd_aid: Aid = Aid::new(args.target_sd_aid)?;
    let key_type: KeyType = match protocol {
        ScpProtocol::Scp03 => KeyType::Aes,
        ScpProtocol::Scp02 => KeyType::Des,
    };
    Ok(
        PutKeysReport {
            effective: PutKeysParams {
                target_sd_aid,
                scp_protocol: protocol,
                new_kvn: args.new_kvn,
                key_type,
                key_length: clear_len,
                kcvs,
            },
            warnings: Vec::new(),
        },
    )
}

/// What a status word of DELETE means for a key version.
pub open spec fn delete_key_verdict(sw: u16) -> Result<(), ScllError> {
    if sw == SW_OK {
        Ok(())
    } else if sw == SW_REF_NOT_FOUND {
        Err(ScllError::KeyNotFound)
    } else {
        Err(general_sw(sw))
    }
}

/// Reads the status word of DELETE for a key version.
pub fn delete_key_status(sw: u16) -> (r: Result<(), ScllError>)
    ensures
        r == delete_key_verdict(sw),
{
    match sw {
        SW_OK => Ok(()),
        SW_REF_NOT_FOUND => Err(ScllError::KeyNotFound),
        other => Err(ScllError::from_general_sw(other)),
    }
}

/// What is reported, given the card's answer.
pub open spec fn delete_key_reported(
    r: Result<DeleteKeyReport, ScllError>,
    kvn: u8,
    target_sd_aid: Seq<u8>,
    answer: Result<Answer, ScllError>,
) -> bool {
    match answer {
        Err(e) => fails_with(r, e),
        Ok(a) => match delete_key_verdict(a.sw) {
            Err(e) => fails_with(r, e),
            Ok(()) => if !aid_shaped(target_sd_aid) {
                fails_with(r, ScllError::InvalidAid { len: target_sd_aid.len() as usize })
            } else {
                r matches Ok(report) && {
                    &&& report.effective.target_sd_aid@ == target_sd_aid
                    &&& report.effective.kvn == kvn
                    &&& report.warnings@.len() == 0
                }
            },
        },
    }
}

/// Deletes every key of a version.
pub fn delete_sd_keyset<T: Transport, B: Scp02Backend + Scp03Backend>(
    t: &mut T,
    backend: &mut B,
    session: &mut ScpSession,
    kvn: u8,
    target_sd_aid: &[u8],
) -> (r: Result<DeleteKeyReport, ScllError>)
    ensures
        exists|answer: Result<Answer, ScllError>| #[trigger]
            exchanged(
                now(*old(t), *old(backend), *old(session)),
                now(*final(t), *final(backend), *final(session)),
                short_apdu(0x84, 0xE4, 0x00, 0x00, key_reference(None, Some(kvn)), true),
                answer,
            ) && delete_key_reported(r, kvn, target_sd_aid@, answer),
{
    let capdu: Capdu = match delete_key(None, Some(kvn)) {
        Ok(c) => c,
        Err(e) => return Err(ScllError::Build(e)),
    };
    let answer = transmit_in_session(t, backend, session, capdu_slice(&capdu));
    assert(exchanged(
        now(*old(t), *old(backend), *old(session)),
        now(*t, *backend, *session),
        short_apdu(0x84, 0xE4, 0x00, 0x00, key_reference(None, Some(kvn)), true),
        answer_view(answer),
    ));
    let (_data, sw) = answer?;
    delete_key_status(sw)?;
    let target_sd_aid: Aid = Aid::new(target_sd_aid)?;
    Ok(DeleteKeyReport { effective: DeleteKeyParams { target_sd_aid, kvn }, warnings: Vec::new() })
}

} // verus!
