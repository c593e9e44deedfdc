//! Putting and deleting the keys of a security domain.
use vstd::prelude::*;

use crate::backend::{Event, KeyHandle};
use crate::command::short_apdu;
use crate::command::delete::key_reference;
use crate::error::{BackendError, ScllError};
use crate::laws::commands::{
    law_key_block, law_key_deletion_data, law_put_key_data, law_short_command,
};
use crate::model::KeyType;
use crate::report::{DeleteKeyReport, PutKeysReport, ScpProtocol};
use crate::scp::ScpSession;
use crate::workflow::keys::{
    block_fields, delete_key_reported, echo_agrees, keys_put, preparation, prepared_by,
    put_keys_data, put_keys_reported, NewKeyset, PutSdKeysArgs,
};
use crate::workflow::session::{exchanged, Answer, Moment};

verus! {

/// A call that encrypts `key` for the channel and gave `bytes`: under the key encryption
/// key over SCP03, and under the session's own over SCP02.
pub open spec fn encrypted_as(
    event: Event,
    channel: ScpSession,
    dek: KeyHandle,
    key: KeyHandle,
    bytes: Seq<u8>,
) -> bool {
    match channel {
        ScpSession::Scp03(_) => event == (Event::EncryptKey03 { dek, key, result: Ok(bytes) }),
        ScpSession::Scp02(s) => event == (Event::EncryptKey02 {
            session: s@.session,
            key,
            result: Ok(bytes),
        }),
    }
}

/// A call that takes the check value of `key` and gave `bytes`.
pub open spec fn checked_as(event: Event, key: KeyHandle, bytes: Seq<u8>) -> bool {
    event == (Event::KeyCheckValue { key, result: Ok(bytes) })
}

/// What a call gave.
pub open spec fn given(event: Event) -> Seq<u8> {
    match event {
        Event::EncryptKey03 { result, .. } => result->Ok_0,
        Event::EncryptKey02 { result, .. } => result->Ok_0,
        Event::KeyCheckValue { result, .. } => result->Ok_0,
        _ => arbitrary(),
    }
}

/// One key as PUT KEY carries it: over SCP03 the type `88`, the length of the encrypted
/// key and one more, and the length of the clear key; over SCP02 the type `80` and the
/// length of the encrypted key; then the encrypted key, `03` and the check value.
pub open spec fn carries_key(
    s: Seq<u8>,
    aes: bool,
    clear_len: u8,
    encrypted: Seq<u8>,
    kcv: Seq<u8>,
) -> bool {
    let n = encrypted.len() as int;
    let at = if aes {
        3int
    } else {
        2
    };
    &&& s.len() == at + n + 4
    &&& aes ==> s[0] == 0x88 && s[1] == n + 1 && s[2] == clear_len
    &&& !aes ==> s[0] == 0x80 && s[1] == n
    &&& s.subrange(at, at + n) == encrypted
    &&& s[at + n] == 3
    &&& s.skip(at + n + 1) == kcv
}

/// How long that is.
pub open spec fn key_room(aes: bool, encrypted: Seq<u8>) -> int {
    (if aes {
        7int
    } else {
        6
    }) + encrypted.len()
}

proof fn lemma_calls(
    calls: Seq<Event>,
    channel: ScpSession,
    dek: KeyHandle,
    keys: NewKeyset,
)
    requires
        preparation(calls, channel, dek, keys) is Ok,
    ensures
        preparation(calls, channel, dek, keys)->Ok_0.len() == calls.len(),
        forall|i: int|
            #![trigger calls[i]]
            0 <= i < calls.len() ==> prepared_by(calls[i], i, channel, dek, keys) == Some(
                Ok::<Seq<u8>, BackendError>(preparation(calls, channel, dek, keys)->Ok_0[i]),
            ),
    decreases calls.len(),
{
    if calls.len() > 0 {
        let init = calls.drop_last();
        lemma_calls(init, channel, dek, keys);
        let results = preparation(calls, channel, dek, keys)->Ok_0;
        assert forall|i: int| 0 <= i < calls.len() implies prepared_by(
            #[trigger] calls[i],
            i,
            channel,
            dek,
            keys,
        ) == Some(Ok::<Seq<u8>, BackendError>(results[i])) by {
            if i < init.len() {
                assert(init[i] == calls[i]);
            }
        }
    }
}

/// Where new keys were put, the first key of the command is the encryption key, the
/// second the MAC key and the third the key encryption key, each encrypted and with its
/// own check value; the same goes for the three check values of the report. The command is
/// `84 D8 00 81`, and its data begin with the new version.
pub proof fn law_new_keys_keep_their_roles(
    from: Moment,
    to: Moment,
    args: PutSdKeysArgs<'_>,
    calls: Seq<Event>,
    r: Result<PutKeysReport, ScllError>,
)
    requires
        keys_put(from, to, args, calls, r),
        r is Ok,
        given(calls[0]).len() <= 64,
        given(calls[1]).len() <= 64,
        given(calls[2]).len() <= 64,
        given(calls[3]).len() == 3,
        given(calls[4]).len() == 3,
        given(calls[5]).len() == 3,
    ensures
        calls.len() == 6,
        encrypted_as(calls[0], from.channel, args.dek, args.new_keys.enc, given(calls[0])),
        encrypted_as(calls[1], from.channel, args.dek, args.new_keys.mac, given(calls[1])),
        encrypted_as(calls[2], from.channel, args.dek, args.new_keys.dek, given(calls[2])),
        checked_as(calls[3], args.new_keys.enc, given(calls[3])),
        checked_as(calls[4], args.new_keys.mac, given(calls[4])),
        checked_as(calls[5], args.new_keys.dek, given(calls[5])),
        ({
            let kcvs = r->Ok_0.effective.kcvs@;
            &&& kcvs.subrange(0, 3) == given(calls[3])
            &&& kcvs.subrange(3, 6) == given(calls[4])
            &&& kcvs.subrange(6, 9) == given(calls[5])
        }),
        ({
            let aes = from.channel is Scp03;
            let clear = if aes {
                args.new_keys.kind.len() as u8
            } else {
                16
            };
            let a = 6 + key_room(aes, given(calls[0]));
            let b = a + key_room(aes, given(calls[1]));
            let c = b + key_room(aes, given(calls[2]));
            exists|command: Seq<u8>, answer: Result<Answer, ScllError>|
                {
                    &&& #[trigger] exchanged(
                        Moment { backend: from.backend + calls, ..from },
                        to,
                        command,
                        answer,
                    )
                    &&& command.len() == c + 1
                    &&& command[0] == 0x84 && command[1] == 0xD8 && command[2] == 0x00 && command[3]
                        == 0x81
                    &&& command[4] == c - 5
                    &&& command[5] == args.new_kvn
                    &&& carries_key(
                        command.subrange(6, a),
                        aes,
                        clear,
                        given(calls[0]),
                        given(calls[3]),
                    )
                    &&& carries_key(
                        command.subrange(a, b),
                        aes,
                        clear,
                        given(calls[1]),
                        given(calls[4]),
                    )
                    &&& carries_key(
                        command.subrange(b, c),
                        aes,
                        clear,
                        given(calls[2]),
                        given(calls[5]),
                    )
                    &&& command[c] == 0x00
                    &&& answer matches Ok(x) && x.sw == 0x9000
                }
        }),
{
    let channel = from.channel;
    assert(preparation(calls, channel, args.dek, args.new_keys) is Ok);
    lemma_calls(calls, channel, args.dek, args.new_keys);
    let results = preparation(calls, channel, args.dek, args.new_keys)->Ok_0;
    assert(calls.len() == 6) by {
        if calls.len() < 6 {
            let last = calls.len() - 1;
            assert(prepared_by(calls[last], last, channel, args.dek, args.new_keys) is Some);
        }
    }
    assert(prepared_by(calls[0], 0, channel, args.dek, args.new_keys) is Some);
    assert(prepared_by(calls[1], 1, channel, args.dek, args.new_keys) is Some);
    assert(prepared_by(calls[2], 2, channel, args.dek, args.new_keys) is Some);
    assert(prepared_by(calls[3], 3, channel, args.dek, args.new_keys) is Some);
    assert(prepared_by(calls[4], 4, channel, args.dek, args.new_keys) is Some);
    assert(prepared_by(calls[5], 5, channel, args.dek, args.new_keys) is Some);
    assert(given(calls[0]) == results[0] && given(calls[1]) == results[1] && given(calls[2])
        == results[2]);
    assert(given(calls[3]) == results[3] && given(calls[4]) == results[4] && given(calls[5])
        == results[5]);
    let kind = args.new_keys.kind;
    let f0 = block_fields(channel, kind, results, 0);
    let f1 = block_fields(channel, kind, results, 1);
    let f2 = block_fields(channel, kind, results, 2);
    law_key_block(f0);
    law_key_block(f1);
    law_key_block(f2);
    law_put_key_data(args.new_kvn, f0, f1, f2);
    let data = put_keys_data(channel, args, results);
    let mid = Moment { backend: from.backend + calls, ..from };
    let command = short_apdu(0x84, 0xD8, 0x00, 0x81, data, true);
    let answer = choose|answer: Result<Answer, ScllError>| #[trigger]
        exchanged(mid, to, command, answer) && put_keys_reported(r, channel, args, results, answer);
    law_short_command(0x84, 0xD8, 0x00, 0x81, data, true);
    let aes = channel is Scp03;
    let a = 6 + key_room(aes, results[0]);
    let b = a + key_room(aes, results[1]);
    let c = b + key_room(aes, results[2]);
    assert(data.len() == c - 5);
    assert(command[5] == command.subrange(5, 5 + data.len() as int)[0]);
    assert(command.subrange(6, a) =~= data.subrange(1, a - 5)) by {
        assert forall|k: int| 0 <= k < a - 6 implies command.subrange(6, a)[k] == data.subrange(
            1,
            a - 5,
        )[k] by {
            assert(command.subrange(5, 5 + data.len() as int)[k + 1] == data[k + 1]);
        }
    }
    assert(command.subrange(a, b) =~= data.subrange(a - 5, b - 5)) by {
        assert forall|k: int| 0 <= k < b - a implies command.subrange(a, b)[k] == data.subrange(
            a - 5,
            b - 5,
        )[k] by {
            assert(command.subrange(5, 5 + data.len() as int)[k + a - 5] == data[k + a - 5]);
        }
    }
    assert(command.subrange(b, c) =~= data.skip(b - 5)) by {
        assert forall|k: int| 0 <= k < c - b implies command.subrange(b, c)[k] == data.skip(
            b - 5,
        )[k] by {
            assert(command.subrange(5, 5 + data.len() as int)[k + b - 5] == data[k + b - 5]);
        }
    }
    let kcvs = r->Ok_0.effective.kcvs@;
    assert(kcvs.subrange(0, 3) =~= results[3]);
    assert(kcvs.subrange(3, 6) =~= results[4]);
    assert(kcvs.subrange(6, 9) =~= results[5]);
    assert(exchanged(mid, to, command, answer));
}

/// What is reported of new keys: the domain, the version and the kind that were asked
/// for.
pub proof fn law_put_keys_report(
    from: Moment,
    to: Moment,
    args: PutSdKeysArgs<'_>,
    calls: Seq<Event>,
    r: Result<PutKeysReport, ScllError>,
)
    requires
        keys_put(from, to, args, calls, r),
        r is Ok,
    ensures
        ({
            let e = r->Ok_0.effective;
            &&& e.target_sd_aid@ == args.target_sd_aid@
            &&& e.new_kvn == args.new_kvn
            &&& from.channel is Scp03 ==> e.scp_protocol == ScpProtocol::Scp03 && e.key_type
                == KeyType::Aes && e.key_length == args.new_keys.kind.len() as u8
            &&& from.channel is Scp02 ==> e.scp_protocol == ScpProtocol::Scp02 && e.key_type
                == KeyType::Des && e.key_length == 16
            &&& r->Ok_0.warnings@.len() == 0
        }),
{
    let results = preparation(calls, from.channel, args.dek, args.new_keys)->Ok_0;
    let data = put_keys_data(from.channel, args, results);
    let answer = choose|answer: Result<Answer, ScllError>| #[trigger]
        exchanged(
            Moment { backend: from.backend + calls, ..from },
            to,
            short_apdu(0x84, 0xD8, 0x00, 0x81, data, true),
            answer,
        ) && put_keys_reported(r, from.channel, args, results, answer);
}

/// The card's echo is wrong exactly where it has the ten octets of a version and three
/// check values and one of them is not what was sent.
pub proof fn law_echo(echo: Seq<u8>, new_kvn: u8, enc: Seq<u8>, mac: Seq<u8>, dek: Seq<u8>)
    requires
        enc.len() == 3,
        mac.len() == 3,
        dek.len() == 3,
    ensures
        echo_agrees(echo, new_kvn, enc + mac + dek) <==> (echo.len() < 10 || {
            &&& echo[0] == new_kvn
            &&& echo.subrange(1, 4) == enc
            &&& echo.subrange(4, 7) == mac
            &&& echo.subrange(7, 10) == dek
        }),
{
    let sent = seq![new_kvn] + (enc + mac + dek);
    if echo.len() >= 10 {
        let got = echo.take(10);
        if got == sent {
            assert(got[0] == sent[0]);
            assert(echo.subrange(1, 4) =~= enc) by {
                assert forall|k: int| 0 <= k < 3 implies echo.subrange(1, 4)[k] == enc[k] by {
                    assert(got[1 + k] == sent[1 + k]);
                }
            }
            assert(echo.subrange(4, 7) =~= mac) by {
                assert forall|k: int| 0 <= k < 3 implies echo.subrange(4, 7)[k] == mac[k] by {
                    assert(got[4 + k] == sent[4 + k]);
                }
            }
            assert(echo.subrange(7, 10) =~= dek) by {
                assert forall|k: int| 0 <= k < 3 implies echo.subrange(7, 10)[k] == dek[k] by {
                    assert(got[7 + k] == sent[7 + k]);
                }
            }
        }
        if echo[0] == new_kvn && echo.subrange(1, 4) == enc && echo.subrange(4, 7) == mac
            && echo.subrange(7, 10) == dek {
            assert(got =~= sent) by {
                assert forall|k: int| 0 <= k < 10 implies got[k] == sent[k] by {
                    if 1 <= k < 4 {
                        assert(echo.subrange(1, 4)[k - 1] == enc[k - 1]);
                    } else if 4 <= k < 7 {
                        assert(echo.subrange(4, 7)[k - 4] == mac[k - 4]);
                    } else if k >= 7 {
                        assert(echo.subrange(7, 10)[k - 7] == dek[k - 7]);
                    }
                }
            }
        }
    }
}

/// Keys are put exactly where the card says `9000`, its echo is right, and the domain's
/// identifier is one. A wrong echo is a mismatch.
pub proof fn law_put_keys_outcome(
    r: Result<PutKeysReport, ScllError>,
    channel: ScpSession,
    args: PutSdKeysArgs<'_>,
    results: Seq<Seq<u8>>,
    answer: Result<Answer, ScllError>,
)
    requires
        put_keys_reported(r, channel, args, results, answer),
        results.len() == 6,
    ensures
        r is Ok <==> (answer matches Ok(a) && a.sw == 0x9000 && echo_agrees(
            a.data,
            args.new_kvn,
            results[3] + results[4] + results[5],
        ) && 5 <= args.target_sd_aid@.len() <= 16),
        answer matches Ok(a) ==> (a.sw == 0x9000 && !echo_agrees(
            a.data,
            args.new_kvn,
            results[3] + results[4] + results[5],
        ) ==> r == Err::<PutKeysReport, ScllError>(ScllError::KeyCheckValueMismatch)),
{
}

/// DELETE of a key version: `84 E4 00 00 03 D2 01`, the version, and `00`.
pub proof fn law_delete_keys_command(kvn: u8)
    ensures
        short_apdu(0x84, 0xE4, 0x00, 0x00, key_reference(None, Some(kvn)), true) == seq![
            0x84u8,
            0xE4u8,
            0x00u8,
            0x00u8,
            0x03u8,
            0xD2u8,
            0x01u8,
            kvn,
            0x00u8,
        ],
{
    let data = key_reference(None, Some(kvn));
    law_key_deletion_data(None, Some(kvn));
    assert(short_apdu(0x84, 0xE4, 0x00, 0x00, data, true) =~= seq![
        0x84u8,
        0xE4u8,
        0x00u8,
        0x00u8,
        0x03u8,
        0xD2u8,
        0x01u8,
        kvn,
        0x00u8,
    ]);
}

/// Keys are deleted exactly where the card says `9000`; `6A88` means that there are none
/// of that version. The report names the domain and the version that were asked for.
pub proof fn law_delete_keys_outcome(
    r: Result<DeleteKeyReport, ScllError>,
    kvn: u8,
    target_sd_aid: Seq<u8>,
    answer: Result<Answer, ScllError>,
)
    requires
        delete_key_reported(r, kvn, target_sd_aid, answer),
    ensures
        r is Ok <==> (answer matches Ok(a) && a.sw == 0x9000 && 5 <= target_sd_aid.len() <= 16),
        r matches Ok(report) ==> report.effective.kvn == kvn && report.effective.target_sd_aid@
            == target_sd_aid && report.warnings@.len() == 0,
        answer matches Ok(a) ==> (a.sw == 0x6A88 ==> r == Err::<DeleteKeyReport, ScllError>(
            ScllError::KeyNotFound,
        )),
{
}

} // verus!
