//! Application commands over an open channel.
use vstd::prelude::*;

use crate::backend::{Scp02Backend, Scp03Backend};
use crate::buffers::{rapdu_bytes, rapdu_slice};
use crate::error::ScllError;
use crate::report::{AppletTransmitParams, AppletTransmitReport, ScpProtocol};
use crate::scp::{protocol_of, session_number, ScpSession};
use crate::transport::Transport;
use crate::workflow::session::{exchanged, fails_with, now, transmit_in_session, Answer};

verus! {

/// The length of a byte string as far as 16 bits hold it.
pub open spec fn len16(n: nat) -> u16 {
    if n <= 0xFFFF {
        n as u16
    } else {
        0xFFFF
    }
}

/// The security level of a channel.
pub open spec fn level_of(s: ScpSession) -> u8 {
    match s {
        ScpSession::Scp03(st) => st@.security_level,
        ScpSession::Scp02(st) => st@.security_level,
    }
}

/// What is reported of one exchange: the card's answer as it is, whatever its
/// status word, and the parameters of the channel.
pub open spec fn transmit_reported(
    r: Result<AppletTransmitReport, ScllError>,
    channel: ScpSession,
    command: Seq<u8>,
    answer: Result<Answer, ScllError>,
) -> bool {
    match answer {
        Err(e) => fails_with(r, e),
        Ok(a) => r matches Ok(report) && {
            &&& rapdu_bytes(report.rapdu) == a.data
            &&& report.sw == a.sw
            &&& report.warnings@.len() == 0
            &&& report.effective.session_id == session_number(channel)
            &&& report.effective.capdu_plaintext_len == len16(command.len())
            &&& report.effective.rapdu_plaintext_len == len16(a.data.len())
            &&& report.effective.sw@ == seq![(a.sw / 256) as u8, (a.sw % 256) as u8]
            &&& report.effective.sec_level == level_of(channel)
            &&& report.effective.scp_protocol == protocol_of(channel)
        },
    }
}

fn cap16(n: usize) -> (r: u16)
    ensures
        r == len16(n as nat),
{
    if n <= 0xFFFF {
        n as u16
    } else {
        0xFFFF
    }
}

/// Exchanges one application command over an open channel. A status word is
/// never an error here; the caller looks at it.
pub fn transmit<T: Transport, B: Scp02Backend + Scp03Backend>(
    t: &mut T,
    backend: &mut B,
    session: &mut ScpSession,
    plaintext_capdu: &[u8],
) -> (r: Result<AppletTransmitReport, ScllError>)
    ensures
        exists|answer: Result<Answer, ScllError>| #[trigger]
            exchanged(
                now(*old(t), *old(backend), *old(session)),
                now(*final(t), *final(backend), *final(session)),
                plaintext_capdu@,
                answer,
            ) && transmit_reported(r, *old(session), plaintext_capdu@, answer),
{
    let session_id: u64 = session.session_id();
    let sec_level: u8 = session.security_level();
    let scp_protocol: ScpProtocol = session.protocol();
    let (data, sw) = transmit_in_session(t, backend, session, plaintext_capdu)?;
    let sw_bytes: [u8; 2] = [(sw / 256) as u8, (sw % 256) as u8];
    assert(sw_bytes@ =~= seq![(sw / 256) as u8, (sw % 256) as u8]);
    let rapdu_plaintext_len: u16 = cap16(rapdu_slice(&data).len());
    Ok(
        AppletTransmitReport {
            rapdu: data,
            sw,
            effective: AppletTransmitParams {
                session_id,
                capdu_plaintext_len: cap16(plaintext_capdu.len()),
                rapdu_plaintext_len,
                sw: sw_bytes,
                sec_level,
                scp_protocol,
            },
            warnings: Vec::new(),
        },
    )
}

} // verus!
