//! The objects on a card.
use vstd::prelude::*;

use crate::aid::{aid_shaped, Aid};
use crate::backend::{Scp02Backend, Scp03Backend};
use crate::bytes::same_bytes;
use crate::error::{plain_warnings, ScllError, Warning, WarningKind};
use crate::limits::{MAX_APPLETS, MAX_ELFS, MAX_MODULES_PER_ELF, MAX_SDS};
use crate::model::{
    aid_views, opt_aid_view, ApplicationEntry, ApplicationRecord, CardInventory,
    ExecutableLoadFileEntry, InventoryRecord, LoadFileRecord, SecurityDomainEntry,
    SecurityDomainRecord,
};
use crate::report::{GetCardInventoryParams, GetCardInventoryReport};
use crate::response::{
    first_n, opt_bytes, parse_status_registry, registry, registry_views, RegistryEntry,
    RegistryRecord,
};
use crate::scp::ScpSession;
use crate::transport::Transport;
use crate::workflow::card_status::{
    law_scope_only_reads, read_status_scope, scope_outcome, scope_view, P1_ISD_SCOPE,
};
use crate::workflow::session::{fails_with, lemma_then, now, performed, Moment, Step};

verus! {

/// Applications and supplementary security domains.
const P1_APP_SD_SCOPE: u8 = 0x40;

/// Executable load files with their modules.
const P1_ELF_MODULE_SCOPE: u8 = 0x10;

/// The security domain privilege, in the first privileges byte.
const PRIV_SECURITY_DOMAIN: u8 = 0x80;

/// The parts of a card's registry, in the order in which they are read.
#[derive(Debug, Clone, Copy, PartialEq, Eq, Structural)]
pub enum RegistryScope {
    /// The issuer security domain.
    Issuer,
    /// Applications and supplementary security domains.
    Applications,
    /// Executable load files with their modules.
    LoadFiles,
}

impl RegistryScope {
    /// P1 of GET STATUS.
    pub open spec fn p1_of(self) -> u8 {
        match self {
            RegistryScope::Issuer => 0x80,
            RegistryScope::Applications => 0x40,
            RegistryScope::LoadFiles => 0x10,
        }
    }

    /// P1 of GET STATUS.
    pub fn p1(self) -> (r: u8)
        ensures
            r == self.p1_of(),
    {
        match self {
            RegistryScope::Issuer => P1_ISD_SCOPE,
            RegistryScope::Applications => P1_APP_SD_SCOPE,
            RegistryScope::LoadFiles => P1_ELF_MODULE_SCOPE,
        }
    }
}

/// An identifier that a record names, if it is one.
pub open spec fn named_aid(aid: Option<Seq<u8>>) -> Option<Seq<u8>> {
    match aid {
        Some(s) => if aid_shaped(s) {
            Some(s)
        } else {
            None
        },
        None => None,
    }
}

/// The same, with a substitute.
pub open spec fn named_aid_or(aid: Option<Seq<u8>>, otherwise: Seq<u8>) -> Seq<u8> {
    match named_aid(aid) {
        Some(s) => s,
        None => otherwise,
    }
}

/// Those of the byte strings that are identifiers.
pub open spec fn shaped_aids(aids: Seq<Seq<u8>>) -> Seq<Seq<u8>>
    decreases aids.len(),
{
    if aids.len() == 0 {
        Seq::empty()
    } else if aid_shaped(aids.last()) {
        shaped_aids(aids.drop_last()).push(aids.last())
    } else {
        shaped_aids(aids.drop_last())
    }
}

/// A record with the security domain privilege.
pub open spec fn is_security_domain(rec: RegistryRecord) -> bool {
    rec.privileges[0] & 0x80 != 0
}

/// The security domain that a record describes, under `parent`.
pub open spec fn domain_of(rec: RegistryRecord, aid: Seq<u8>, parent: Option<Seq<u8>>)
    -> SecurityDomainRecord {
    SecurityDomainRecord {
        aid,
        life_cycle_state: rec.life_cycle,
        privileges: rec.privileges,
        associated_sd_aid: parent,
    }
}

/// The application that a record describes; an application without a parent
/// belongs to the issuer security domain.
pub open spec fn application_of(rec: RegistryRecord, isd: Seq<u8>) -> ApplicationRecord {
    ApplicationRecord {
        aid: rec.aid,
        life_cycle_state: rec.life_cycle,
        privileges: rec.privileges,
        associated_sd_aid: named_aid_or(rec.associated_sd_aid, isd),
        associated_elf_aid: named_aid(rec.elf_aid),
    }
}

/// The load file that a record describes.
pub open spec fn load_file_of(rec: RegistryRecord, isd: Seq<u8>) -> LoadFileRecord {
    LoadFileRecord {
        aid: rec.aid,
        life_cycle_state: rec.life_cycle,
        associated_sd_aid: named_aid_or(rec.associated_sd_aid, isd),
        modules: first_n(shaped_aids(rec.modules), MAX_MODULES_PER_ELF as int),
    }
}

/// The inventory with one more record, and whether there was room for all of it: a load
/// file can also have too many modules. A record that is not to be kept counts as
/// kept: one without a proper identifier, and the issuer security domain among the
/// applications.
pub open spec fn with_record(
    inv: InventoryRecord,
    scope: RegistryScope,
    isd: Seq<u8>,
    rec: RegistryRecord,
) -> (InventoryRecord, bool) {
    match scope {
        RegistryScope::Issuer => {
            let aid = if aid_shaped(rec.aid) {
                rec.aid
            } else {
                isd
            };
            with_domain(inv, domain_of(rec, aid, None))
        },
        RegistryScope::Applications => if rec.aid == isd || !aid_shaped(rec.aid) {
            (inv, true)
        } else if is_security_domain(rec) {
            with_domain(inv, domain_of(rec, rec.aid, named_aid(rec.associated_sd_aid)))
        } else if inv.applets.len() < MAX_APPLETS {
            (
                InventoryRecord { applets: inv.applets.push(application_of(rec, isd)), ..inv },
                true,
            )
        } else {
            (inv, false)
        },
        RegistryScope::LoadFiles => if !aid_shaped(rec.aid) {
            (inv, true)
        } else if inv.elfs.len() < MAX_ELFS {
            (
                InventoryRecord { elfs: inv.elfs.push(load_file_of(rec, isd)), ..inv },
                !rec.more_modules,
            )
        } else {
            (inv, false)
        },
    }
}

/// The inventory with one more security domain.
pub open spec fn with_domain(inv: InventoryRecord, sd: SecurityDomainRecord) -> (
    InventoryRecord,
    bool,
) {
    if inv.security_domains.len() < MAX_SDS {
        (InventoryRecord { security_domains: inv.security_domains.push(sd), ..inv }, true)
    } else {
        (inv, false)
    }
}

/// The inventory with the records of one scope, in order, and whether there was
/// room for every one of them.
pub open spec fn with_records(
    inv: InventoryRecord,
    scope: RegistryScope,
    isd: Seq<u8>,
    records: Seq<RegistryRecord>,
) -> (InventoryRecord, bool)
    decreases records.len(),
{
    if records.len() == 0 {
        (inv, true)
    } else {
        let (init, kept) = with_records(inv, scope, isd, records.drop_last());
        let (all, last_kept) = with_record(init, scope, isd, records.last());
        (all, kept && last_kept)
    }
}

/// The empty inventory.
pub open spec fn no_objects() -> InventoryRecord {
    InventoryRecord { security_domains: Seq::empty(), applets: Seq::empty(), elfs: Seq::empty() }
}

/// No list is longer than its limit.
pub open spec fn within_limits(inv: InventoryRecord) -> bool {
    &&& inv.security_domains.len() <= MAX_SDS
    &&& inv.applets.len() <= MAX_APPLETS
    &&& inv.elfs.len() <= MAX_ELFS
}

/// Keeping records keeps the limits.
pub proof fn law_inventory_stays_within_limits(
    inv: InventoryRecord,
    scope: RegistryScope,
    isd: Seq<u8>,
    records: Seq<RegistryRecord>,
)
    requires
        within_limits(inv),
    ensures
        within_limits(with_records(inv, scope, isd, records).0),
    decreases records.len(),
{
    if records.len() > 0 {
        law_inventory_stays_within_limits(inv, scope, isd, records.drop_last());
    }
}

/// What was kept stays, in its place: an inventory that ran out of room is a
/// beginning of the whole.
pub proof fn law_inventory_only_grows(
    inv: InventoryRecord,
    scope: RegistryScope,
    isd: Seq<u8>,
    records: Seq<RegistryRecord>,
)
    ensures
        inv.security_domains.is_prefix_of(with_records(inv, scope, isd, records).0.security_domains),
        inv.applets.is_prefix_of(with_records(inv, scope, isd, records).0.applets),
        inv.elfs.is_prefix_of(with_records(inv, scope, isd, records).0.elfs),
    decreases records.len(),
{
    if records.len() > 0 {
        law_inventory_only_grows(inv, scope, isd, records.drop_last());
    }
}

/// The issuer security domain is listed once: the other scope of domains and
/// applications adds nothing under its identifier.
pub proof fn law_issuer_is_listed_once(
    inv: InventoryRecord,
    isd: Seq<u8>,
    records: Seq<RegistryRecord>,
)
    ensures
        ({
            let after = with_records(inv, RegistryScope::Applications, isd, records).0;
            &&& forall|i: int|
                inv.security_domains.len() <= i < after.security_domains.len() ==> (
                #[trigger] after.security_domains[i]).aid != isd
            &&& forall|i: int|
                inv.applets.len() <= i < after.applets.len() ==> (#[trigger] after.applets[i]).aid
                    != isd
        }),
    decreases records.len(),
{
    if records.len() > 0 {
        law_issuer_is_listed_once(inv, isd, records.drop_last());
        law_inventory_only_grows(
            inv,
            RegistryScope::Applications,
            isd,
            records.drop_last(),
        );
    }
}

/// Where there was room for everything, every application and every security
/// domain with a proper identifier is listed, on the side that its privilege
/// says.
pub proof fn law_nothing_is_lost_with_room(
    inv: InventoryRecord,
    isd: Seq<u8>,
    records: Seq<RegistryRecord>,
    i: int,
)
    requires
        with_records(inv, RegistryScope::Applications, isd, records).1,
        0 <= i < records.len(),
        aid_shaped(records[i].aid),
        records[i].aid != isd,
    ensures
        ({
            let after = with_records(inv, RegistryScope::Applications, isd, records).0;
            if is_security_domain(records[i]) {
                after.security_domains.contains(
                    domain_of(
                        records[i],
                        records[i].aid,
                        named_aid(records[i].associated_sd_aid),
                    ),
                )
            } else {
                after.applets.contains(application_of(records[i], isd))
            }
        }),
    decreases records.len(),
{
    let scope = RegistryScope::Applications;
    let init = records.drop_last();
    let before = with_records(inv, scope, isd, init).0;
    let after = with_records(inv, scope, isd, records).0;
    let sd = domain_of(records[i], records[i].aid, named_aid(records[i].associated_sd_aid));
    let app = application_of(records[i], isd);
    if i == records.len() - 1 {
        if is_security_domain(records[i]) {
            assert(after.security_domains.last() == sd);
        } else {
            assert(after.applets.last() == app);
        }
    } else {
        law_nothing_is_lost_with_room(inv, isd, init, i);
        assert(init[i] == records[i]);
        if is_security_domain(records[i]) {
            let j = before.security_domains.index_of(sd);
            assert(after.security_domains[j] == sd);
        } else {
            let j = before.applets.index_of(app);
            assert(after.applets[j] == app);
        }
    }
}

/// Where there was room for everything, every load file with a proper identifier is
/// listed, and none has more modules than are listed.
pub proof fn law_no_module_is_lost_with_room(
    inv: InventoryRecord,
    isd: Seq<u8>,
    records: Seq<RegistryRecord>,
    i: int,
)
    requires
        with_records(inv, RegistryScope::LoadFiles, isd, records).1,
        0 <= i < records.len(),
        aid_shaped(records[i].aid),
    ensures
        with_records(inv, RegistryScope::LoadFiles, isd, records).0.elfs.contains(
            load_file_of(records[i], isd),
        ),
        !records[i].more_modules,
    decreases records.len(),
{
    let scope = RegistryScope::LoadFiles;
    let init = records.drop_last();
    let before = with_records(inv, scope, isd, init).0;
    let after = with_records(inv, scope, isd, records).0;
    let elf = load_file_of(records[i], isd);
    if i == records.len() - 1 {
        assert(after.elfs.last() == elf);
    } else {
        law_no_module_is_lost_with_room(inv, isd, init, i);
        assert(init[i] == records[i]);
        let j = before.elfs.index_of(elf);
        assert(after.elfs[j] == elf);
    }
}

/// Reads an identifier that may not be one.
fn aid_of(bytes: Option<&[u8]>) -> (r: Option<Aid>)
    ensures
        opt_aid_view(r) == named_aid(opt_bytes(bytes)),
{
    match bytes {
        Some(b) => match Aid::new(b) {
            Ok(a) => Some(a),
            Err(_) => None,
        },
        None => None,
    }
}

/// The same, with a substitute.
fn aid_or(bytes: Option<&[u8]>, otherwise: &Aid) -> (r: Aid)
    ensures
        r@ == named_aid_or(opt_bytes(bytes), otherwise@),
{
    match aid_of(bytes) {
        Some(a) => a,
        None => otherwise.clone(),
    }
}

/// The first [`MAX_MODULES_PER_ELF`] of the byte strings that are identifiers.
fn module_aids(modules: &Vec<&[u8]>) -> (r: Vec<Aid>)
    ensures
        aid_views(r@) == first_n(
            shaped_aids(modules@.map_values(|m: &[u8]| m@)),
            MAX_MODULES_PER_ELF as int,
        ),
{
    let ghost all = modules@.map_values(|m: &[u8]| m@);
    let mut out: Vec<Aid> = Vec::new();
    let mut i: usize = 0;
    assert(all.take(0) =~= Seq::empty());
    assert(aid_views(out@) =~= Seq::empty());
    while i < modules.len()
        invariant
            i <= modules@.len(),
            all == modules@.map_values(|m: &[u8]| m@),
            out@.len() <= MAX_MODULES_PER_ELF,
            aid_views(out@) == first_n(
                shaped_aids(all.take(i as int)),
                MAX_MODULES_PER_ELF as int,
            ),
        decreases modules@.len() - i,
    {
        let ghost before = aid_views(out@);
        proof {
            assert(all.take(i + 1).drop_last() =~= all.take(i as int));
            assert(all.take(i + 1).last() == modules@[i as int]@);
        }
        if let Ok(a) = Aid::new(modules[i]) {
            if out.len() < MAX_MODULES_PER_ELF {
                out.push(a);
                assert(aid_views(out@) =~= before.push(a@));
            }
        }
        assert(aid_views(out@) =~= first_n(
            shaped_aids(all.take(i + 1)),
            MAX_MODULES_PER_ELF as int,
        ));
        i = i + 1;
    }
    assert(all.take(i as int) =~= all);
    out
}

/// Keeps a security domain, where there is room.
fn keep_domain(inv: &mut CardInventory, sd: SecurityDomainEntry) -> (r: bool)
    ensures
        (final(inv)@, r) == with_domain(old(inv)@, sd@),
{
    if inv.security_domains.len() < MAX_SDS {
        inv.security_domains.push(sd);
        assert(inv@.security_domains =~= old(inv)@.security_domains.push(sd@));
        true
    } else {
        false
    }
}

/// Keeps one entry of a scope.
fn keep(inv: &mut CardInventory, scope: RegistryScope, isd: &Aid, e: &RegistryEntry<'_>) -> (r: bool)
    ensures
        (final(inv)@, r) == with_record(old(inv)@, scope, isd@, e@),
{
    match scope {
        RegistryScope::Issuer => {
            let aid: Aid = match Aid::new(e.aid) {
                Ok(a) => a,
                Err(_) => isd.clone(),
            };
            keep_domain(
                inv,
                SecurityDomainEntry {
                    aid,
                    life_cycle_state: e.life_cycle,
                    privileges: e.privileges,
                    associated_sd_aid: None,
                },
            )
        },
        RegistryScope::Applications => {
            if same_bytes(e.aid, isd.as_bytes()) {
                return true;
            }
            let aid: Aid = match Aid::new(e.aid) {
                Ok(a) => a,
                Err(_) => return true,
            };
            if e.privileges[0] & PRIV_SECURITY_DOMAIN != 0 {
                let parent: Option<Aid> = aid_of(e.associated_sd_aid);
                keep_domain(
                    inv,
                    SecurityDomainEntry {
                        aid,
                        life_cycle_state: e.life_cycle,
                        privileges: e.privileges,
                        associated_sd_aid: parent,
                    },
                )
            } else {
                let parent: Aid = aid_or(e.associated_sd_aid, isd);
                let elf: Option<Aid> = aid_of(e.elf_aid);
                if inv.applets.len() < MAX_APPLETS {
                    let app: ApplicationEntry = ApplicationEntry {
                        aid,
                        life_cycle_state: e.life_cycle,
                        privileges: e.privileges,
                        associated_sd_aid: parent,
                        associated_elf_aid: elf,
                    };
                    inv.applets.push(app);
                    assert(inv@.applets =~= old(inv)@.applets.push(app@));
                    true
                } else {
                    false
                }
            }
        },
        RegistryScope::LoadFiles => {
            let aid: Aid = match Aid::new(e.aid) {
                Ok(a) => a,
                Err(_) => return true,
            };
            let parent: Aid = aid_or(e.associated_sd_aid, isd);
            let modules: Vec<Aid> = module_aids(&e.modules);
            if inv.elfs.len() < MAX_ELFS {
                let elf: ExecutableLoadFileEntry = ExecutableLoadFileEntry {
                    aid,
                    life_cycle_state: e.life_cycle,
                    associated_sd_aid: parent,
                    modules,
                };
                inv.elfs.push(elf);
                assert(inv@.elfs =~= old(inv)@.elfs.push(elf@));
                !e.more_modules
            } else {
                false
            }
        },
    }
}

/// Keeps the entries of one scope; false where there was no room for some.
pub fn keep_entries(
    inv: &mut CardInventory,
    scope: RegistryScope,
    isd: &Aid,
    entries: &Vec<RegistryEntry<'_>>,
) -> (r: bool)
    ensures
        (final(inv)@, r) == with_records(old(inv)@, scope, isd@, registry_views(entries@)),
{
    let ghost records = registry_views(entries@);
    let mut kept: bool = true;
    let mut i: usize = 0;
    assert(records.take(0) =~= Seq::empty());
    while i < entries.len()
        invariant
            i <= entries@.len(),
            records == registry_views(entries@),
            (inv@, kept) == with_records(old(inv)@, scope, isd@, records.take(i as int)),
        decreases entries@.len() - i,
    {
        proof {
            assert(records.take(i + 1).drop_last() =~= records.take(i as int));
            assert(records.take(i + 1).last() == entries@[i as int]@);
        }
        if !keep(inv, scope, isd, &entries[i]) {
            kept = false;
        }
        i = i + 1;
    }
    assert(records.take(i as int) =~= records);
    kept
}

// ---- Reading the inventory -------------------------------------------------

/// The inventory and whether something is missing, after one scope.
pub open spec fn after_scope(
    inv: InventoryRecord,
    truncated: bool,
    scope: RegistryScope,
    isd: Seq<u8>,
    read: Result<(Seq<u8>, bool), ScllError>,
) -> Result<(InventoryRecord, bool), ScllError> {
    match read {
        Err(e) => Err(e),
        Ok((data, cut)) => match registry(data) {
            Err(e) => Err(ScllError::MalformedResponse(e)),
            Ok(records) => {
                let (after, kept) = with_records(inv, scope, isd, records);
                Ok((after, truncated || cut || !kept))
            },
        },
    }
}

/// The same, from the steps of the scope; `None` where they are not its steps.
pub open spec fn after_steps(
    inv: InventoryRecord,
    truncated: bool,
    scope: RegistryScope,
    isd: Seq<u8>,
    steps: Seq<Step>,
) -> Option<Result<(InventoryRecord, bool), ScllError>> {
    match scope_outcome(scope.p1_of(), steps) {
        None => None,
        Some(read) => Some(after_scope(inv, truncated, scope, isd, read)),
    }
}

/// What reading all three scopes gives; a failure ends it.
pub open spec fn inventory_read(isd: Seq<u8>, s1: Seq<Step>, s2: Seq<Step>, s3: Seq<Step>) -> Option<
    Result<(InventoryRecord, bool), ScllError>,
> {
    match after_steps(no_objects(), false, RegistryScope::Issuer, isd, s1) {
        None => None,
        Some(Err(e)) => if s2.len() == 0 && s3.len() == 0 {
            Some(Err(e))
        } else {
            None
        },
        Some(Ok((inv1, cut1))) => match after_steps(
            inv1,
            cut1,
            RegistryScope::Applications,
            isd,
            s2,
        ) {
            None => None,
            Some(Err(e)) => if s3.len() == 0 {
                Some(Err(e))
            } else {
                None
            },
            Some(Ok((inv2, cut2))) => after_steps(
                inv2,
                cut2,
                RegistryScope::LoadFiles,
                isd,
                s3,
            ),
        },
    }
}

/// Reading the inventory changes nothing on the card: every command is GET STATUS.
pub proof fn law_inventory_only_reads(
    isd: Seq<u8>,
    s1: Seq<Step>,
    s2: Seq<Step>,
    s3: Seq<Step>,
    i: int,
)
    requires
        inventory_read(isd, s1, s2, s3) is Some,
        0 <= i < (s1 + s2 + s3).len(),
    ensures
        (s1 + s2 + s3)[i].command[1] == 0xF2,
{
    if i < s1.len() {
        law_scope_only_reads(RegistryScope::Issuer.p1_of(), s1, i);
    } else if i < s1.len() + s2.len() {
        law_scope_only_reads(RegistryScope::Applications.p1_of(), s2, i - s1.len());
    } else {
        law_scope_only_reads(RegistryScope::LoadFiles.p1_of(), s3, i - s1.len() - s2.len());
    }
}

/// The report on what was read.
pub open spec fn inventory_reported(
    r: Result<GetCardInventoryReport, ScllError>,
    isd: Seq<u8>,
    read: Result<(InventoryRecord, bool), ScllError>,
) -> bool {
    match read {
        Err(e) => fails_with(r, e),
        Ok((inv, truncated)) => r matches Ok(report) && {
            &&& report.inventory@ == inv
            &&& report.effective.isd_aid@ == isd
            &&& report.effective.security_domain_count == inv.security_domains.len()
            &&& report.effective.application_count == inv.applets.len()
            &&& report.effective.elf_count == inv.elfs.len()
            &&& report.effective.truncated == truncated
            &&& plain_warnings(
                report.warnings@,
                if truncated {
                    seq![WarningKind::InventoryTruncated]
                } else {
                    Seq::empty()
                },
            )
        },
    }
}

/// Three groups of steps happened.
pub open spec fn performed_thrice(
    from: Moment,
    to: Moment,
    s1: Seq<Step>,
    s2: Seq<Step>,
    s3: Seq<Step>,
) -> bool {
    performed(from, to, s1 + s2 + s3)
}

/// The steps of one scope happened; `r` and the inventory are what they lead to.
pub open spec fn collected(
    from: Moment,
    to: Moment,
    steps: Seq<Step>,
    outcome: Option<Result<(InventoryRecord, bool), ScllError>>,
    inv: InventoryRecord,
    r: Result<bool, ScllError>,
) -> bool {
    &&& performed(from, to, steps)
    &&& match outcome {
        None => false,
        Some(Ok((rec, cut))) => r matches Ok(c) && c == cut && inv == rec,
        Some(Err(e)) => fails_with(r, e),
    }
}

/// Reads one scope into the inventory; true where something is missing.
fn collect_scope<T: Transport, B: Scp02Backend + Scp03Backend>(
    t: &mut T,
    backend: &mut B,
    session: &mut ScpSession,
    scope: RegistryScope,
    isd: &Aid,
    inv: &mut CardInventory,
    truncated: bool,
) -> (r: Result<bool, ScllError>)
    ensures
        exists|steps: Seq<Step>| #[trigger]
            collected(
                now(*old(t), *old(backend), *old(session)),
                now(*final(t), *final(backend), *final(session)),
                steps,
                after_steps(old(inv)@, truncated, scope, isd@, steps),
                final(inv)@,
                r,
            ),
{
    let ghost m0 = now(*t, *backend, *session);
    let read = read_status_scope(t, backend, session, scope.p1());
    let ghost m1 = now(*t, *backend, *session);
    let ghost steps = choose|steps: Seq<Step>| #[trigger]
        performed(m0, m1, steps) && scope_outcome(scope.p1_of(), steps) == Some(scope_view(read));
    let ghost outcome = after_steps(inv@, truncated, scope, isd@, steps);
    assert(performed(m0, m1, steps));
    let (data, cut) = match read {
        Ok(v) => v,
        Err(e) => {
            assert(collected(m0, m1, steps, outcome, inv@, Err(e)));
            return Err(e);
        },
    };
    let entries: Vec<RegistryEntry<'_>> = match parse_status_registry(data.as_slice()) {
        Ok(v) => v,
        Err(e) => {
            assert(collected(m0, m1, steps, outcome, inv@, Err(ScllError::MalformedResponse(e))));
            return Err(ScllError::MalformedResponse(e));
        },
    };
    let kept: bool = keep_entries(inv, scope, isd, &entries);
    assert(collected(m0, m1, steps, outcome, inv@, Ok(truncated || cut || !kept)));
    Ok(truncated || cut || !kept)
}

/// The report on an inventory.
fn inventory_report(inv: CardInventory, isd: Aid, truncated: bool) -> (r: GetCardInventoryReport)
    ensures
        inventory_reported(Ok(r), isd@, Ok((inv@, truncated))),
{
    let mut warnings: Vec<Warning> = Vec::new();
    if truncated {
        warnings.push(Warning::plain(WarningKind::InventoryTruncated));
    }
    let security_domain_count: usize = inv.security_domains.len();
    let application_count: usize = inv.applets.len();
    let elf_count: usize = inv.elfs.len();
    GetCardInventoryReport {
        inventory: inv,
        effective: GetCardInventoryParams {
            isd_aid: isd,
            security_domain_count,
            application_count,
            elf_count,
            truncated,
        },
        warnings,
    }
}

/// Lists the security domains, the applications and the load files of a card. A
/// list that runs full, or a scope that cannot be read to its end, leaves a
/// beginning of the whole and a warning.
pub fn get_card_inventory<T: Transport, B: Scp02Backend + Scp03Backend>(
    t: &mut T,
    backend: &mut B,
    session: &mut ScpSession,
    isd_aid: &[u8],
) -> (r: Result<GetCardInventoryReport, ScllError>)
    ensures
        if !aid_shaped(isd_aid@) {
            &&& fails_with(r, ScllError::InvalidAid { len: isd_aid@.len() as usize })
            &&& now(*final(t), *final(backend), *final(session)) == now(
                *old(t),
                *old(backend),
                *old(session),
            )
        } else {
            exists|s1: Seq<Step>, s2: Seq<Step>, s3: Seq<Step>| #[trigger]
                performed_thrice(
                    now(*old(t), *old(backend), *old(session)),
                    now(*final(t), *final(backend), *final(session)),
                    s1,
                    s2,
                    s3,
                ) && (inventory_read(isd_aid@, s1, s2, s3) matches Some(read)
                    && inventory_reported(r, isd_aid@, read))
        },
{
    let isd: Aid = Aid::new(isd_aid)?;
    let ghost m0 = now(*t, *backend, *session);
    let ghost none = Seq::<Step>::empty();
    let mut inv: CardInventory = CardInventory {
        security_domains: Vec::new(),
        applets: Vec::new(),
        elfs: Vec::new(),
    };
    proof {
        assert(inv@.security_domains =~= no_objects().security_domains);
        assert(inv@.applets =~= no_objects().applets);
        assert(inv@.elfs =~= no_objects().elfs);
    }
    let first = collect_scope(t, backend, session, RegistryScope::Issuer, &isd, &mut inv, false);
    let ghost m1 = now(*t, *backend, *session);
    let ghost s1 = choose|steps: Seq<Step>| #[trigger]
        collected(
            m0,
            m1,
            steps,
            after_steps(no_objects(), false, RegistryScope::Issuer, isd@, steps),
            inv@,
            first,
        );
    proof {
        assert(s1 + none + none =~= s1);
        assert(performed_thrice(m0, m1, s1, none, none));
    }
    let cut1: bool = first?;
    let ghost inv1 = inv@;
    let second = collect_scope(
        t,
        backend,
        session,
        RegistryScope::Applications,
        &isd,
        &mut inv,
        cut1,
    );
    let ghost m2 = now(*t, *backend, *session);
    let ghost s2 = choose|steps: Seq<Step>| #[trigger]
        collected(
            m1,
            m2,
            steps,
            after_steps(inv1, cut1, RegistryScope::Applications, isd@, steps),
            inv@,
            second,
        );
    proof {
        lemma_then(m0, m1, m2, s1, s2);
        assert(s1 + s2 + none =~= s1 + s2);
        assert(performed_thrice(m0, m2, s1, s2, none));
    }
    let cut2: bool = second?;
    let ghost inv2 = inv@;
    let third = collect_scope(
        t,
        backend,
        session,
        RegistryScope::LoadFiles,
        &isd,
        &mut inv,
        cut2,
    );
    let ghost m3 = now(*t, *backend, *session);
    let ghost s3 = choose|steps: Seq<Step>| #[trigger]
        collected(
            m2,
            m3,
            steps,
            after_steps(inv2, cut2, RegistryScope::LoadFiles, isd@, steps),
            inv@,
            third,
        );
    proof {
        lemma_then(m0, m2, m3, s1 + s2, s3);
        assert(performed_thrice(m0, m3, s1, s2, s3));
    }
    let truncated: bool = third?;
    Ok(inventory_report(inv, isd, truncated))
}

} // verus!
