//! The card's life cycle and its registry.
use vstd::prelude::*;

use crate::error::{ScllError, WarningKind};
use crate::laws::commands::law_short_command;
use crate::lifecycle::{life_cycle_byte, transition, TransitionPlan};
use crate::limits::{MAX_APPLETS, MAX_ELFS, MAX_MODULES_PER_ELF, MAX_SDS, MAX_STATUS_PAGES};
use crate::model::InventoryRecord;
use crate::report::{
    CardLifeCycle, GetCardInventoryReport, GetCardStatusReport, SetCardStatusReport,
};
use crate::response::{registry, reported_state, RegistryRecord};
use crate::tlv::{tlv_objects, TlvError};
use crate::workflow::card_status::{
    is_irreversible, page_command, page_commands, scope_from, scope_outcome, starting_state,
    status_change, status_reported, SetCardStatusArgs,
};
use crate::workflow::inventory::{
    application_of, domain_of, inventory_read, inventory_reported, is_security_domain, load_file_of,
    named_aid, no_objects, shaped_aids, with_record, with_records, RegistryScope,
};
use crate::workflow::session::{commands, outcomes, step_outcome, Answer, Step};

verus! {

// ---- Life cycle ------------------------------------------------------------

/// The byte of each state.
pub proof fn law_state_bytes(state: CardLifeCycle)
    ensures
        state is OpReady ==> life_cycle_byte(state) == 0x01,
        state is Initialized ==> life_cycle_byte(state) == 0x07,
        state is Secured ==> life_cycle_byte(state) == 0x0F,
        state is CardLocked ==> life_cycle_byte(state) == 0x7F,
        state is Terminated ==> life_cycle_byte(state) == 0xFF,
        state matches CardLifeCycle::Unknown(b) ==> life_cycle_byte(state) == b,
{
}

/// The changes of state: which go, with which byte, and which do not.
pub proof fn law_changes_of_state(current: CardLifeCycle, target: CardLifeCycle, force: bool)
    ensures
        current is OpReady && target is Initialized ==> transition(current, target, force) == Ok::<
            TransitionPlan,
            ScllError,
        >(TransitionPlan::Apply { p2: 0x07 }),
        (current is Initialized || current is CardLocked || current is OpReady && force)
            && target is Secured ==> transition(current, target, force) == Ok::<
            TransitionPlan,
            ScllError,
        >(TransitionPlan::Apply { p2: 0x0F }),
        current is Secured && target is CardLocked ==> transition(current, target, force) == Ok::<
            TransitionPlan,
            ScllError,
        >(TransitionPlan::Apply { p2: 0x7F }),
        current == target && (target is OpReady || target is Initialized || target is Secured
            || target is CardLocked) ==> transition(current, target, force) == Ok::<
            TransitionPlan,
            ScllError,
        >(TransitionPlan::NoOp),
        target is Terminated ==> transition(current, target, force) == Err::<
            TransitionPlan,
            ScllError,
        >(ScllError::TerminateOutOfScope),
        target is Unknown ==> transition(current, target, force) == Err::<
            TransitionPlan,
            ScllError,
        >(ScllError::IllegalLifecycleTransition),
        target is OpReady && current != target ==> transition(current, target, force) == Err::<
            TransitionPlan,
            ScllError,
        >(ScllError::IllegalLifecycleTransition),
        target is Initialized && current != target && !(current is OpReady) ==> transition(
            current,
            target,
            force,
        ) == Err::<TransitionPlan, ScllError>(ScllError::IllegalLifecycleTransition),
        target is Secured && (current is OpReady && !force || current is Terminated
            || current is Unknown) ==> transition(current, target, force) == Err::<
            TransitionPlan,
            ScllError,
        >(ScllError::IllegalLifecycleTransition),
        target is CardLocked && current != target && !(current is Secured) ==> transition(
            current,
            target,
            force,
        ) == Err::<TransitionPlan, ScllError>(ScllError::IllegalLifecycleTransition),
{
}

// ---- Reading a scope -------------------------------------------------------

/// GET STATUS: `80 F2`, the scope, `02` for the first page and `03` for every other, `02 4F
/// 00`, and `00`.
pub proof fn law_get_status_command(p1: u8, page: int)
    ensures
        page_command(p1, page) == seq![
            0x80u8,
            0xF2u8,
            p1,
            if page == 0 {
                0x02u8
            } else {
                0x03u8
            },
            0x02u8,
            0x4Fu8,
            0x00u8,
            0x00u8,
        ],
{
    let p2: u8 = if page == 0 {
        0x02
    } else {
        0x03
    };
    assert(page_command(p1, page) =~= seq![
        0x80u8,
        0xF2u8,
        p1,
        p2,
        0x02u8,
        0x4Fu8,
        0x00u8,
        0x00u8,
    ]);
}

/// The commands of a scope are one GET STATUS for each page, in their order.
pub proof fn law_scope_commands(p1: u8, steps: Seq<Step>, i: int)
    requires
        scope_outcome(p1, steps) is Some,
        0 <= i < steps.len(),
    ensures
        steps[i].command == page_command(p1, i),
        steps.len() <= MAX_STATUS_PAGES,
{
    assert(commands(steps)[i] == page_commands(p1, steps.len())[i]);
    lemma_page_count(outcomes(steps), 0, Seq::empty(), 0);
}

proof fn lemma_page_count(
    answers: Seq<Result<Answer, ScllError>>,
    page: nat,
    buf: Seq<u8>,
    good: nat,
)
    requires
        scope_from(answers, page, buf, good) is Some,
        page <= MAX_STATUS_PAGES,
    ensures
        page + answers.len() <= MAX_STATUS_PAGES,
    decreases answers.len(),
{
    if answers.len() > 0 {
        if let Ok(a) = answers[0] {
            if a.sw == 0x6310 {
                let all = buf + a.data;
                let known = if tlv_objects(all) is Ok {
                    all.len()
                } else {
                    good
                };
                lemma_page_count(answers.skip(1), page + 1, all, known);
            }
        }
    }
}

/// What one answer, the first, leads to: `9000` ends the scope with the data, where they
/// are whole objects; `6A88` means that it is empty; `6310` asks for more; any other status
/// word is a failure, and so is a failed exchange.
pub proof fn law_scope_ends(a: Answer, e: ScllError)
    ensures
        a.sw == 0x9000 && tlv_objects(a.data) is Ok ==> scope_from(
            seq![Ok::<Answer, ScllError>(a)],
            0,
            Seq::empty(),
            0,
        ) == Some(Ok::<(Seq<u8>, bool), ScllError>((a.data, false))),
        a.sw == 0x6A88 ==> scope_from(
            seq![Ok::<Answer, ScllError>(a)],
            0,
            Seq::empty(),
            0,
        ) == Some(Ok::<(Seq<u8>, bool), ScllError>((Seq::empty(), false))),
        a.sw == 0x6310 ==> scope_from(
            seq![Ok::<Answer, ScllError>(a)],
            0,
            Seq::empty(),
            0,
        ) is None,
        a.sw != 0x9000 && a.sw != 0x6A88 && a.sw != 0x6310 ==> (scope_from(
            seq![Ok::<Answer, ScllError>(a)],
            0,
            Seq::empty(),
            0,
        ) matches Some(Err(_))),
        scope_from(seq![Err::<Answer, ScllError>(e)], 0, Seq::empty(), 0) == Some(
            Err::<(Seq<u8>, bool), ScllError>(e),
        ),
{
    reveal_with_fuel(scope_from, 2);
    assert(Seq::<u8>::empty() + a.data =~= a.data);
    assert(seq![Ok::<Answer, ScllError>(a)].skip(1) =~= Seq::empty());
}

// ---- The card's state ------------------------------------------------------

/// What is reported of the card's state is what the card said; where it said nothing the
/// state is unknown and there is a remark, and a byte without a meaning is a remark too.
pub proof fn law_status_report(
    r: Result<GetCardStatusReport, ScllError>,
    data: Seq<u8>,
    isd_aid: Seq<u8>,
    state: CardLifeCycle,
)
    requires
        status_reported(r, Ok((data, false)), isd_aid),
        5 <= isd_aid.len() <= 16,
    ensures
        reported_state(data) == Ok::<Option<CardLifeCycle>, TlvError>(Some(state)) ==> (
        r matches Ok(report) && {
            &&& report.state == state
            &&& report.effective.decoded_state == state
            &&& report.effective.raw_state_byte == life_cycle_byte(state)
            &&& report.effective.isd_aid@ == isd_aid
            &&& state matches CardLifeCycle::Unknown(b) ==> report.warnings@.len() == 1
                && report.warnings@[0].kind == WarningKind::UnknownLifecycleByte(b)
            &&& !(state is Unknown) ==> report.warnings@.len() == 0
        }),
        reported_state(data) == Ok::<Option<CardLifeCycle>, TlvError>(None) ==> (
        r matches Ok(report) && {
            &&& report.state == CardLifeCycle::Unknown(0)
            &&& report.warnings@.len() == 1
            &&& report.warnings@[0].kind is GetStatusParseFailed
        }),
        reported_state(data) is Err ==> r is Err,
{
}

/// Only what leads on towards `SECURED` cannot be undone; locking and unlocking can.
pub proof fn law_what_cannot_be_undone(current: CardLifeCycle, target: CardLifeCycle)
    ensures
        is_irreversible(current, target) <==> (target is Initialized || target is Secured) && !(
        current is CardLocked),
{
}

/// Setting the state sends, where it sends anything, `84 F0 80`, the byte of the new state,
/// the length of the issuer's identifier and the identifier, once. Success means that the
/// card said `9000`, or that it was in that state; `6985` means that it does not allow the
/// change. The report says from where to where.
pub proof fn law_set_status(
    args: SetCardStatusArgs<'_>,
    first: Seq<Step>,
    second: Seq<Step>,
    r: Result<SetCardStatusReport, ScllError>,
    current: CardLifeCycle,
)
    requires
        status_change(args, first, second, r),
        starting_state(args, first) == Some(Ok::<CardLifeCycle, ScllError>(current)),
        0 < args.isd_aid@.len() <= 255,
    ensures
        args.current_state matches Some(s) ==> current == s && first.len() == 0,
        second.len() > 0 ==> {
            let s = second[0].command;
            &&& second.len() == 1
            &&& s.len() == 5 + args.isd_aid@.len()
            &&& s[0] == 0x84 && s[1] == 0xF0 && s[2] == 0x80
            &&& s[3] == life_cycle_byte(args.target_state)
            &&& s[4] == args.isd_aid@.len()
            &&& s.skip(5) == args.isd_aid@
            &&& r is Ok <==> (step_outcome(second[0]) matches Ok(a) && a.sw == 0x9000)
            &&& (step_outcome(second[0]) matches Ok(a) && a.sw == 0x6985) ==> r == Err::<
                SetCardStatusReport,
                ScllError,
            >(ScllError::IllegalLifecycleTransition)
        },
        second.len() == 0 && r is Ok ==> current == args.target_state,
        r matches Ok(report) ==> {
            let e = report.effective;
            &&& e.state_before == current
            &&& e.target_state == args.target_state
            &&& e.p1_status_type == 0x80
            &&& e.p2_state_byte == life_cycle_byte(args.target_state)
            &&& e.was_no_op == (second.len() == 0)
            &&& e.force_used == args.force
            &&& e.irreversible == is_irreversible(current, args.target_state)
            &&& second.len() == 0 ==> report.warnings@.len() == 1
                && report.warnings@[0].kind is LifecycleNoOp
            &&& second.len() > 0 ==> report.warnings@.len() == 0
        },
{
    if second.len() > 0 {
        let p2 = transition(current, args.target_state, args.force)->Ok_0->Apply_p2;
        law_short_command(0x84, 0xF0, 0x80, p2, args.isd_aid@, false);
        let s = second[0].command;
        assert(s.skip(5) =~= args.isd_aid@) by {
            assert(s.subrange(5, 5 + args.isd_aid@.len() as int) == args.isd_aid@);
            assert(s.skip(5) =~= s.subrange(5, 5 + args.isd_aid@.len() as int));
        }
    }
}

// ---- The inventory ---------------------------------------------------------

/// The three scopes, by P1 of GET STATUS.
pub proof fn law_scopes(scope: RegistryScope)
    ensures
        scope is Issuer ==> scope.p1_of() == 0x80,
        scope is Applications ==> scope.p1_of() == 0x40,
        scope is LoadFiles ==> scope.p1_of() == 0x10,
{
}

/// A record is a security domain where the highest bit of its first privilege is set.
pub proof fn law_security_domain_bit(rec: RegistryRecord)
    ensures
        is_security_domain(rec) <==> rec.privileges[0] >= 0x80,
{
    let b = rec.privileges[0];
    assert(b & 0x80 != 0 <==> b >= 0x80) by (bit_vector);
}

/// An identifier that a record names counts where it has 5 to 16 octets.
pub proof fn law_named_identifiers(aid: Seq<u8>)
    ensures
        5 <= aid.len() <= 16 ==> named_aid(Some(aid)) == Some(aid),
        !(5 <= aid.len() <= 16) ==> named_aid(Some(aid)) is None,
        named_aid(None) is None,
{
}

/// What is listed of a record, field by field. An application or a load file without a
/// security domain belongs to the issuer's.
pub proof fn law_listed_fields(
    rec: RegistryRecord,
    aid: Seq<u8>,
    parent: Option<Seq<u8>>,
    isd: Seq<u8>,
)
    ensures
        ({
            let d = domain_of(rec, aid, parent);
            &&& d.aid == aid
            &&& d.life_cycle_state == rec.life_cycle
            &&& d.privileges == rec.privileges
            &&& d.associated_sd_aid == parent
        }),
        ({
            let a = application_of(rec, isd);
            &&& a.aid == rec.aid
            &&& a.life_cycle_state == rec.life_cycle
            &&& a.privileges == rec.privileges
            &&& a.associated_elf_aid == named_aid(rec.elf_aid)
            &&& a.associated_sd_aid == (match named_aid(rec.associated_sd_aid) {
                Some(sd) => sd,
                None => isd,
            })
        }),
        ({
            let f = load_file_of(rec, isd);
            let modules = rec.modules.filter(|m: Seq<u8>| 5 <= m.len() <= 16);
            &&& f.aid == rec.aid
            &&& f.life_cycle_state == rec.life_cycle
            &&& f.associated_sd_aid == (match named_aid(rec.associated_sd_aid) {
                Some(sd) => sd,
                None => isd,
            })
            &&& modules.len() <= MAX_MODULES_PER_ELF ==> f.modules == modules
            &&& modules.len() > MAX_MODULES_PER_ELF ==> f.modules == modules.take(
                MAX_MODULES_PER_ELF as int,
            )
        }),
{
    lemma_shaped(rec.modules);
}

proof fn lemma_shaped(aids: Seq<Seq<u8>>)
    ensures
        shaped_aids(aids) == aids.filter(|m: Seq<u8>| 5 <= m.len() <= 16),
    decreases aids.len(),
{
    reveal(Seq::filter);
    let p = |m: Seq<u8>| 5 <= m.len() <= 16;
    if aids.len() > 0 {
        lemma_shaped(aids.drop_last());
    }
    assert(shaped_aids(aids) =~= aids.filter(p));
}

/// A record that lists an application.
pub open spec fn is_application(rec: RegistryRecord, isd: Seq<u8>) -> bool {
    rec.aid != isd && 5 <= rec.aid.len() <= 16 && rec.privileges[0] < 0x80
}

/// A record that lists a supplementary security domain.
pub open spec fn is_other_domain(rec: RegistryRecord, isd: Seq<u8>) -> bool {
    rec.aid != isd && 5 <= rec.aid.len() <= 16 && rec.privileges[0] >= 0x80
}

/// Where there is room, the second scope adds exactly its applications to the one list and
/// exactly its security domains to the other, in their order.
pub proof fn law_applications_in_order(
    inv: InventoryRecord,
    isd: Seq<u8>,
    records: Seq<RegistryRecord>,
)
    requires
        with_records(inv, RegistryScope::Applications, isd, records).1,
    ensures
        ({
            let after = with_records(inv, RegistryScope::Applications, isd, records).0;
            &&& after.applets == inv.applets + records.filter(
                |r: RegistryRecord| is_application(r, isd),
            ).map_values(|r: RegistryRecord| application_of(r, isd))
            &&& after.security_domains == inv.security_domains + records.filter(
                |r: RegistryRecord| is_other_domain(r, isd),
            ).map_values(
                |r: RegistryRecord| domain_of(r, r.aid, named_aid(r.associated_sd_aid)),
            )
            &&& after.elfs == inv.elfs
        }),
    decreases records.len(),
{
    reveal(Seq::filter);
    let app = |r: RegistryRecord| is_application(r, isd);
    let dom = |r: RegistryRecord| is_other_domain(r, isd);
    let to_app = |r: RegistryRecord| application_of(r, isd);
    let to_dom = |r: RegistryRecord| domain_of(r, r.aid, named_aid(r.associated_sd_aid));
    let after = with_records(inv, RegistryScope::Applications, isd, records).0;
    if records.len() > 0 {
        let init = records.drop_last();
        let rec = records.last();
        law_applications_in_order(inv, isd, init);
        law_security_domain_bit(rec);
        if app(rec) {
            assert(records.filter(app) =~= init.filter(app).push(rec));
        }
        if dom(rec) {
            assert(records.filter(dom) =~= init.filter(dom).push(rec));
        }
    }
    assert(after.applets =~= inv.applets + records.filter(app).map_values(to_app));
    assert(after.security_domains =~= inv.security_domains + records.filter(dom).map_values(
        to_dom,
    ));
}

/// Where there is room, the third scope adds exactly its load files, in their order.
pub proof fn law_load_files_in_order(
    inv: InventoryRecord,
    isd: Seq<u8>,
    records: Seq<RegistryRecord>,
)
    requires
        with_records(inv, RegistryScope::LoadFiles, isd, records).1,
    ensures
        ({
            let after = with_records(inv, RegistryScope::LoadFiles, isd, records).0;
            &&& after.elfs == inv.elfs + records.filter(
                |r: RegistryRecord| 5 <= r.aid.len() <= 16,
            ).map_values(|r: RegistryRecord| load_file_of(r, isd))
            &&& after.applets == inv.applets
            &&& after.security_domains == inv.security_domains
        }),
    decreases records.len(),
{
    reveal(Seq::filter);
    let p = |r: RegistryRecord| 5 <= r.aid.len() <= 16;
    let to = |r: RegistryRecord| load_file_of(r, isd);
    let after = with_records(inv, RegistryScope::LoadFiles, isd, records).0;
    if records.len() > 0 {
        let init = records.drop_last();
        let rec = records.last();
        law_load_files_in_order(inv, isd, init);
        if p(rec) {
            assert(records.filter(p) =~= init.filter(p).push(rec));
        }
    }
    assert(after.elfs =~= inv.elfs + records.filter(p).map_values(to));
}

/// Where there is room, the first scope adds a security domain without a parent for each
/// record, under the issuer's identifier where the record has none that is one.
pub proof fn law_issuer_records_in_order(
    inv: InventoryRecord,
    isd: Seq<u8>,
    records: Seq<RegistryRecord>,
)
    requires
        with_records(inv, RegistryScope::Issuer, isd, records).1,
    ensures
        ({
            let after = with_records(inv, RegistryScope::Issuer, isd, records).0;
            &&& after.security_domains == inv.security_domains + records.map_values(
                |r: RegistryRecord|
                    domain_of(
                        r,
                        if 5 <= r.aid.len() <= 16 {
                            r.aid
                        } else {
                            isd
                        },
                        None,
                    ),
            )
            &&& after.applets == inv.applets
            &&& after.elfs == inv.elfs
        }),
    decreases records.len(),
{
    let to = |r: RegistryRecord|
        domain_of(
            r,
            if 5 <= r.aid.len() <= 16 {
                r.aid
            } else {
                isd
            },
            None,
        );
    let after = with_records(inv, RegistryScope::Issuer, isd, records).0;
    if records.len() > 0 {
        law_issuer_records_in_order(inv, isd, records.drop_last());
        assert(records.map_values(to) =~= records.drop_last().map_values(to).push(
            to(records.last()),
        ));
    }
    assert(after.security_domains =~= inv.security_domains + records.map_values(to));
}

/// A record that finds no room is told: something is missing exactly where a list is full,
/// or where a load file has more modules than are kept.
pub proof fn law_missing_records_are_told(
    inv: InventoryRecord,
    scope: RegistryScope,
    isd: Seq<u8>,
    rec: RegistryRecord,
)
    ensures
        with_record(inv, scope, isd, rec).1 <==> match scope {
            RegistryScope::Issuer => inv.security_domains.len() < MAX_SDS,
            RegistryScope::Applications => {
                &&& is_other_domain(rec, isd) ==> inv.security_domains.len() < MAX_SDS
                &&& is_application(rec, isd) ==> inv.applets.len() < MAX_APPLETS
            },
            RegistryScope::LoadFiles => 5 <= rec.aid.len() <= 16 ==> inv.elfs.len() < MAX_ELFS
                && !rec.more_modules,
        },
{
    law_security_domain_bit(rec);
}

/// The inventory is read from the three scopes in their order, each added to what was
/// there; something is missing where any of them says so.
pub proof fn law_inventory_is_all_scopes(
    isd: Seq<u8>,
    s1: Seq<Step>,
    s2: Seq<Step>,
    s3: Seq<Step>,
    d1: (Seq<u8>, bool),
    d2: (Seq<u8>, bool),
    d3: (Seq<u8>, bool),
    r1: Seq<RegistryRecord>,
    r2: Seq<RegistryRecord>,
    r3: Seq<RegistryRecord>,
)
    requires
        scope_outcome(0x80, s1) == Some(Ok::<(Seq<u8>, bool), ScllError>(d1)),
        scope_outcome(0x40, s2) == Some(Ok::<(Seq<u8>, bool), ScllError>(d2)),
        scope_outcome(0x10, s3) == Some(Ok::<(Seq<u8>, bool), ScllError>(d3)),
        registry(d1.0) == Ok::<Seq<RegistryRecord>, TlvError>(r1),
        registry(d2.0) == Ok::<Seq<RegistryRecord>, TlvError>(r2),
        registry(d3.0) == Ok::<Seq<RegistryRecord>, TlvError>(r3),
    ensures
        ({
            let (a, k1) = with_records(no_objects(), RegistryScope::Issuer, isd, r1);
            let (b, k2) = with_records(a, RegistryScope::Applications, isd, r2);
            let (c, k3) = with_records(b, RegistryScope::LoadFiles, isd, r3);
            inventory_read(isd, s1, s2, s3) == Some(
                Ok::<(InventoryRecord, bool), ScllError>(
                    (c, d1.1 || d2.1 || d3.1 || !k1 || !k2 || !k3),
                ),
            )
        }),
        no_objects().security_domains.len() == 0,
        no_objects().applets.len() == 0,
        no_objects().elfs.len() == 0,
{
}

/// What is reported of an inventory: the lists, how long they are, and whether something
/// is missing.
pub proof fn law_inventory_report(
    r: Result<GetCardInventoryReport, ScllError>,
    isd: Seq<u8>,
    inv: InventoryRecord,
    truncated: bool,
)
    requires
        inventory_reported(r, isd, Ok((inv, truncated))),
    ensures
        r matches Ok(report) && {
            &&& report.inventory@ == inv
            &&& report.effective.isd_aid@ == isd
            &&& report.effective.security_domain_count == inv.security_domains.len()
            &&& report.effective.application_count == inv.applets.len()
            &&& report.effective.elf_count == inv.elfs.len()
            &&& report.effective.truncated == truncated
            &&& truncated ==> report.warnings@.len() == 1
                && report.warnings@[0].kind is InventoryTruncated
            &&& !truncated ==> report.warnings@.len() == 0
        },
{
}

/// A scope that cannot be read ends the reading: no later scope is asked for, and the
/// failure is that of the scope.
pub proof fn law_inventory_stops_at_a_failure(
    isd: Seq<u8>,
    s1: Seq<Step>,
    s2: Seq<Step>,
    s3: Seq<Step>,
    e: ScllError,
)
    requires
        inventory_read(isd, s1, s2, s3) is Some,
    ensures
        scope_outcome(0x80, s1) == Some(Err::<(Seq<u8>, bool), ScllError>(e)) ==> s2.len() == 0
            && s3.len() == 0 && inventory_read(isd, s1, s2, s3)->Some_0 == Err::<
            (InventoryRecord, bool),
            ScllError,
        >(e),
        s1.len() > 0,
        scope_outcome(0x80, s1) is Some,
        s2.len() > 0 ==> scope_outcome(0x80, s1)->Some_0 is Ok,
        s2.len() > 0 && scope_outcome(0x40, s2) == Some(Err::<(Seq<u8>, bool), ScllError>(e))
            ==> s3.len() == 0 && inventory_read(isd, s1, s2, s3)->Some_0 == Err::<
            (InventoryRecord, bool),
            ScllError,
        >(e),
        s3.len() > 0 ==> scope_outcome(0x40, s2) is Some && scope_outcome(0x40, s2)->Some_0 is Ok,
        s3.len() > 0 && scope_outcome(0x10, s3) == Some(Err::<(Seq<u8>, bool), ScllError>(e))
            ==> inventory_read(isd, s1, s2, s3)->Some_0 == Err::<
            (InventoryRecord, bool),
            ScllError,
        >(e),
{
    if s1.len() == 0 {
        assert(outcomes(s1).len() == 0);
    }
}

} // verus!
