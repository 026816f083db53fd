//! Orchestrator of the wallet-check pipeline.
//!
//! Each check walks `Received → Validated → Recorded → Predicted →
//! Reconciled → Responded`, with a failure exit at every arrow. The two
//! phases that stand here are the decisions; the outbound scoring call
//! between them is outside work whose outcome is handed back in:
//!
//! - `begin_check` validates the address and creates the pending record. An
//!   invalid address is answered at once and writes nothing; a valid one is
//!   durably recorded before any external call may be made, so an audit
//!   trail exists for every attempted prediction.
//! - `complete_check` takes what the prediction step produced. A verdict is
//!   reconciled into the store and echoed to the caller; any fault is
//!   surfaced as a server fault and leaves the created record pending
//!   forever — an orphan, accepted and documented, never deleted to
//!   compensate.

use vstd::prelude::*;

use crate::db::{insert_index, last_match, reconciled, stamped, DbClient};
use crate::ipc::{
    extract_subnet_id, is_valid_ipc_address, subnet_part, valid_address, valid_composite_address,
};
use crate::models::{
    clone_opt_string, clone_strings, now_millis, AIPredictionRequest, AIPredictionResponse,
    WalletCheck, WalletCheckResponse, WalletCheckView,
};

verus! {

/// Failure exits of the pipeline. A malformed address is a client-input
/// error with no side effects; everything else is an internal fault, the
/// external-service kinds kept distinct: unreachable, reachable-but-rejected,
/// and malformed-response.
#[derive(Debug)]
pub enum CheckError {
    InvalidAddress,
    StoreFault,
    ServiceUnreachable,
    ServiceRejected,
    MalformedResponse,
}

/// The HTTP status an error surfaces as.
pub open spec fn spec_status_code(e: CheckError) -> int {
    match e {
        CheckError::InvalidAddress => 400,
        _ => 500,
    }
}

impl CheckError {
    /// Client-input errors answer 400; every internal, store, or
    /// external-service fault answers 500.
    pub fn status_code(&self) -> (s: u16)
        ensures
            s == spec_status_code(*self),
    {
        match self {
            CheckError::InvalidAddress => 400,
            _ => 500,
        }
    }
}

/// What the prediction step handed back: a parsed verdict, or one of the
/// three distinct fault kinds.
pub enum PredictionOutcome {
    Verdict(AIPredictionResponse),
    ServiceRejected,
    ServiceUnreachable,
    MalformedResponse,
}

/// The in-flight state of one check between record creation and
/// reconciliation: the validated address and its subnet identifier. The
/// orchestrator owns this; the store owns the record itself.
pub struct PendingCheck {
    pub address: String,
    pub subnet_id: Option<String>,
}

/// Subnet identifier a valid address carries: present exactly for the
/// composite form.
pub open spec fn spec_subnet_of(s: Seq<char>) -> Option<Seq<char>> {
    if valid_composite_address(s) {
        Some(subnet_part(s))
    } else {
        None
    }
}

/// The pending record created for a validated address at a given time.
pub open spec fn pending_record(addr: Seq<char>, now: int) -> WalletCheckView {
    WalletCheckView {
        id: None,
        address: addr,
        subnet_id: spec_subnet_of(addr),
        timestamp: now,
        risk_level: None,
        reason: None,
        ipc_specific_flags: None,
    }
}

/// Payload for the outbound scoring call: the address and its optional
/// subnet identifier, exactly as validated.
pub fn prediction_request(p: &PendingCheck) -> (r: AIPredictionRequest)
    ensures
        r.address@ == p.address@,
        r.subnet_id.deep_view() == p.subnet_id.deep_view(),
{
    AIPredictionRequest {
        address: p.address.clone(),
        subnet_id: clone_opt_string(&p.subnet_id),
    }
}

/// `Received → Validated → Recorded`, with a given creation time: rejects a
/// malformed address before anything is written, and otherwise records the
/// pending check before any external call is allowed to happen.
pub fn begin_check_at(db: &mut DbClient, raw: &str, now: i64) -> (r: Result<
    PendingCheck,
    CheckError,
>)
    requires
        old(db).inv(),
    ensures
        final(db).inv(),
        !valid_address(raw@) ==> (r matches Err(CheckError::InvalidAddress) && final(db)@ == old(db)@),
        valid_address(raw@) ==> (r matches Ok(p) && p.address@ == raw@
            && p.subnet_id.deep_view() == spec_subnet_of(raw@) && exists|ident: u64|
            final(db)@ == old(db)@.insert(
                insert_index(old(db)@, now as int),
                #[trigger] stamped(pending_record(raw@, now as int), ident),
            )),
{
    if !is_valid_ipc_address(raw) {
        return Err(CheckError::InvalidAddress);
    }
    let subnet_id = extract_subnet_id(raw);
    let pending = PendingCheck { address: raw.to_owned(), subnet_id };
    let record = WalletCheck::new_at(
        pending.address.clone(),
        clone_opt_string(&pending.subnet_id),
        now,
    );
    proof {
        assert(record@ == pending_record(raw@, now as int));
    }
    match db.insert_wallet_check(record) {
        Ok(()) => Ok(pending),
        Err(_) => Err(CheckError::StoreFault),
    }
}

/// `Received → Validated → Recorded`, stamped with the clock. Everything but
/// the creation time is pinned; the record lands wherever its time orders it.
pub fn begin_check(db: &mut DbClient, raw: &str) -> (r: Result<PendingCheck, CheckError>)
    requires
        old(db).inv(),
    ensures
        final(db).inv(),
        !valid_address(raw@) ==> (r matches Err(CheckError::InvalidAddress) && final(db)@ == old(db)@),
        valid_address(raw@) ==> (r matches Ok(p) && p.address@ == raw@
            && p.subnet_id.deep_view() == spec_subnet_of(raw@) && exists|ts: int, ident: u64|
            final(db)@ == old(db)@.insert(
                insert_index(old(db)@, ts),
                #[trigger] stamped(pending_record(raw@, ts), ident),
            )),
{
    let now = now_millis();
    begin_check_at(db, raw, now)
}

/// `Recorded → Predicted → Reconciled → Responded`, with a given response
/// time. A verdict is reconciled into the most recent record for the address
/// and echoed back exactly; each prediction fault is surfaced as its own
/// server fault and leaves the store untouched — the record created for this
/// check stays pending, an orphan. The caller never learns a verdict that
/// was not durably recorded first.
pub fn complete_check_at(
    db: &mut DbClient,
    pending: PendingCheck,
    outcome: PredictionOutcome,
    now: i64,
) -> (r: Result<WalletCheckResponse, CheckError>)
    requires
        old(db).inv(),
    ensures
        final(db).inv(),
        outcome is ServiceRejected ==> (r matches Err(CheckError::ServiceRejected) && final(db)@
            == old(db)@),
        outcome is ServiceUnreachable ==> (r matches Err(CheckError::ServiceUnreachable)
            && final(db)@ == old(db)@),
        outcome is MalformedResponse ==> (r matches Err(CheckError::MalformedResponse)
            && final(db)@ == old(db)@),
        outcome matches PredictionOutcome::Verdict(v) ==> ({
            let lm = last_match(old(db)@, pending.address@);
            &&& lm < 0 ==> final(db)@ == old(db)@
            &&& lm >= 0 ==> final(db)@ == old(db)@.update(
                lm,
                reconciled(old(db)@[lm], v.risk_level@, v.reason@, v.ipc_specific_flags.deep_view()),
            )
            &&& r matches Ok(resp)
            &&& resp.address@ == pending.address@
            &&& resp.subnet_id.deep_view() == pending.subnet_id.deep_view()
            &&& resp.timestamp == now
            &&& resp.risk_level@ == v.risk_level@
            &&& resp.reason@ == v.reason@
            &&& resp.ipc_specific_flags.deep_view() == v.ipc_specific_flags.deep_view()
        }),
{
    match outcome {
        PredictionOutcome::ServiceRejected => Err(CheckError::ServiceRejected),
        PredictionOutcome::ServiceUnreachable => Err(CheckError::ServiceUnreachable),
        PredictionOutcome::MalformedResponse => Err(CheckError::MalformedResponse),
        PredictionOutcome::Verdict(v) => {
            let flags_for_store: Option<Vec<String>> = match &v.ipc_specific_flags {
                Some(fv) => Some(clone_strings(fv)),
                None => None,
            };
            let reconcile_result = db.update_wallet_check(
                pending.address.as_str(),
                v.risk_level.as_str(),
                v.reason.as_str(),
                flags_for_store,
            );
            match reconcile_result {
                Ok(()) => Ok(
                    WalletCheckResponse {
                        address: pending.address,
                        subnet_id: pending.subnet_id,
                        timestamp: now,
                        risk_level: v.risk_level,
                        reason: v.reason,
                        ipc_specific_flags: v.ipc_specific_flags,
                    },
                ),
                Err(_) => Err(CheckError::StoreFault),
            }
        },
    }
}

/// `Recorded → Predicted → Reconciled → Responded`, stamped with the clock:
/// as `complete_check_at`, with the response time whatever the clock said.
pub fn complete_check(
    db: &mut DbClient,
    pending: PendingCheck,
    outcome: PredictionOutcome,
) -> (r: Result<WalletCheckResponse, CheckError>)
    requires
        old(db).inv(),
    ensures
        final(db).inv(),
        outcome is ServiceRejected ==> (r matches Err(CheckError::ServiceRejected) && final(db)@
            == old(db)@),
        outcome is ServiceUnreachable ==> (r matches Err(CheckError::ServiceUnreachable)
            && final(db)@ == old(db)@),
        outcome is MalformedResponse ==> (r matches Err(CheckError::MalformedResponse)
            && final(db)@ == old(db)@),
        outcome matches PredictionOutcome::Verdict(v) ==> ({
            let lm = last_match(old(db)@, pending.address@);
            &&& lm < 0 ==> final(db)@ == old(db)@
            &&& lm >= 0 ==> final(db)@ == old(db)@.update(
                lm,
                reconciled(old(db)@[lm], v.risk_level@, v.reason@, v.ipc_specific_flags.deep_view()),
            )
            &&& r matches Ok(resp)
            &&& resp.address@ == pending.address@
            &&& resp.subnet_id.deep_view() == pending.subnet_id.deep_view()
            &&& resp.risk_level@ == v.risk_level@
            &&& resp.reason@ == v.reason@
            &&& resp.ipc_specific_flags.deep_view() == v.ipc_specific_flags.deep_view()
        }),
{
    let now = now_millis();
    complete_check_at(db, pending, outcome, now)
}

/// Law: the pipeline short-circuits on a malformed address — no record is
/// ever created for it. The created record of a valid check is pending: a
/// check whose prediction step then faults leaves exactly that one record,
/// the orphan, behind.
pub proof fn lemma_short_circuit_and_orphan(
    s: Seq<WalletCheckView>,
    raw: Seq<char>,
    now: int,
    ident: u64,
)
    ensures
        pending_record(raw, now).pending(),
        stamped(pending_record(raw, now), ident).pending(),
        stamped(pending_record(raw, now), ident).address == raw,
        s.insert(insert_index(s, now), stamped(pending_record(raw, now), ident)).len() == s.len()
            + 1,
{
    crate::db::lemma_insert_index_bounds(s, now);
    s.insert_ensures(insert_index(s, now), stamped(pending_record(raw, now), ident));
}

/// Law: a created check is reconciled onto its own record. When the record
/// created for `raw` at `now` is no older than anything stored, it is
/// appended; the reconcile lookup for the same address then finds exactly
/// that record — the most recent one — and the verdict lands on it, an empty
/// flag list rendered absent.
pub proof fn lemma_pipeline_create_then_reconcile(
    s: Seq<WalletCheckView>,
    raw: Seq<char>,
    now: int,
    ident: u64,
    risk: Seq<char>,
    reason: Seq<char>,
    flags: Option<Seq<Seq<char>>>,
)
    requires
        crate::db::sorted_by_timestamp(s),
        forall|j: int| 0 <= j < s.len() ==> s[j].timestamp <= now,
    ensures
        insert_index(s, now) == s.len(),
        ({
            let created = s.push(stamped(pending_record(raw, now), ident));
            let lm = last_match(created, raw);
            &&& lm == s.len()
            &&& created[lm].pending()
            &&& {
                let after = created.update(lm, reconciled(created[lm], risk, reason, flags));
                &&& after.last().address == raw
                &&& after.last().timestamp == now
                &&& after.last().risk_level == Some(risk)
                &&& after.last().reason == Some(reason)
                &&& after.last().ipc_specific_flags == crate::db::normalize_flags(flags)
                &&& (flags matches Some(fs) && fs.len() == 0) ==> after.last().ipc_specific_flags
                    is None
            }
        }),
{
    let rec = stamped(pending_record(raw, now), ident);
    crate::db::lemma_create_then_reconcile(s, rec, risk, reason, flags);
}

} // verus!
