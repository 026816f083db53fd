//! Data model of the wallet-check pipeline: the inbound request, the risk
//! record with its pending/resolved lifecycle, the prediction wire shapes,
//! and the outbound response.

use vstd::prelude::*;

verus! {

/// Inbound request body: the raw address to check.
pub struct WalletCheckRequest {
    pub address: String,
}

/// Payload sent to the external scoring service.
pub struct AIPredictionRequest {
    pub address: String,
    pub subnet_id: Option<String>,
}

/// Verdict returned by the external scoring service.
pub struct AIPredictionResponse {
    pub risk_level: String,
    pub reason: String,
    pub ipc_specific_flags: Option<Vec<String>>,
}

/// Response to the caller after a completed check.
#[derive(Debug)]
pub struct WalletCheckResponse {
    pub address: String,
    pub subnet_id: Option<String>,
    pub timestamp: i64,
    pub risk_level: String,
    pub reason: String,
    pub ipc_specific_flags: Option<Vec<String>>,
}

/// One risk assessment attempt. Created *pending* (verdict fields absent)
/// before any external call is made; *resolved* once a verdict is attached.
/// A record that stays pending forever is an orphan, a documented condition
/// rather than a fault.
pub struct WalletCheck {
    /// Store-assigned identity; absent until first persisted.
    pub id: Option<u64>,
    /// Subject address, immutable after creation.
    pub address: String,
    /// Subnet identifier when the address was composite; set at creation.
    pub subnet_id: Option<String>,
    /// Creation time in milliseconds, immutable.
    pub timestamp: i64,
    /// Risk level of the verdict; absent while the record is pending.
    pub risk_level: Option<String>,
    /// Reason text of the verdict; absent while the record is pending.
    pub reason: Option<String>,
    /// Domain-specific flags of the verdict; absent while the record is
    /// pending, and an empty list is normalized to absent.
    pub ipc_specific_flags: Option<Vec<String>>,
}

/// Mathematical model of a risk record.
pub ghost struct WalletCheckView {
    pub id: Option<u64>,
    pub address: Seq<char>,
    pub subnet_id: Option<Seq<char>>,
    pub timestamp: int,
    pub risk_level: Option<Seq<char>>,
    pub reason: Option<Seq<char>>,
    pub ipc_specific_flags: Option<Seq<Seq<char>>>,
}

impl View for WalletCheck {
    type V = WalletCheckView;

    open spec fn view(&self) -> WalletCheckView {
        WalletCheckView {
            id: self.id,
            address: self.address@,
            subnet_id: self.subnet_id.deep_view(),
            timestamp: self.timestamp as int,
            risk_level: self.risk_level.deep_view(),
            reason: self.reason.deep_view(),
            ipc_specific_flags: self.ipc_specific_flags.deep_view(),
        }
    }
}

impl WalletCheckView {
    /// A record that has not received its verdict.
    pub open spec fn pending(self) -> bool {
        &&& self.risk_level is None
        &&& self.reason is None
        &&& self.ipc_specific_flags is None
    }
}

/// Relies on `chrono::Utc::now` and `chrono::DateTime::timestamp_millis` for
/// the current wall-clock time; nothing is promised of the value returned.
/// `Utc::now` panics if the system clock stands before the Unix epoch — an
/// environmental condition no precondition can exclude.
#[verifier::external_body]
pub(crate) fn now_millis() -> i64 {
    chrono::Utc::now().timestamp_millis()
}

impl WalletCheck {
    /// Fresh pending record with a given creation time; identity and all
    /// verdict fields absent.
    pub fn new_at(address: String, subnet_id: Option<String>, timestamp: i64) -> (r: Self)
        ensures
            r@ == (WalletCheckView {
                id: None,
                address: address@,
                subnet_id: subnet_id.deep_view(),
                timestamp: timestamp as int,
                risk_level: None,
                reason: None,
                ipc_specific_flags: None,
            }),
    {
        WalletCheck {
            id: None,
            address,
            subnet_id,
            timestamp,
            risk_level: None,
            reason: None,
            ipc_specific_flags: None,
        }
    }

    /// Fresh pending record stamped with the clock. The creation time is
    /// whatever the clock returned; everything else is pinned.
    pub fn new(address: String, subnet_id: Option<String>) -> (r: Self)
        ensures
            r@.id is None,
            r@.address == address@,
            r@.subnet_id == subnet_id.deep_view(),
            r@.pending(),
    {
        let timestamp = now_millis();
        WalletCheck::new_at(address, subnet_id, timestamp)
    }

    /// Field-for-field copy of the record.
    pub fn duplicate(&self) -> (r: Self)
        ensures
            r@ == self@,
    {
        WalletCheck {
            id: self.id,
            address: self.address.clone(),
            subnet_id: clone_opt_string(&self.subnet_id),
            timestamp: self.timestamp,
            risk_level: clone_opt_string(&self.risk_level),
            reason: clone_opt_string(&self.reason),
            ipc_specific_flags: match &self.ipc_specific_flags {
                Some(v) => Some(clone_strings(v)),
                None => None,
            },
        }
    }
}

pub(crate) fn clone_opt_string(v: &Option<String>) -> (r: Option<String>)
    ensures
        r == *v,
{
    match v {
        Some(s) => Some(s.clone()),
        None => None,
    }
}

pub(crate) fn clone_strings(v: &Vec<String>) -> (r: Vec<String>)
    ensures
        r@ == v@,
{
    let mut out: Vec<String> = Vec::new();
    let mut i: usize = 0;
    while i < v.len()
        invariant
            0 <= i <= v@.len(),
            out@.len() == i,
            forall|k: int| 0 <= k < i ==> out@[k] == v@[k],
        decreases v@.len() - i,
    {
        out.push(v[i].clone());
        i += 1;
    }
    proof {
        assert(out@ =~= v@);
    }
    out
}

} // verus!
