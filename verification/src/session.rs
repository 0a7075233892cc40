//! The record of the last login, kept encrypted between runs.
use vstd::prelude::*;
use crate::text::{owned, str_equal};

verus! {

/// A point in time: seconds since the Unix epoch and nanoseconds within the second.
#[derive(PartialEq, Eq, Structural, Clone, Copy, Debug)]
pub struct Timestamp {
    pub secs: i64,
    pub nanos: u32,
}

/// What a login reports of the session.
pub struct SessionInfo {
    pub full_name: Option<String>,
    pub sitename: String,
    pub roles: Vec<String>,
}

/// The saved session.
pub struct SessionRecord {
    pub account: String,
    pub full_name: Option<String>,
    pub sitename: String,
    pub roles: Vec<String>,
    pub created_at: Timestamp,
    pub last_used_at: Timestamp,
}

/// The current time.
///
/// Trusted: `chrono::Utc::now`, read as whole seconds and sub-second nanoseconds;
/// nothing is claimed of the value.
#[verifier::external_body]
fn current_time() -> (res: Timestamp) {
    let now = chrono::Utc::now();
    Timestamp { secs: now.timestamp(), nanos: now.timestamp_subsec_nanos() }
}

/// The view of a list of strings.
pub open spec fn texts(v: Seq<String>) -> Seq<Seq<char>> {
    v.map_values(|s: String| s@)
}

/// The view of an optional string.
pub open spec fn opt_text_of(o: Option<String>) -> Option<Seq<char>> {
    match o {
        Some(s) => Some(s@),
        None => None,
    }
}

fn clone_texts(v: &Vec<String>) -> (res: Vec<String>)
    ensures
        texts(res@) == texts(v@),
{
    let mut out: Vec<String> = Vec::new();
    let mut i: usize = 0;
    while i < v.len()
        invariant
            i <= v@.len(),
            out@ == v@.take(i as int),
        decreases v@.len() - i,
    {
        out.push(v[i].clone());
        proof {
            assert(v@.take(i + 1) =~= v@.take(i as int).push(v@[i as int]));
            assert(out@ =~= v@.take(i + 1));
        }
        i = i + 1;
    }
    proof {
        assert(v@.take(i as int) =~= v@);
    }
    out
}

impl SessionRecord {
    /// The record of a login to `account` at time `now`: created and last used then.
    pub fn from_info_at(account: &str, info: &SessionInfo, now: Timestamp) -> (res: Self)
        ensures
            res.account@ == account@,
            opt_text_of(res.full_name) == opt_text_of(info.full_name),
            res.sitename@ == info.sitename@,
            texts(res.roles@) == texts(info.roles@),
            res.created_at == now,
            res.last_used_at == now,
    {
        SessionRecord {
            account: owned(account),
            full_name: match &info.full_name {
                Some(n) => Some(n.clone()),
                None => None,
            },
            sitename: info.sitename.clone(),
            roles: clone_texts(&info.roles),
            created_at: now,
            last_used_at: now,
        }
    }

    /// The record of a login to `account` now; created and last used at the same time.
    pub fn from_info(account: &str, info: &SessionInfo) -> (res: Self)
        ensures
            res.account@ == account@,
            opt_text_of(res.full_name) == opt_text_of(info.full_name),
            res.sitename@ == info.sitename@,
            texts(res.roles@) == texts(info.roles@),
            res.created_at == res.last_used_at,
    {
        let now = current_time();
        Self::from_info_at(account, info, now)
    }

    /// Whether the record belongs to `account`.
    pub fn matches_account(&self, account: &str) -> (res: bool)
        ensures
            res == (self.account@ == account@),
    {
        str_equal(self.account.as_str(), account)
    }
}

/// The name shown for the active account: the account, or "(none)".
pub open spec fn active_label(active: Option<Seq<char>>) -> Seq<char> {
    match active {
        Some(a) => a,
        None => "(none)"@,
    }
}

/// The label under which `auth status` reports the active account.
pub fn active_account_label(active: &Option<String>) -> (res: String)
    ensures
        res@ == active_label(opt_text_of(*active)),
{
    match active {
        Some(a) => a.clone(),
        None => owned("(none)"),
    }
}

/// `auth status`: authenticated when a saved session exists and belongs to the
/// account shown as active, which reads "(none)" when no account is active.
pub fn session_authenticated(active: &Option<String>, rec: Option<&SessionRecord>) -> (res: bool)
    ensures
        res == match rec {
            Some(r) => r.account@ == active_label(opt_text_of(*active)),
            None => false,
        },
{
    match rec {
        Some(r) => {
            let label = active_account_label(active);
            r.matches_account(label.as_str())
        },
        None => false,
    }
}

} // verus!
