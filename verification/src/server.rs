//! The callback service's decision core: the shared-secret check, the single-flight
//! trigger admission, the approve and check actions over the approval store,
//! and the URL and page builders. The HTTP listener around it only extracts
//! the query parameters, holds this state under one lock, and renders what
//! these functions decide.

use crate::config::Config;
use crate::store::{ApprovalStore, ConsumeResult, PendingApproval, spec_find_token};
use crate::text::{spec_contains, matches_at};
use vstd::prelude::*;
use vstd::string::{StrSliceExecFns, StringExecFns};

verus! {

// ---------------------------------------------------------------------------
// Access policy
// ---------------------------------------------------------------------------

/// Whether the callback actions are open or gated behind a shared secret.
pub enum AccessPolicy {
    Open,
    RequireSecret(String),
}

/// Whether a presented secret satisfies the policy: an open policy accepts
/// everything; a required secret must be presented and match.
pub open spec fn spec_authorized(p: AccessPolicy, presented: Option<Seq<char>>) -> bool {
    match p {
        AccessPolicy::Open => true,
        AccessPolicy::RequireSecret(s) => match presented {
            Some(v) => v == s@,
            None => false,
        },
    }
}

/// The view of an optional presented secret.
pub open spec fn spec_presented(p: Option<&String>) -> Option<Seq<char>> {
    match p {
        Some(s) => Some(s@),
        None => None,
    }
}

impl AccessPolicy {
    /// The policy for an optionally configured secret.
    pub fn from_secret(secret: Option<String>) -> (r: AccessPolicy)
        ensures
            r == (match secret {
                Some(s) => AccessPolicy::RequireSecret(s),
                None => AccessPolicy::Open,
            }),
    {
        match secret {
            Some(s) => AccessPolicy::RequireSecret(s),
            None => AccessPolicy::Open,
        }
    }

    /// Decides one request's authorization.
    pub fn authorize(&self, presented: Option<&String>) -> (r: bool)
        ensures
            r == spec_authorized(*self, spec_presented(presented)),
    {
        match self {
            AccessPolicy::Open => true,
            AccessPolicy::RequireSecret(s) => match presented {
                Some(v) => crate::text::str_eq(v.as_str(), s.as_str()),
                None => false,
            },
        }
    }
}

// ---------------------------------------------------------------------------
// Single-flight trigger gate
// ---------------------------------------------------------------------------

/// The slot's transition on one admission attempt: whether the trigger is
/// let in, and whether the slot is occupied afterwards (it always is: either
/// it was, or the admitted trigger occupies it).
pub open spec fn spec_admit(occupied: bool) -> (bool, bool) {
    (!occupied, true)
}

/// The capacity-one trigger channel: at most one manually triggered check is
/// in flight; further triggers are refused, never queued.
pub struct TriggerGate {
    occupied: bool,
}

impl TriggerGate {
    /// Whether an admitted trigger is still in flight.
    pub closed spec fn is_occupied(&self) -> bool {
        self.occupied
    }

    pub fn new() -> (g: Self)
        ensures
            !g.is_occupied(),
    {
        TriggerGate { occupied: false }
    }

    /// Admits one trigger when free; refuses while one is in flight.
    pub fn try_admit(&mut self) -> (r: bool)
        ensures
            r == spec_admit(old(self).is_occupied()).0,
            final(self).is_occupied() == spec_admit(old(self).is_occupied()).1,
    {
        if self.occupied {
            false
        } else {
            self.occupied = true;
            true
        }
    }

    /// Marks the in-flight trigger done; the slot is empty again.
    pub fn complete(&mut self)
        ensures
            !final(self).is_occupied(),
    {
        self.occupied = false;
    }
}

/// Law: admission is single-flight. An empty slot admits the first trigger,
/// and a second trigger, raised while the first is still processing, is
/// refused. Completion (`complete`) empties the slot, so the first clause
/// also says that a trigger after completion is admitted again.
pub proof fn lemma_single_flight()
    ensures
        spec_admit(false).0,
        !spec_admit(spec_admit(false).1).0,
{
}

// ---------------------------------------------------------------------------
// The callback server's state and decisions
// ---------------------------------------------------------------------------

/// What the check action decided.
pub enum CheckOutcome {
    AuthFailed,
    Admitted,
    Busy,
}

/// What the approve action decided.
pub enum ApproveOutcome {
    AuthFailed,
    MissingToken,
    InvalidToken,
    AlreadySubmitted,
    Approved(Config),
}

/// The callback service's shared state: the approval registry, the trigger
/// slot and the access policy.
pub struct CallbackServer {
    pending: ApprovalStore,
    gate: TriggerGate,
    policy: AccessPolicy,
}

impl CallbackServer {
    /// The registered approvals, oldest first.
    pub closed spec fn spec_pending(&self) -> Seq<PendingApproval> {
        self.pending.pending()
    }

    /// Whether a manually triggered check is in flight.
    pub closed spec fn spec_gate_occupied(&self) -> bool {
        self.gate.is_occupied()
    }

    /// The access policy.
    pub closed spec fn spec_policy(&self) -> AccessPolicy {
        self.policy
    }

    pub fn new(secret: Option<String>) -> (s: Self)
        ensures
            s.spec_pending() == Seq::<PendingApproval>::empty(),
            !s.spec_gate_occupied(),
            s.spec_policy() == (match secret {
                Some(x) => AccessPolicy::RequireSecret(x),
                None => AccessPolicy::Open,
            }),
    {
        CallbackServer {
            pending: ApprovalStore::new(),
            gate: TriggerGate::new(),
            policy: AccessPolicy::from_secret(secret),
        }
    }

    /// Registers a pending approval with its configuration snapshot and
    /// returns the fresh token; exactly one pending entry is added.
    pub fn add_pending(&mut self, config: Config) -> (token: String)
        ensures
            final(self).spec_pending() == old(self).spec_pending().push(
                (PendingApproval { token: token, snapshot: config, used: false }),
            ),
            token@.len() == 36,
            final(self).spec_gate_occupied() == old(self).spec_gate_occupied(),
            final(self).spec_policy() == old(self).spec_policy(),
    {
        self.pending.register(config)
    }

    /// The check action: an authorized trigger is admitted when none is in
    /// flight, refused as busy otherwise; an unauthorized one changes
    /// nothing.
    pub fn handle_check(&mut self, secret_param: Option<&String>) -> (r: CheckOutcome)
        ensures
            final(self).spec_pending() == old(self).spec_pending(),
            final(self).spec_policy() == old(self).spec_policy(),
            !spec_authorized(old(self).spec_policy(), spec_presented(secret_param)) ==> (
            r is AuthFailed && final(self).spec_gate_occupied() == old(
                self,
            ).spec_gate_occupied()),
            spec_authorized(old(self).spec_policy(), spec_presented(secret_param)) ==> {
                &&& r is Admitted <==> !old(self).spec_gate_occupied()
                &&& r is Busy <==> old(self).spec_gate_occupied()
                &&& final(self).spec_gate_occupied()
            },
    {
        if !self.policy.authorize(secret_param) {
            return CheckOutcome::AuthFailed;
        }
        if self.gate.try_admit() {
            CheckOutcome::Admitted
        } else {
            CheckOutcome::Busy
        }
    }

    /// Marks the admitted trigger done; the slot takes the next one.
    pub fn complete_check(&mut self)
        ensures
            final(self).spec_pending() == old(self).spec_pending(),
            final(self).spec_policy() == old(self).spec_policy(),
            !final(self).spec_gate_occupied(),
    {
        self.gate.complete();
    }

    /// The approve action: authorization first, then the token parameter,
    /// then the store's check-and-set — the snapshot comes back exactly when
    /// the token names a still-pending entry, which is thereby used up.
    pub fn handle_approve(&mut self, token_param: Option<&String>, secret_param: Option<&String>)
        -> (r: ApproveOutcome)
        ensures
            final(self).spec_gate_occupied() == old(self).spec_gate_occupied(),
            final(self).spec_policy() == old(self).spec_policy(),
            !spec_authorized(old(self).spec_policy(), spec_presented(secret_param)) ==> (
            r is AuthFailed && final(self).spec_pending() == old(self).spec_pending()),
            spec_authorized(old(self).spec_policy(), spec_presented(secret_param)) ==> (
            match token_param {
                None => r is MissingToken && final(self).spec_pending() == old(
                    self,
                ).spec_pending(),
                Some(t) => match spec_find_token(old(self).spec_pending(), t@) {
                    None => r is InvalidToken && final(self).spec_pending() == old(
                        self,
                    ).spec_pending(),
                    Some(i) => {
                        if old(self).spec_pending()[i].used {
                            r is AlreadySubmitted && final(self).spec_pending() == old(
                                self,
                            ).spec_pending()
                        } else {
                            (r matches ApproveOutcome::Approved(c) && c == old(
                                self,
                            ).spec_pending()[i].snapshot) && final(self).spec_pending() == old(
                                self,
                            ).spec_pending().update(
                                i,
                                (PendingApproval {
                                    token: old(self).spec_pending()[i].token,
                                    snapshot: old(self).spec_pending()[i].snapshot,
                                    used: true,
                                }),
                            )
                        }
                    },
                },
            }),
    {
        if !self.policy.authorize(secret_param) {
            return ApproveOutcome::AuthFailed;
        }
        let token = match token_param {
            Some(t) => t,
            None => {
                return ApproveOutcome::MissingToken;
            },
        };
        match self.pending.consume(token.as_str()) {
            ConsumeResult::UnknownToken => ApproveOutcome::InvalidToken,
            ConsumeResult::AlreadyUsed => ApproveOutcome::AlreadySubmitted,
            ConsumeResult::Approved(c) => ApproveOutcome::Approved(c),
        }
    }
}

// ---------------------------------------------------------------------------
// URLs and pages
// ---------------------------------------------------------------------------

/// The base URL without its trailing slashes.
pub open spec fn spec_trim_trailing_slashes(s: Seq<char>) -> Seq<char>
    decreases s.len(),
{
    if s.len() > 0 && s.last() == '/' {
        spec_trim_trailing_slashes(s.drop_last())
    } else {
        s
    }
}

/// The approval link: the trimmed base, the approve path with the token,
/// and the secret when one is configured.
pub open spec fn spec_approve_url(base: Seq<char>, token: Seq<char>, secret: Option<Seq<char>>)
    -> Seq<char> {
    let b = spec_trim_trailing_slashes(base);
    match secret {
        Some(s) => b + "/approve?token="@ + token + "&secret="@ + s,
        None => b + "/approve?token="@ + token,
    }
}

/// The manual-trigger link.
pub open spec fn spec_check_url(base: Seq<char>, secret: Option<Seq<char>>) -> Seq<char> {
    let b = spec_trim_trailing_slashes(base);
    match secret {
        Some(s) => b + "/check?secret="@ + s,
        None => b + "/check"@,
    }
}

proof fn lemma_trim_trailing_slashes_at(s: Seq<char>, m: int)
    requires
        0 <= m <= s.len(),
        forall|j: int| m <= j < s.len() ==> s[j] == '/',
        m == 0 || s[m - 1] != '/',
    ensures
        spec_trim_trailing_slashes(s) == s.subrange(0, m),
    decreases s.len(),
{
    if m == s.len() {
        if s.len() > 0 && s.last() == '/' {
            assert(false);
        }
        assert(s.subrange(0, m) =~= s);
    } else {
        assert(s.last() == '/');
        lemma_trim_trailing_slashes_at(s.drop_last(), m);
        assert(s.drop_last().subrange(0, m) =~= s.subrange(0, m));
    }
}

/// The base URL with trailing `/` characters removed.
fn trim_trailing_slashes<'a>(s: &'a str) -> (r: &'a str)
    ensures
        r@ == spec_trim_trailing_slashes(s@),
{
    let n = s.unicode_len();
    let mut hi: usize = n;
    while hi > 0 && s.get_char(hi - 1) == '/'
        invariant
            n == s@.len(),
            0 <= hi <= n,
            forall|j: int| hi <= j < n ==> s@[j] == '/',
        decreases hi,
    {
        hi = hi - 1;
    }
    proof {
        lemma_trim_trailing_slashes_at(s@, hi as int);
    }
    s.substring_char(0, hi)
}

impl CallbackServer {
    /// The approval URL handed out with a registered token.
    pub fn approve_url(callback_url: &str, token: &str, secret: &Option<String>) -> (r: String)
        ensures
            r@ == spec_approve_url(
                callback_url@,
                token@,
                match secret {
                    Some(s) => Some(s@),
                    None => None,
                },
            ),
    {
        let base = trim_trailing_slashes(callback_url);
        let mut out = String::from_str(base);
        out.append("/approve?token=");
        out.append(token);
        match secret {
            Some(s) => {
                out.append("&secret=");
                out.append(s.as_str());
            },
            None => {},
        }
        out
    }

    /// The manual-trigger URL.
    pub fn check_url(callback_url: &str, secret: &Option<String>) -> (r: String)
        ensures
            r@ == spec_check_url(
                callback_url@,
                match secret {
                    Some(s) => Some(s@),
                    None => None,
                },
            ),
    {
        let base = trim_trailing_slashes(callback_url);
        let mut out = String::from_str(base);
        match secret {
            Some(s) => {
                out.append("/check?secret=");
                out.append(s.as_str());
            },
            None => {
                out.append("/check");
            },
        }
        out
    }
}

/// Law: the approval link embeds the registered token, and registration adds
/// exactly one pending entry. For any store, freshly registered entry and
/// configured secret, the new store is one longer, ends in that pending
/// entry, and the emitted link contains the entry's token.
pub proof fn lemma_register_emits_one_link(
    s0: Seq<PendingApproval>,
    e: PendingApproval,
    base: Seq<char>,
    secret: Option<Seq<char>>,
)
    requires
        !e.used,
    ensures
        s0.push(e).len() == s0.len() + 1,
        s0.push(e).last() == e,
        s0.push(e).drop_last() == s0,
        spec_contains(spec_approve_url(base, e.token@, secret), e.token@),
{
    assert(s0.push(e).drop_last() =~= s0);
    let b = spec_trim_trailing_slashes(base);
    let url = spec_approve_url(base, e.token@, secret);
    let i = b.len() + "/approve?token="@.len();
    assert(matches_at(url, e.token@, i as int)) by {
        assert(url.subrange(i as int, i + e.token@.len() as int) =~= e.token@);
    }
}

// ---------------------------------------------------------------------------
// Rendered pages
// ---------------------------------------------------------------------------

/// The page for a check outcome, always served with status 200.
pub fn check_page(outcome: &CheckOutcome) -> (r: String)
    ensures
        outcome is AuthFailed ==> r@ == "<h2>❌ 鉴权失败</h2>"@,
        outcome is Admitted ==> r@ == "<h2>✅ 已触发检测，结果将发送到通知渠道</h2>"@,
        outcome is Busy ==> r@ == "<h2>⏳ 已有任务在执行中，请稍后再试</h2>"@,
{
    match outcome {
        CheckOutcome::AuthFailed => String::from_str("<h2>❌ 鉴权失败</h2>"),
        CheckOutcome::Admitted => String::from_str("<h2>✅ 已触发检测，结果将发送到通知渠道</h2>"),
        CheckOutcome::Busy => String::from_str("<h2>⏳ 已有任务在执行中，请稍后再试</h2>"),
    }
}

/// The page for an approve outcome that stopped before submission.
pub fn approve_page(outcome: &ApproveOutcome) -> (r: String)
    ensures
        outcome is AuthFailed ==> r@ == "<h2>❌ 鉴权失败</h2>"@,
        outcome is MissingToken ==> r@ == "<h2>缺少 token 参数</h2>"@,
        outcome is InvalidToken ==> r@ == "<h2>❌ 无效的 token</h2>"@,
        outcome is AlreadySubmitted ==> r@ == "<h2>✅ 该工单已提交过，请勿重复操作</h2>"@,
{
    match outcome {
        ApproveOutcome::AuthFailed => String::from_str("<h2>❌ 鉴权失败</h2>"),
        ApproveOutcome::MissingToken => String::from_str("<h2>缺少 token 参数</h2>"),
        ApproveOutcome::InvalidToken => String::from_str("<h2>❌ 无效的 token</h2>"),
        ApproveOutcome::AlreadySubmitted => String::from_str("<h2>✅ 该工单已提交过，请勿重复操作</h2>"),
        ApproveOutcome::Approved(_) => String::new(),
    }
}

/// The page and notification text after a successful submission.
pub fn submit_success_message(ticket_id: &str) -> (r: String)
    ensures
        r@ == "工单提交成功，工单号: "@ + ticket_id@,
{
    let mut out = String::from_str("工单提交成功，工单号: ");
    out.append(ticket_id);
    out
}

/// The page and notification text after a failed submission.
pub fn submit_failure_message(error: &str) -> (r: String)
    ensures
        r@ == "工单提交失败: "@ + error@,
{
    let mut out = String::from_str("工单提交失败: ");
    out.append(error);
    out
}

/// A message wrapped as a success page.
pub fn success_page(msg: &str) -> (r: String)
    ensures
        r@ == "<h2>✅ "@ + msg@ + "</h2>"@,
{
    let mut out = String::from_str("<h2>✅ ");
    out.append(msg);
    out.append("</h2>");
    out
}

/// A message wrapped as a failure page.
pub fn failure_page(msg: &str) -> (r: String)
    ensures
        r@ == "<h2>❌ "@ + msg@ + "</h2>"@,
{
    let mut out = String::from_str("<h2>❌ ");
    out.append(msg);
    out.append("</h2>");
    out
}

} // verus!
