//! The credential-pool scheduler: sticky affinity, quota-aware ranking,
//! failure-threshold disabling, quota bookkeeping and single-flight token
//! refresh decisions.
use vstd::prelude::*;
use crate::mapping::{lookup, lemma_lookup_push, lemma_lookup_update};

verus! {

#[derive(Clone, Copy, Debug, PartialEq, Eq)]
pub struct QuotaSnapshot {
    pub remaining: u64,
    pub limit: u64,
    pub fetched_at: u64,
    pub consecutive_failures: u32,
}

/// Per-account state of the token-refresh gate.
#[derive(Clone, Copy, Debug, PartialEq, Eq, Structural)]
pub enum RefreshState {
    Idle,
    InFlight { waiters: u64 },
}

pub struct Account {
    pub id: String,
    pub email: String,
    pub access_token: String,
    pub refresh_token: String,
    pub access_token_expiry: u64,
    pub quota: Option<QuotaSnapshot>,
    pub disabled: bool,
    pub proxy_disabled: bool,
    pub proxy_disabled_reason: Option<String>,
    pub proxy_disabled_at: Option<u64>,
    /// Consecutive request failures attributed to this credential.
    pub consecutive_failures: u32,
    /// Selection tick of the most recent time this account was handed out.
    pub last_selected: u64,
    pub refresh: RefreshState,
}

impl Account {
    pub fn new(
        id: String,
        email: String,
        access_token: String,
        refresh_token: String,
        access_token_expiry: u64,
    ) -> (r: Account)
        ensures
            r.id == id,
            r.email == email,
            r.access_token == access_token,
            r.refresh_token == refresh_token,
            r.access_token_expiry == access_token_expiry,
            r.quota is None,
            !r.disabled,
            !r.proxy_disabled,
            r.proxy_disabled_reason is None,
            r.proxy_disabled_at is None,
            r.consecutive_failures == 0,
            r.last_selected == 0,
            r.refresh == RefreshState::Idle,
    {
        Account {
            id,
            email,
            access_token,
            refresh_token,
            access_token_expiry,
            quota: None,
            disabled: false,
            proxy_disabled: false,
            proxy_disabled_reason: None,
            proxy_disabled_at: None,
            consecutive_failures: 0,
            last_selected: 0,
            refresh: RefreshState::Idle,
        }
    }
}

/// An account may be handed out when neither flag is set.
pub open spec fn eligible(a: Account) -> bool {
    !a.disabled && !a.proxy_disabled
}

/// Known positive quota ranks 2, unknown quota 1, exhausted quota 0.
pub open spec fn quota_class(a: Account) -> int {
    match a.quota {
        None => 1,
        Some(q) => if q.remaining > 0 && q.limit > 0 {
            2
        } else {
            0
        },
    }
}

/// `remaining / limit` of `a` compared with that of `b`, by cross-multiplication.
pub open spec fn frac_num(a: Account, b: Account) -> int {
    let qa = a.quota->Some_0;
    let qb = b.quota->Some_0;
    qa.remaining as int * qb.limit as int
}

/// Whether account `a` (at index `i`) ranks strictly before account `b` (at
/// index `j`): higher quota class, then greater remaining fraction, then
/// less recently selected, then lower index.
pub open spec fn precedes(a: Account, i: int, b: Account, j: int) -> bool {
    if quota_class(a) != quota_class(b) {
        quota_class(a) > quota_class(b)
    } else if quota_class(a) == 2 && frac_num(a, b) != frac_num(b, a) {
        frac_num(a, b) > frac_num(b, a)
    } else if a.last_selected != b.last_selected {
        a.last_selected < b.last_selected
    } else {
        i < j
    }
}

/// Index `i` is the eligible account that ranks before every other eligible one.
pub open spec fn is_best(accts: Seq<Account>, i: int) -> bool {
    &&& 0 <= i < accts.len()
    &&& eligible(accts[i])
    &&& forall|j: int|
        0 <= j < accts.len() && j != i && eligible(#[trigger] accts[j]) ==> precedes(
            accts[i],
            i,
            accts[j],
            j,
        )
}

pub open spec fn any_eligible(accts: Seq<Account>) -> bool {
    exists|j: int| 0 <= j < accts.len() && eligible(#[trigger] accts[j])
}

proof fn lemma_frac_trans(ar: int, al: int, br: int, bl: int, cr: int, cl: int)
    requires
        al > 0,
        bl > 0,
        cl > 0,
        ar >= 0,
        br >= 0,
        cr >= 0,
    ensures
        ar * bl >= br * al && br * cl >= cr * bl ==> ar * cl >= cr * al,
        ar * bl > br * al && br * cl >= cr * bl ==> ar * cl > cr * al,
        ar * bl >= br * al && br * cl > cr * bl ==> ar * cl > cr * al,
{
    if ar * bl >= br * al && br * cl >= cr * bl {
        assert(ar * bl * cl >= br * al * cl) by (nonlinear_arith)
            requires
                ar * bl >= br * al,
                cl > 0,
        ;
        assert(br * cl * al >= cr * bl * al) by (nonlinear_arith)
            requires
                br * cl >= cr * bl,
                al > 0,
        ;
        assert(ar * cl >= cr * al) by (nonlinear_arith)
            requires
                ar * bl * cl >= br * al * cl,
                br * cl * al >= cr * bl * al,
                bl > 0,
        ;
    }
    if ar * bl > br * al && br * cl >= cr * bl {
        assert(ar * bl * cl > br * al * cl) by (nonlinear_arith)
            requires
                ar * bl > br * al,
                cl > 0,
        ;
        assert(br * cl * al >= cr * bl * al) by (nonlinear_arith)
            requires
                br * cl >= cr * bl,
                al > 0,
        ;
        assert(ar * cl > cr * al) by (nonlinear_arith)
            requires
                ar * bl * cl > br * al * cl,
                br * cl * al >= cr * bl * al,
                bl > 0,
        ;
    }
    if ar * bl >= br * al && br * cl > cr * bl {
        assert(ar * bl * cl >= br * al * cl) by (nonlinear_arith)
            requires
                ar * bl >= br * al,
                cl > 0,
        ;
        assert(br * cl * al > cr * bl * al) by (nonlinear_arith)
            requires
                br * cl > cr * bl,
                al > 0,
        ;
        assert(ar * cl > cr * al) by (nonlinear_arith)
            requires
                ar * bl * cl >= br * al * cl,
                br * cl * al > cr * bl * al,
                bl > 0,
        ;
    }
}

/// The ranking is transitive.
pub proof fn lemma_precedes_trans(a: Account, i: int, b: Account, j: int, c: Account, k: int)
    requires
        precedes(a, i, b, j),
        precedes(b, j, c, k),
    ensures
        precedes(a, i, c, k),
{
    if quota_class(a) == 2 && quota_class(b) == 2 && quota_class(c) == 2 {
        let qa = a.quota->Some_0;
        let qb = b.quota->Some_0;
        let qc = c.quota->Some_0;
        lemma_frac_trans(
            qa.remaining as int,
            qa.limit as int,
            qb.remaining as int,
            qb.limit as int,
            qc.remaining as int,
            qc.limit as int,
        );
        lemma_frac_trans(
            qc.remaining as int,
            qc.limit as int,
            qb.remaining as int,
            qb.limit as int,
            qa.remaining as int,
            qa.limit as int,
        );
    }
}

pub fn precedes_exec(a: &Account, i: usize, b: &Account, j: usize) -> (r: bool)
    ensures
        r == precedes(*a, i as int, *b, j as int),
{
    let ca = class_of(a);
    let cb = class_of(b);
    if ca != cb {
        return ca > cb;
    }
    if ca == 2 {
        let qa = a.quota.unwrap();
        let qb = b.quota.unwrap();
        assert((qa.remaining as int) * (qb.limit as int) <= 0xffff_ffff_ffff_ffff * 0xffff_ffff_ffff_ffff)
            by (nonlinear_arith)
            requires
                qa.remaining <= 0xffff_ffff_ffff_ffffu64,
                qb.limit <= 0xffff_ffff_ffff_ffffu64,
        ;
        assert((qb.remaining as int) * (qa.limit as int) <= 0xffff_ffff_ffff_ffff * 0xffff_ffff_ffff_ffff)
            by (nonlinear_arith)
            requires
                qb.remaining <= 0xffff_ffff_ffff_ffffu64,
                qa.limit <= 0xffff_ffff_ffff_ffffu64,
        ;
        let x: u128 = (qa.remaining as u128) * (qb.limit as u128);
        let y: u128 = (qb.remaining as u128) * (qa.limit as u128);
        if x != y {
            return x > y;
        }
    }
    if a.last_selected != b.last_selected {
        return a.last_selected < b.last_selected;
    }
    i < j
}

fn class_of(a: &Account) -> (r: u8)
    ensures
        r as int == quota_class(*a),
{
    match a.quota {
        None => 1,
        Some(q) => if q.remaining > 0 && q.limit > 0 {
            2
        } else {
            0
        },
    }
}

/// Index of the best eligible account, or `None` when none is eligible.
pub fn best_account(accts: &Vec<Account>) -> (r: Option<usize>)
    ensures
        match r {
            Some(i) => is_best(accts@, i as int),
            None => !any_eligible(accts@),
        },
{
    let mut best: Option<usize> = None;
    let mut i: usize = 0;
    while i < accts.len()
        invariant
            0 <= i <= accts@.len(),
            match best {
                Some(b) => b < i && eligible(accts@[b as int]) && forall|j: int|
                    0 <= j < i && j != b && eligible(#[trigger] accts@[j]) ==> precedes(
                        accts@[b as int],
                        b as int,
                        accts@[j],
                        j,
                    ),
                None => forall|j: int| 0 <= j < i ==> !eligible(#[trigger] accts@[j]),
            },
        decreases accts.len() - i,
    {
        let a = &accts[i];
        if !a.disabled && !a.proxy_disabled {
            match best {
                None => {
                    best = Some(i);
                },
                Some(b) => {
                    if precedes_exec(a, i, &accts[b], b) {
                        assert forall|j: int|
                            0 <= j < i + 1 && j != i && eligible(#[trigger] accts@[j]) implies precedes(
                                accts@[i as int],
                                i as int,
                                accts@[j],
                                j,
                            ) by {
                            if j != b {
                                lemma_precedes_trans(
                                    accts@[i as int],
                                    i as int,
                                    accts@[b as int],
                                    b as int,
                                    accts@[j],
                                    j,
                                );
                            }
                        }
                        best = Some(i);
                    } else {
                        assert(precedes(accts@[b as int], b as int, accts@[i as int], i as int));
                    }
                },
            }
        }
        i = i + 1;
    }
    best
}

/// Binds an affinity key to the account serving it, for `ttl` ticks of the
/// clock from `created_at`.
pub struct StickyBinding {
    pub affinity_key: String,
    pub account: usize,
    pub created_at: u64,
    pub ttl: u64,
}

#[derive(Clone, Copy, Debug, PartialEq, Eq, Structural)]
pub enum SchedulerError {
    NoAccountAvailable,
}

pub struct Scheduler {
    pub accounts: Vec<Account>,
    pub bindings: Vec<StickyBinding>,
    /// Lifetime given to bindings installed from now on.
    pub sticky_ttl: u64,
    /// Consecutive failures after which an account is disabled; 0 turns the
    /// rule off.
    pub failure_threshold: u32,
    /// Monotone selection counter backing the least-recently-selected tie-break.
    pub tick: u64,
}

pub open spec fn binding_view(bs: Seq<StickyBinding>) -> Seq<(Seq<char>, (usize, u64, u64))> {
    bs.map_values(|b: StickyBinding| (b.affinity_key@, (b.account, b.created_at, b.ttl)))
}

pub open spec fn failure_disabled(a: Account, threshold: u32) -> bool {
    threshold > 0 && a.consecutive_failures >= threshold ==> a.disabled
}

/// `a` and `b` differ at most in when they were last selected.
pub open spec fn same_but_selection(a: Account, b: Account) -> bool {
    b == Account { last_selected: b.last_selected, ..a }
}

/// What a call of `select(key)` at `now` on `prev` leaves behind (`new`) and
/// returns (`r`).
pub open spec fn select_post(
    prev: Scheduler,
    key: Seq<char>,
    now: u64,
    new: Scheduler,
    r: Result<usize, SchedulerError>,
) -> bool {
    &&& new.accounts@.len() == prev.accounts@.len()
    &&& forall|j: int|
            0 <= j < prev.accounts@.len() ==> same_but_selection(
                prev.accounts@[j],
                #[trigger] new.accounts@[j],
            )
    &&& new.sticky_ttl == prev.sticky_ttl
    &&& new.failure_threshold == prev.failure_threshold
    &&& forall|k: Seq<char>|
            k != key ==> #[trigger] lookup(new.binds(), k) == lookup(
                prev.binds(),
                k,
            )
    &&& prev.sticky_hit(key, now) matches Some(b) ==> r == Ok::<usize, SchedulerError>(b)
            && lookup(new.binds(), key) == lookup(prev.binds(), key)
    &&& prev.sticky_hit(key, now) is None ==> {
            &&& r is Err <==> !any_eligible(prev.accounts@)
            &&& r is Err ==> r == Err::<usize, SchedulerError>(SchedulerError::NoAccountAvailable)
            &&& r matches Ok(i) ==> is_best(prev.accounts@, i as int) && lookup(
                new.binds(),
                key,
            ) == Some((i, now, prev.sticky_ttl))
        }
}

impl Scheduler {
    pub open spec fn binds(&self) -> Seq<(Seq<char>, (usize, u64, u64))> {
        binding_view(self.bindings@)
    }

    pub open spec fn wf(&self) -> bool {
        &&& forall|i: int|
            0 <= i < self.bindings@.len() ==> (#[trigger] self.bindings@[i]).account
                < self.accounts@.len()
        &&& forall|i: int|
            0 <= i < self.accounts@.len() ==> failure_disabled(
                #[trigger] self.accounts@[i],
                self.failure_threshold,
            )
    }

    /// The account a live binding for `key` points at, if any.
    pub open spec fn live_target(&self, key: Seq<char>, now: u64) -> Option<usize> {
        match lookup(self.binds(), key) {
            Some(b) => if (now as int) < b.1 as int + b.2 as int {
                Some(b.0)
            } else {
                None
            },
            None => None,
        }
    }

    /// The account a live binding for `key` points at, when it may still be
    /// handed out.
    pub open spec fn sticky_hit(&self, key: Seq<char>, now: u64) -> Option<usize> {
        match self.live_target(key, now) {
            Some(i) => if i < self.accounts@.len() && eligible(self.accounts@[i as int]) {
                Some(i)
            } else {
                None
            },
            None => None,
        }
    }

    pub fn new(accounts: Vec<Account>, sticky_ttl: u64, failure_threshold: u32) -> (r: Scheduler)
        requires
            forall|i: int|
                0 <= i < accounts@.len() ==> failure_disabled(
                    #[trigger] accounts@[i],
                    failure_threshold,
                ),
        ensures
            r.wf(),
            r.accounts@ == accounts@,
            r.bindings@.len() == 0,
            r.sticky_ttl == sticky_ttl,
            r.failure_threshold == failure_threshold,
    {
        Scheduler { accounts, bindings: Vec::new(), sticky_ttl, failure_threshold, tick: 0 }
    }

    /// Number of accounts in the pool.
    pub fn len(&self) -> (r: usize)
        ensures
            r == self.accounts@.len(),
    {
        self.accounts.len()
    }

    /// Index of the first binding for `key`.
    fn find_binding(&self, key: &String) -> (r: Option<usize>)
        ensures
            match r {
                Some(i) => i < self.bindings@.len() && self.bindings@[i as int].affinity_key@
                    == key@ && forall|j: int|
                    0 <= j < i ==> (#[trigger] self.bindings@[j]).affinity_key@ != key@,
                None => lookup(self.binds(), key@) is None,
            },
            r matches Some(i) ==> lookup(self.binds(), key@) == Some(self.binds()[i as int].1),
    {
        let ghost bv = self.binds();
        let mut i: usize = 0;
        assert(bv.subrange(0, bv.len() as int) =~= bv);
        while i < self.bindings.len()
            invariant
                0 <= i <= self.bindings@.len(),
                bv == self.binds(),
                bv.len() == self.bindings@.len(),
                lookup(bv, key@) == lookup(bv.subrange(i as int, bv.len() as int), key@),
                forall|j: int| 0 <= j < i ==> (#[trigger] self.bindings@[j]).affinity_key@ != key@,
            decreases self.bindings.len() - i,
        {
            let ghost rest = bv.subrange(i as int, bv.len() as int);
            assert(rest.drop_first() =~= bv.subrange(i + 1, bv.len() as int));
            if self.bindings[i].affinity_key == *key {
                return Some(i);
            }
            i = i + 1;
        }
        None
    }

    /// Stamps account `i` as just selected.
    fn mark_selected(&mut self, i: usize)
        requires
            i < old(self).accounts@.len(),
        ensures
            final(self).accounts@.len() == old(self).accounts@.len(),
            forall|j: int|
                0 <= j < old(self).accounts@.len() ==> same_but_selection(
                    old(self).accounts@[j],
                    #[trigger] final(self).accounts@[j],
                ),
            forall|j: int|
                0 <= j < old(self).accounts@.len() && j != i ==> final(self).accounts@[j]
                    == #[trigger] old(self).accounts@[j],
            final(self).bindings@ == old(self).bindings@,
            final(self).sticky_ttl == old(self).sticky_ttl,
            final(self).failure_threshold == old(self).failure_threshold,
    {
        if self.tick < u64::MAX {
            self.tick = self.tick + 1;
        }
        let t = self.tick;
        self.accounts[i].last_selected = t;
    }

    /// Installs a binding of `key` to account `i` with the current TTL,
    /// replacing any earlier binding for `key`.
    fn bind(&mut self, key: &String, i: usize, now: u64)
        requires
            i < old(self).accounts@.len(),
            old(self).wf(),
        ensures
            final(self).wf(),
            final(self).accounts@ == old(self).accounts@,
            final(self).sticky_ttl == old(self).sticky_ttl,
            final(self).failure_threshold == old(self).failure_threshold,
            forall|k: Seq<char>| #[trigger] lookup(final(self).binds(), k) == (if k == key@ {
                Some((i, now, old(self).sticky_ttl))
            } else {
                lookup(old(self).binds(), k)
            }),
    {
        let ghost before = self.binds();
        let b = StickyBinding { affinity_key: key.clone(), account: i, created_at: now, ttl: self.sticky_ttl };
        let ghost e = (key@, (i, now, self.sticky_ttl));
        match self.find_binding(key) {
            Some(j) => {
                self.bindings.set(j, b);
                assert(self.binds() =~= before.update(j as int, e));
                assert forall|k: Seq<char>| #[trigger] lookup(self.binds(), k) == (if k == key@ {
                    Some((i, now, self.sticky_ttl))
                } else {
                    lookup(before, k)
                }) by {
                    assert forall|m: int| 0 <= m < j implies before[m].0 != e.0 by {
                        assert(before[m].0 == self.bindings@[m].affinity_key@);
                    }
                    lemma_lookup_update(before, j as int, e, k);
                }
            },
            None => {
                self.bindings.push(b);
                assert(self.binds() =~= before.push(e));
                assert forall|k: Seq<char>| #[trigger] lookup(self.binds(), k) == (if k == key@ {
                    Some((i, now, self.sticky_ttl))
                } else {
                    lookup(before, k)
                }) by {
                    lemma_lookup_push(before, e, k);
                }
            },
        }
    }

    /// Hands out an account for `key` at time `now`: the account of a live
    /// binding for `key` while it may still be used, else the best eligible
    /// account, which `key` is then bound to.
    pub fn select(&mut self, key: &String, now: u64) -> (r: Result<usize, SchedulerError>)
        requires
            old(self).wf(),
        ensures
            final(self).wf(),
            select_post(*old(self), key@, now, *final(self), r),
    {
        match self.find_binding(key) {
            Some(j) => {
                let target = self.bindings[j].account;
                let created = self.bindings[j].created_at;
                let ttl = self.bindings[j].ttl;
                let live = now < created || now - created < ttl;
                if live && !self.accounts[target].disabled && !self.accounts[target].proxy_disabled {
                    self.mark_selected(target);
                    assert forall|k: int| 0 <= k < self.accounts@.len() implies failure_disabled(
                        #[trigger] self.accounts@[k], self.failure_threshold) by {
                        assert(same_but_selection(old(self).accounts@[k], self.accounts@[k]));
                    }
                    return Ok(target);
                }
            },
            None => {},
        }
        match best_account(&self.accounts) {
            None => Err(SchedulerError::NoAccountAvailable),
            Some(i) => {
                self.bind(key, i, now);
                self.mark_selected(i);
                assert forall|k: int| 0 <= k < self.accounts@.len() implies failure_disabled(
                    #[trigger] self.accounts@[k], self.failure_threshold) by {
                    assert(same_but_selection(old(self).accounts@[k], self.accounts@[k]));
                }
                Ok(i)
            },
        }
    }

    /// Records the outcome of a request served with account `i`. A success
    /// clears the failure streak; a failure extends it and disables the
    /// account once the streak reaches the threshold.
    pub fn record_outcome(&mut self, i: usize, success: bool)
        requires
            old(self).wf(),
            i < old(self).accounts@.len(),
        ensures
            final(self).wf(),
            final(self).accounts@.len() == old(self).accounts@.len(),
            final(self).bindings@ == old(self).bindings@,
            final(self).sticky_ttl == old(self).sticky_ttl,
            final(self).failure_threshold == old(self).failure_threshold,
            forall|j: int|
                0 <= j < old(self).accounts@.len() && j != i ==> final(self).accounts@[j]
                    == #[trigger] old(self).accounts@[j],
            ({
                let a = old(self).accounts@[i as int];
                let n: u32 = if success {
                    0
                } else if a.consecutive_failures < u32::MAX {
                    (a.consecutive_failures + 1) as u32
                } else {
                    u32::MAX
                };
                final(self).accounts@[i as int] == Account {
                    consecutive_failures: n,
                    disabled: a.disabled || (!success && old(self).failure_threshold > 0 && n
                        >= old(self).failure_threshold),
                    ..a
                }
            }),
    {
        if success {
            self.accounts[i].consecutive_failures = 0;
        } else {
            let f = self.accounts[i].consecutive_failures;
            let n: u32 = if f < u32::MAX {
                f + 1
            } else {
                u32::MAX
            };
            self.accounts[i].consecutive_failures = n;
            if self.failure_threshold > 0 && n >= self.failure_threshold {
                self.accounts[i].disabled = true;
            }
        }
    }

    /// Enables or disables account `i` administratively. Enabling also
    /// clears its failure streak.
    pub fn set_enabled(&mut self, i: usize, enabled: bool)
        requires
            old(self).wf(),
            i < old(self).accounts@.len(),
        ensures
            final(self).wf(),
            final(self).accounts@.len() == old(self).accounts@.len(),
            final(self).bindings@ == old(self).bindings@,
            final(self).sticky_ttl == old(self).sticky_ttl,
            final(self).failure_threshold == old(self).failure_threshold,
            forall|j: int|
                0 <= j < old(self).accounts@.len() && j != i ==> final(self).accounts@[j]
                    == #[trigger] old(self).accounts@[j],
            final(self).accounts@[i as int] == (if enabled {
                Account { disabled: false, consecutive_failures: 0, ..old(self).accounts@[i as int] }
            } else {
                Account { disabled: true, ..old(self).accounts@[i as int] }
            }),
    {
        if enabled {
            self.accounts[i].disabled = false;
            self.accounts[i].consecutive_failures = 0;
        } else {
            self.accounts[i].disabled = true;
        }
    }

    /// Lets account `i` take proxy traffic again, or withdraws it at time
    /// `now` with the given reason (a default one when none is given).
    pub fn set_proxy_status(&mut self, i: usize, enable: bool, reason: Option<String>, now: u64)
        requires
            old(self).wf(),
            i < old(self).accounts@.len(),
        ensures
            final(self).wf(),
            final(self).accounts@.len() == old(self).accounts@.len(),
            final(self).bindings@ == old(self).bindings@,
            final(self).sticky_ttl == old(self).sticky_ttl,
            final(self).failure_threshold == old(self).failure_threshold,
            forall|j: int|
                0 <= j < old(self).accounts@.len() && j != i ==> final(self).accounts@[j]
                    == #[trigger] old(self).accounts@[j],
            ({
                let a = old(self).accounts@[i as int];
                let b = final(self).accounts@[i as int];
                &&& b == Account {
                    proxy_disabled: b.proxy_disabled,
                    proxy_disabled_reason: b.proxy_disabled_reason,
                    proxy_disabled_at: b.proxy_disabled_at,
                    ..a
                }
                &&& b.proxy_disabled == !enable
                &&& enable ==> b.proxy_disabled_reason is None && b.proxy_disabled_at is None
                &&& !enable ==> b.proxy_disabled_at == Some(now) && b.proxy_disabled_reason
                    is Some && b.proxy_disabled_reason->Some_0@ == (match reason {
                    Some(r) => r@,
                    None => default_disable_reason(),
                })
            }),
    {
        if enable {
            self.accounts[i].proxy_disabled = false;
            self.accounts[i].proxy_disabled_reason = None;
            self.accounts[i].proxy_disabled_at = None;
        } else {
            let why = match reason {
                Some(r) => r,
                None => "User disabled via Web".to_owned(),
            };
            self.accounts[i].proxy_disabled = true;
            self.accounts[i].proxy_disabled_reason = Some(why);
            self.accounts[i].proxy_disabled_at = Some(now);
        }
    }

    /// Swaps the TTL given to bindings installed from now on; existing
    /// bindings keep the TTL they were created with.
    pub fn update_sticky_config(&mut self, sticky_ttl: u64)
        requires
            old(self).wf(),
        ensures
            final(self).wf(),
            final(self).sticky_ttl == sticky_ttl,
            final(self).accounts@ == old(self).accounts@,
            final(self).bindings@ == old(self).bindings@,
            final(self).failure_threshold == old(self).failure_threshold,
    {
        self.sticky_ttl = sticky_ttl;
    }

    /// Applies the outcome of a quota fetch for account `i` made at `now`:
    /// a fetched `(remaining, limit)` replaces the snapshot; a failure keeps
    /// the last known snapshot and extends its failure count.
    pub fn apply_quota_result(&mut self, i: usize, result: Result<(u64, u64), QuotaError>, now: u64)
        requires
            old(self).wf(),
            i < old(self).accounts@.len(),
        ensures
            final(self).wf(),
            final(self).accounts@.len() == old(self).accounts@.len(),
            final(self).bindings@ == old(self).bindings@,
            final(self).sticky_ttl == old(self).sticky_ttl,
            final(self).failure_threshold == old(self).failure_threshold,
            forall|j: int|
                0 <= j < old(self).accounts@.len() && j != i ==> final(self).accounts@[j]
                    == #[trigger] old(self).accounts@[j],
            final(self).accounts@[i as int] == (Account {
                quota: quota_after(old(self).accounts@[i as int].quota, result, now),
                ..old(self).accounts@[i as int]
            }),
    {
        let q = self.accounts[i].quota;
        self.accounts[i].quota = next_quota(q, result, now);
    }

    /// A caller asks for account `i`'s token to be fresh at `now`, with
    /// `margin` ticks of slack. The first caller on an expiring token starts
    /// the refresh; later callers wait on it.
    pub fn begin_refresh(&mut self, i: usize, now: u64, margin: u64) -> (r: RefreshAction)
        requires
            old(self).wf(),
            i < old(self).accounts@.len(),
        ensures
            final(self).wf(),
            final(self).accounts@.len() == old(self).accounts@.len(),
            final(self).bindings@ == old(self).bindings@,
            final(self).sticky_ttl == old(self).sticky_ttl,
            final(self).failure_threshold == old(self).failure_threshold,
            forall|j: int|
                0 <= j < old(self).accounts@.len() && j != i ==> final(self).accounts@[j]
                    == #[trigger] old(self).accounts@[j],
            ({
                let a = old(self).accounts@[i as int];
                let step = gate_step(a.refresh, token_expiring(a, now, margin));
                &&& r == step.1
                &&& final(self).accounts@[i as int] == Account { refresh: step.0, ..a }
            }),
    {
        let expiry = self.accounts[i].access_token_expiry;
        let expiring = now >= expiry || expiry - now <= margin;
        let (st, action) = gate_step_exec(self.accounts[i].refresh, expiring);
        self.accounts[i].refresh = st;
        action
    }

    /// The refresh of account `i` has settled with `result`. Every caller
    /// that waited on it is handed the same outcome; on success the new
    /// token and its expiry are stored.
    pub fn finish_refresh(&mut self, i: usize, result: Result<TokenGrant, RefreshError>) -> (r:
        RefreshSettled)
        requires
            old(self).wf(),
            i < old(self).accounts@.len(),
        ensures
            final(self).wf(),
            final(self).accounts@.len() == old(self).accounts@.len(),
            final(self).bindings@ == old(self).bindings@,
            final(self).sticky_ttl == old(self).sticky_ttl,
            final(self).failure_threshold == old(self).failure_threshold,
            forall|j: int|
                0 <= j < old(self).accounts@.len() && j != i ==> final(self).accounts@[j]
                    == #[trigger] old(self).accounts@[j],
            ({
                let a = old(self).accounts@[i as int];
                let b = final(self).accounts@[i as int];
                &&& r.waiters == (match a.refresh {
                    RefreshState::Idle => 0u64,
                    RefreshState::InFlight { waiters } => waiters,
                })
                &&& r.outcome == (match result {
                    Ok(_) => Ok::<(), RefreshError>(()),
                    Err(e) => Err(e),
                })
                &&& b.refresh == RefreshState::Idle
                &&& match result {
                    Ok(g) => b == Account {
                        access_token: g.access_token,
                        access_token_expiry: g.expires_at,
                        refresh: RefreshState::Idle,
                        ..a
                    },
                    Err(_) => b == Account { refresh: RefreshState::Idle, ..a },
                }
            }),
    {
        let waiters = match self.accounts[i].refresh {
            RefreshState::Idle => 0,
            RefreshState::InFlight { waiters } => waiters,
        };
        self.accounts[i].refresh = RefreshState::Idle;
        let outcome = match result {
            Ok(g) => {
                self.accounts[i].access_token = g.access_token;
                self.accounts[i].access_token_expiry = g.expires_at;
                Ok(())
            },
            Err(e) => Err(e),
        };
        RefreshSettled { waiters, outcome }
    }

    /// Indices of the accounts a refresh-all pass fetches quota for: every
    /// account not administratively disabled, in pool order.
    pub fn quota_refresh_targets(&self) -> (r: Vec<usize>)
        ensures
            r@ == refresh_targets(self.accounts@, self.accounts@.len()),
    {
        let mut r: Vec<usize> = Vec::new();
        let mut i: usize = 0;
        while i < self.accounts.len()
            invariant
                0 <= i <= self.accounts@.len(),
                r@ == refresh_targets(self.accounts@, i as nat),
            decreases self.accounts.len() - i,
        {
            let ghost pre = Seq::new(i as nat, |j: int| j);
            assert(Seq::new((i + 1) as nat, |j: int| j) =~= pre.push(i as int));
            reveal(Seq::filter);
            assert(pre.push(i as int).drop_last() =~= pre);
            if !self.accounts[i].disabled {
                r.push(i);
            }
            proof {
                let f = |j: int| !self.accounts@[j].disabled;
                let g = |j: int| j as usize;
                assert(pre.push(i as int).filter(f) =~= if f(i as int) {
                    pre.filter(f).push(i as int)
                } else {
                    pre.filter(f)
                });
                assert(r@ =~= pre.push(i as int).filter(f).map_values(g));
            }
            i = i + 1;
        }
        r
    }
}

/// Indices below `n` of the accounts not administratively disabled, in order.
pub open spec fn refresh_targets(accts: Seq<Account>, n: nat) -> Seq<usize> {
    Seq::new(n, |j: int| j).filter(|j: int| !accts[j].disabled).map_values(|j: int| j as usize)
}

#[derive(Clone, Copy, Debug, PartialEq, Eq, Structural)]
pub enum QuotaError {
    /// Every attempt failed or timed out.
    RetriesExhausted,
    /// The provider refused the credential.
    Rejected,
}

pub open spec fn default_disable_reason() -> Seq<char> {
    "User disabled via Web"@
}

/// The snapshot after a quota fetch at `now` that ended with `result`.
pub open spec fn quota_after(
    old_q: Option<QuotaSnapshot>,
    result: Result<(u64, u64), QuotaError>,
    now: u64,
) -> Option<QuotaSnapshot> {
    match result {
        Ok((remaining, limit)) => Some(
            QuotaSnapshot { remaining, limit, fetched_at: now, consecutive_failures: 0 },
        ),
        Err(_) => match old_q {
            Some(q) => Some(
                QuotaSnapshot {
                    consecutive_failures: if q.consecutive_failures < u32::MAX {
                        (q.consecutive_failures + 1) as u32
                    } else {
                        u32::MAX
                    },
                    ..q
                },
            ),
            None => None,
        },
    }
}

pub fn next_quota(old_q: Option<QuotaSnapshot>, result: Result<(u64, u64), QuotaError>, now: u64) -> (r:
    Option<QuotaSnapshot>)
    ensures
        r == quota_after(old_q, result, now),
{
    match result {
        Ok((remaining, limit)) => Some(
            QuotaSnapshot { remaining, limit, fetched_at: now, consecutive_failures: 0 },
        ),
        Err(_) => match old_q {
            Some(q) => {
                let n: u32 = if q.consecutive_failures < u32::MAX {
                    q.consecutive_failures + 1
                } else {
                    u32::MAX
                };
                Some(QuotaSnapshot { consecutive_failures: n, ..q })
            },
            None => None,
        },
    }
}

#[derive(Clone, Copy, Debug, PartialEq, Eq, Structural)]
pub enum RefreshAction {
    /// The token is valid beyond the safety margin.
    Fresh,
    /// The caller performs the network refresh and reports it back.
    Start,
    /// A refresh is already under way; the caller waits for it to settle.
    Wait,
}

#[derive(Clone, Copy, Debug, PartialEq, Eq, Structural)]
pub enum RefreshError {
    /// The identity provider refused the refresh token.
    Rejected,
    /// The refresh did not complete (network failure or timeout).
    Transient,
}

/// A new access token and the clock value at which it expires.
pub struct TokenGrant {
    pub access_token: String,
    pub expires_at: u64,
}

/// How a refresh settled, for every caller that waited on it.
#[derive(Clone, Copy, Debug, PartialEq, Eq)]
pub struct RefreshSettled {
    pub waiters: u64,
    pub outcome: Result<(), RefreshError>,
}

pub open spec fn token_expiring(a: Account, now: u64, margin: u64) -> bool {
    a.access_token_expiry as int <= now as int + margin as int
}

/// The refresh state and action after one freshness request.
pub open spec fn gate_step(st: RefreshState, expiring: bool) -> (RefreshState, RefreshAction) {
    if !expiring {
        (st, RefreshAction::Fresh)
    } else {
        match st {
            RefreshState::Idle => (RefreshState::InFlight { waiters: 1 }, RefreshAction::Start),
            RefreshState::InFlight { waiters } => (
                RefreshState::InFlight {
                    waiters: if waiters < u64::MAX {
                        (waiters + 1) as u64
                    } else {
                        u64::MAX
                    },
                },
                RefreshAction::Wait,
            ),
        }
    }
}

fn gate_step_exec(st: RefreshState, expiring: bool) -> (r: (RefreshState, RefreshAction))
    ensures
        r == gate_step(st, expiring),
{
    if !expiring {
        (st, RefreshAction::Fresh)
    } else {
        match st {
            RefreshState::Idle => (RefreshState::InFlight { waiters: 1 }, RefreshAction::Start),
            RefreshState::InFlight { waiters } => {
                let w: u64 = if waiters < u64::MAX {
                    waiters + 1
                } else {
                    u64::MAX
                };
                (RefreshState::InFlight { waiters: w }, RefreshAction::Wait)
            },
        }
    }
}

/// How many of `n` successive requests on an expiring token, from state
/// `st` and with no settlement between them, start a network refresh.
pub open spec fn refresh_starts(st: RefreshState, n: nat) -> nat
    decreases n,
{
    if n == 0 {
        0
    } else {
        let step = gate_step(st, true);
        (if step.1 == RefreshAction::Start {
            1nat
        } else {
            0nat
        }) + refresh_starts(step.0, (n - 1) as nat)
    }
}

proof fn lemma_no_start_in_flight(w: u64, n: nat)
    ensures
        refresh_starts(RefreshState::InFlight { waiters: w }, n) == 0,
    decreases n,
{
    if n > 0 {
        let step = gate_step(RefreshState::InFlight { waiters: w }, true);
        lemma_no_start_in_flight(step.0->waiters, (n - 1) as nat);
    }
}

/// Single flight: of any number of concurrent freshness requests on the same
/// expiring token, exactly one starts a network refresh; the others wait for
/// it and are handed its one outcome by `finish_refresh`.
pub proof fn lemma_single_flight(n: nat)
    requires
        n >= 1,
    ensures
        refresh_starts(RefreshState::Idle, n) == 1,
{
    lemma_no_start_in_flight(1, (n - 1) as nat);
}

/// Stickiness: once `select(key)` has handed out account `i`, a later
/// `select(key)` hands out `i` again as long as the binding has not expired
/// and `i` is still enabled, whatever else happened to the pool meanwhile
/// that left the bindings alone.
pub proof fn lemma_sticky_select(
    s0: Scheduler,
    s1: Scheduler,
    s2: Scheduler,
    s3: Scheduler,
    key: Seq<char>,
    t0: u64,
    t1: u64,
    i: usize,
    r: Result<usize, SchedulerError>,
)
    requires
        select_post(s0, key, t0, s1, Ok(i)),
        s2.binds() == s1.binds(),
        s2.live_target(key, t1) is Some,
        i < s2.accounts@.len(),
        eligible(s2.accounts@[i as int]),
        select_post(s2, key, t1, s3, r),
    ensures
        r == Ok::<usize, SchedulerError>(i),
        lookup(s3.binds(), key) == lookup(s1.binds(), key),
{
    if s0.sticky_hit(key, t0) is Some {
        assert(lookup(s1.binds(), key) == lookup(s0.binds(), key));
    }
}

/// An account whose failure streak has reached the threshold is never handed
/// out, and while another account is eligible `select` still succeeds.
pub proof fn lemma_failing_account_skipped(
    s0: Scheduler,
    key: Seq<char>,
    now: u64,
    s1: Scheduler,
    r: Result<usize, SchedulerError>,
    i: usize,
)
    requires
        s0.wf(),
        i < s0.accounts@.len(),
        s0.failure_threshold > 0,
        s0.accounts@[i as int].consecutive_failures >= s0.failure_threshold,
        select_post(s0, key, now, s1, r),
    ensures
        r != Ok::<usize, SchedulerError>(i),
        (exists|j: int| 0 <= j < s0.accounts@.len() && j != i && eligible(#[trigger] s0.accounts@[j]))
            ==> r is Ok,
{
    assert(failure_disabled(s0.accounts@[i as int], s0.failure_threshold));
}

/// A failed quota fetch never clears a known snapshot: it keeps its
/// remaining, limit and fetch time and only extends the failure count.
pub proof fn lemma_quota_failure_keeps_snapshot(q: QuotaSnapshot, e: QuotaError, now: u64)
    ensures
        quota_after(Some(q), Err(e), now) matches Some(p) && p.remaining == q.remaining && p.limit
            == q.limit && p.fetched_at == q.fetched_at && p.consecutive_failures as int == (if q.consecutive_failures < u32::MAX {
            q.consecutive_failures + 1
        } else {
            q.consecutive_failures as int
        }),
{
}

} // verus!
