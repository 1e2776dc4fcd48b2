//! Escrow registry of one agent process: client-signed escrow locks,
//! releases, handoff micro-payments between agents, returns after failures,
//! and recovery of escrows that stayed unclaimed too long.

use vstd::prelude::*;

use crate::crypto::{client_escrow_signature, escrow_signature_of, push_bytes};
use crate::domain::ledger::balance_in;
use crate::table::NameTable;
use crate::text::{bytes_eq, decimal, decimal_text};
use crate::types::{AgentId, EscrowId, EscrowInfo, OrderId};

verus! {

/// How long (ms) an unclaimed escrow is held before it is returned.
pub const ESCROW_TIMEOUT_MS: u64 = 5_000;

/// Milliseconds since the Unix epoch by the machine's clock, cut to their
/// low 64 bits (0 for a clock set before the epoch).
pub(crate) fn now_ms() -> u64 {
    let t = crate::clock::clock_now();
    match crate::clock::since_unix_epoch(&t) {
        Ok(d) => {
            let ms: u128 = crate::clock::whole_millis(&d);
            ms as u64
        },
        Err(_) => 0,
    }
}

/// Why a payment operation was refused.
#[derive(Debug, Clone, PartialEq, Eq)]
pub enum PaymentError {
    InvalidSignature { escrow_id: EscrowId },
    DuplicateEscrow { escrow_id: EscrowId },
    NotFound { escrow_id: EscrowId },
    AlreadyReleased { escrow_id: EscrowId },
    AmountExceedsEscrow { amount: u64, escrowed: u64 },
    InsufficientBalance { from_agent: AgentId, has: u64, amount: u64 },
}

/// The text of a [`PaymentError`].
pub open spec fn payment_error_text(e: PaymentError) -> Seq<char> {
    match e {
        PaymentError::InvalidSignature { escrow_id } => "Invalid client signature for escrow "@
            + decimal(escrow_id as nat),
        PaymentError::DuplicateEscrow { escrow_id } => "Escrow "@ + decimal(escrow_id as nat)
            + " already exists (double-spend prevented)"@,
        PaymentError::NotFound { escrow_id } => "Escrow "@ + decimal(escrow_id as nat)
            + " not found"@,
        PaymentError::AlreadyReleased { escrow_id } => "Escrow "@ + decimal(escrow_id as nat)
            + " already released"@,
        PaymentError::AmountExceedsEscrow { amount, escrowed } => "Release amount "@ + decimal(
            amount as nat,
        ) + " > escrowed "@ + decimal(escrowed as nat),
        PaymentError::InsufficientBalance { from_agent, has, amount } => "Insufficient balance: "@
            + from_agent@ + " has "@ + decimal(has as nat) + " < "@ + decimal(amount as nat),
    }
}

impl PaymentError {
    /// Human-readable description of the error.
    pub fn message(&self) -> (r: String)
        ensures
            r@ == payment_error_text(*self),
    {
        match self {
            PaymentError::InvalidSignature { escrow_id } => {
                let mut m = String::from_str("Invalid client signature for escrow ");
                m.append(decimal_text(*escrow_id).as_str());
                m
            },
            PaymentError::DuplicateEscrow { escrow_id } => {
                let mut m = String::from_str("Escrow ");
                m.append(decimal_text(*escrow_id).as_str());
                m.append(" already exists (double-spend prevented)");
                m
            },
            PaymentError::NotFound { escrow_id } => {
                let mut m = String::from_str("Escrow ");
                m.append(decimal_text(*escrow_id).as_str());
                m.append(" not found");
                m
            },
            PaymentError::AlreadyReleased { escrow_id } => {
                let mut m = String::from_str("Escrow ");
                m.append(decimal_text(*escrow_id).as_str());
                m.append(" already released");
                m
            },
            PaymentError::AmountExceedsEscrow { amount, escrowed } => {
                let mut m = String::from_str("Release amount ");
                m.append(decimal_text(*amount).as_str());
                m.append(" > escrowed ");
                m.append(decimal_text(*escrowed).as_str());
                m
            },
            PaymentError::InsufficientBalance { from_agent, has, amount } => {
                let mut m = String::from_str("Insufficient balance: ");
                m.append(from_agent.as_str());
                m.append(" has ");
                m.append(decimal_text(*has).as_str());
                m.append(" < ");
                m.append(decimal_text(*amount).as_str());
                m
            },
        }
    }
}

/// No two escrows in `s` share an id.
pub open spec fn ids_unique(s: Seq<EscrowInfo>) -> bool {
    forall|i: int, j: int|
        0 <= i < s.len() && 0 <= j < s.len() && i != j ==> #[trigger] s[i].escrow_id
            != #[trigger] s[j].escrow_id
}

/// Some escrow in `s` has id `id`.
pub open spec fn has_escrow(s: Seq<EscrowInfo>, id: EscrowId) -> bool {
    exists|i: int| 0 <= i < s.len() && #[trigger] s[i].escrow_id == id
}

/// The position of escrow `id` in `s`.
pub open spec fn position_of(s: Seq<EscrowInfo>, id: EscrowId) -> int {
    choose|i: int| 0 <= i < s.len() && #[trigger] s[i].escrow_id == id
}

/// `b` is `a` marked released, every other field unchanged.
pub open spec fn released_copy(a: EscrowInfo, b: EscrowInfo) -> bool {
    &&& b.escrow_id == a.escrow_id
    &&& b.order_id == a.order_id
    &&& b.amount == a.amount
    &&& b.client_signature@ == a.client_signature@
    &&& b.holder_agent@ == a.holder_agent@
    &&& b.locked_at == a.locked_at
    &&& b.released
}

/// An unreleased escrow locked at `locked_at` has timed out at `now`.
pub open spec fn timed_out(e: EscrowInfo, now: u64) -> bool {
    !e.released && now >= e.locked_at && now - e.locked_at > ESCROW_TIMEOUT_MS
}

/// What timing out at `now` pays agent `a` from the escrows in `s`.
pub open spec fn recovered_for(s: Seq<EscrowInfo>, now: u64, a: Seq<char>) -> int
    decreases s.len(),
{
    if s.len() == 0 {
        0
    } else {
        recovered_for(s.drop_last(), now, a) + (if timed_out(s.last(), now) && s.last().holder_agent@
            == a {
            s.last().amount as int
        } else {
            0
        })
    }
}

/// What timing out pays out of a prefix of `s` is at most what it pays
/// out of all of `s`.
proof fn lemma_recovered_prefix(s: Seq<EscrowInfo>, now: u64, a: Seq<char>, i: int)
    requires
        0 <= i <= s.len(),
    ensures
        recovered_for(s.take(i), now, a) <= recovered_for(s, now, a),
    decreases s.len(),
{
    if i == s.len() {
        assert(s.take(i) =~= s);
    } else {
        assert(s.drop_last().take(i) =~= s.take(i));
        lemma_recovered_prefix(s.drop_last(), now, a, i);
    }
}

/// Paying out the escrows that time out at any time cannot overflow a
/// balance.
pub open spec fn timeouts_fit(l: &EscrowLedger) -> bool {
    forall|now: u64, a: Seq<char>| l.balance_of(a) + recovered_for(l.escrows(), now, a) <= u64::MAX
}

/// What agent `a` would be paid if every unreleased escrow in `s` were
/// returned to its holder.
pub open spec fn pending_for(s: Seq<EscrowInfo>, a: Seq<char>) -> int
    decreases s.len(),
{
    if s.len() == 0 {
        0
    } else {
        (if !s[0].released && s[0].holder_agent@ == a {
            s[0].amount as int
        } else {
            0
        }) + pending_for(s.drop_first(), a)
    }
}

proof fn lemma_pending_nonnegative(s: Seq<EscrowInfo>, a: Seq<char>)
    ensures
        pending_for(s, a) >= 0,
    decreases s.len(),
{
    if s.len() > 0 {
        lemma_pending_nonnegative(s.drop_first(), a);
    }
}

/// Releasing one unreleased escrow takes its amount off what its holder
/// has pending, and nothing off anyone else.
pub proof fn lemma_pending_after_release(s: Seq<EscrowInfo>, p: int, e2: EscrowInfo, a: Seq<char>)
    requires
        0 <= p < s.len(),
        !s[p].released,
        released_copy(s[p], e2),
    ensures
        pending_for(s.update(p, e2), a) == pending_for(s, a) - (if s[p].holder_agent@ == a {
            s[p].amount as int
        } else {
            0
        }),
    decreases s.len(),
{
    let t = s.update(p, e2);
    if p == 0 {
        assert(t.drop_first() =~= s.drop_first());
    } else {
        lemma_pending_after_release(s.drop_first(), p - 1, e2, a);
        assert(t.drop_first() =~= s.drop_first().update(p - 1, e2));
    }
}

/// What an agent has pending covers each of its unreleased escrows.
pub proof fn lemma_pending_covers(s: Seq<EscrowInfo>, p: int)
    requires
        0 <= p < s.len(),
        !s[p].released,
    ensures
        pending_for(s, s[p].holder_agent@) >= s[p].amount,
    decreases s.len(),
{
    lemma_pending_nonnegative(s.drop_first(), s[p].holder_agent@);
    if p > 0 {
        lemma_pending_covers(s.drop_first(), p - 1);
        assert(s.drop_first()[p - 1] == s[p]);
        lemma_pending_nonnegative(s, s[p].holder_agent@);
    }
}

/// An agent without unreleased escrows in `s` has nothing pending.
proof fn lemma_pending_zero(s: Seq<EscrowInfo>, a: Seq<char>)
    requires
        forall|i: int| 0 <= i < s.len() ==> !(!#[trigger] s[i].released && s[i].holder_agent@ == a),
    ensures
        pending_for(s, a) == 0,
    decreases s.len(),
{
    if s.len() > 0 {
        assert(!(!s[0].released && s[0].holder_agent@ == a));
        assert forall|i: int| 0 <= i < s.drop_first().len() implies !(!#[trigger] s.drop_first()[i].released
            && s.drop_first()[i].holder_agent@ == a) by {
            assert(s.drop_first()[i] == s[i + 1]);
        }
        lemma_pending_zero(s.drop_first(), a);
    }
}

/// Every agent's balance plus what it has pending fits in a `u64`: no
/// return of escrows can overflow a balance.
pub open spec fn returns_fit(l: &EscrowLedger) -> bool {
    forall|a: Seq<char>| l.balance_of(a) + pending_for(l.escrows(), a) <= u64::MAX
}

/// The ids, in order, of the escrows in `s` that have timed out at `now`.
pub open spec fn timed_out_ids(s: Seq<EscrowInfo>, now: u64) -> Seq<EscrowId>
    decreases s.len(),
{
    if s.len() == 0 {
        seq![]
    } else {
        let rest = timed_out_ids(s.drop_last(), now);
        if timed_out(s.last(), now) {
            rest.push(s.last().escrow_id)
        } else {
            rest
        }
    }
}

/// Central escrow registry shared within one agent process.
pub struct EscrowLedger {
    escrows: Vec<EscrowInfo>,
    balances: NameTable<u64>,
}

/// A copy of `e` marked released.
fn release_copy(e: &EscrowInfo) -> (r: EscrowInfo)
    ensures
        released_copy(*e, r),
{
    let mut sig: Vec<u8> = Vec::new();
    push_bytes(&mut sig, e.client_signature.as_slice());
    EscrowInfo {
        escrow_id: e.escrow_id,
        order_id: e.order_id,
        amount: e.amount,
        client_signature: sig,
        holder_agent: e.holder_agent.clone(),
        locked_at: e.locked_at,
        released: true,
    }
}

impl EscrowLedger {
    /// The escrows, in the order they were locked.
    pub closed spec fn escrows(&self) -> Seq<EscrowInfo> {
        self.escrows@
    }

    /// Balance of agent `a` (0 for an agent with none on record).
    pub closed spec fn balance_of(&self, a: Seq<char>) -> int {
        balance_in(self.balances@, a)
    }

    /// The registry is well formed: no two escrows share an id.
    pub open spec fn wf(&self) -> bool {
        ids_unique(self.escrows())
    }

    /// An empty registry.
    pub fn new() -> (l: Self)
        ensures
            l.wf(),
            l.escrows() == Seq::<EscrowInfo>::empty(),
            forall|a: Seq<char>| l.balance_of(a) == 0,
    {
        EscrowLedger { escrows: Vec::new(), balances: NameTable::new() }
    }

    /// Set an agent's balance.
    pub fn set_balance(&mut self, agent_id: &str, balance: u64)
        requires
            old(self).wf(),
        ensures
            final(self).wf(),
            final(self).escrows() == old(self).escrows(),
            forall|a: Seq<char>|
                #![trigger final(self).balance_of(a)]
                final(self).balance_of(a) == if a == agent_id@ {
                    balance as int
                } else {
                    old(self).balance_of(a)
                },
    {
        self.balances.insert(agent_id.to_owned(), balance);
    }

    /// Whether every agent's balance plus what it has pending fits in a
    /// `u64`, so that all unreleased escrows could be returned.
    pub fn returns_fit_now(&self) -> (r: bool)
        ensures
            r == returns_fit(self),
    {
        let n = self.escrows.len();
        let ghost s = self.escrows@;
        let mut i: usize = 0;
        while i < n
            invariant
                n == s.len(),
                s == self.escrows@,
                i <= n,
                forall|k: int|
                    0 <= k < i && !(#[trigger] s[k]).released ==> self.balance_of(s[k].holder_agent@)
                        + pending_for(s, s[k].holder_agent@) <= u64::MAX,
            decreases n - i,
        {
            if !self.escrows[i].released {
                let h = self.escrows[i].holder_agent.as_str();
                let mut total: u128 = self.balance(h) as u128;
                let mut j: usize = 0;
                proof {
                    assert(s.subrange(0, n as int) =~= s);
                }
                while j < n
                    invariant
                        n == s.len(),
                        s == self.escrows@,
                        j <= n,
                        i < n,
                        h@ == s[i as int].holder_agent@,
                        total <= self.balance_of(h@) + j * 0xffff_ffff_ffff_ffffu128,
                        total + pending_for(s.subrange(j as int, n as int), h@) == self.balance_of(h@)
                            + pending_for(s, h@),
                    decreases n - j,
                {
                    proof {
                        assert(s.subrange(j as int, n as int).drop_first() =~= s.subrange(j + 1, n as int));
                        assert(s.subrange(j as int, n as int)[0] == s[j as int]);
                        assert(j * 0xffff_ffff_ffff_ffffu128 <= n * 0xffff_ffff_ffff_ffffu128) by (nonlinear_arith)
                            requires j <= n;
                        assert(n * 0xffff_ffff_ffff_ffffu128 <= 0xffff_ffff_ffff_ffff * 0xffff_ffff_ffff_ffffu128) by (nonlinear_arith)
                            requires n <= 0xffff_ffff_ffff_ffff;
                    }
                    let e = &self.escrows[j];
                    if !e.released && crate::text::str_eq(e.holder_agent.as_str(), h) {
                        total = total + e.amount as u128;
                    }
                    proof {
                        assert((j + 1) * 0xffff_ffff_ffff_ffffu128 == j * 0xffff_ffff_ffff_ffffu128
                            + 0xffff_ffff_ffff_ffffu128) by (nonlinear_arith);
                    }
                    j = j + 1;
                }
                proof {
                    assert(s.subrange(n as int, n as int) =~= Seq::<EscrowInfo>::empty());
                }
                if total > 0xffff_ffff_ffff_ffffu128 {
                    return false;
                }
            }
            i = i + 1;
        }
        proof {
            assert forall|a: Seq<char>| self.balance_of(a) + pending_for(s, a) <= u64::MAX by {
                if exists|k: int| 0 <= k < n && !(#[trigger] s[k]).released && s[k].holder_agent@ == a {
                    let k = choose|k: int| 0 <= k < n && !(#[trigger] s[k]).released && s[k].holder_agent@ == a;
                    assert(!s[k].released);
                } else {
                    lemma_pending_zero(s, a);
                    assert(self.balance_of(a) <= u64::MAX);
                }
            }
        }
        true
    }

    /// An agent's balance (0 if it has none on record).
    pub fn balance(&self, agent_id: &str) -> (r: u64)
        ensures
            r == self.balance_of(agent_id@),
    {
        match self.balances.get(agent_id) {
            Some(b) => *b,
            None => 0,
        }
    }

    /// Position of escrow `escrow_id`, if it is in the registry.
    fn find(&self, escrow_id: EscrowId) -> (r: Option<usize>)
        requires
            self.wf(),
        ensures
            match r {
                Some(i) => i < self.escrows().len() && self.escrows()[i as int].escrow_id
                    == escrow_id && position_of(self.escrows(), escrow_id) == i,
                None => !has_escrow(self.escrows(), escrow_id),
            },
    {
        let n = self.escrows.len();
        let mut i: usize = 0;
        while i < n
            invariant
                self.wf(),
                n == self.escrows@.len(),
                i <= n,
                forall|j: int| 0 <= j < i ==> self.escrows@[j].escrow_id != escrow_id,
            decreases n - i,
        {
            if self.escrows[i].escrow_id == escrow_id {
                proof {
                    let s = self.escrows();
                    assert(s[i as int].escrow_id == escrow_id);
                    assert(has_escrow(s, escrow_id));
                    let p = position_of(s, escrow_id);
                    assert(0 <= p < s.len() && s[p].escrow_id == escrow_id);
                    if p != i {
                        assert(self.escrows()[p].escrow_id != self.escrows()[i as int].escrow_id);
                    }
                }
                return Some(i);
            }
            i = i + 1;
        }
        None
    }

    /// Add `amount` to an agent's balance.
    fn add_to_balance(&mut self, agent_id: &str, amount: u64)
        requires
            old(self).wf(),
            old(self).balance_of(agent_id@) + amount <= u64::MAX,
        ensures
            final(self).wf(),
            final(self).escrows() == old(self).escrows(),
            forall|a: Seq<char>|
                #![trigger final(self).balance_of(a)]
                final(self).balance_of(a) == old(self).balance_of(a) + if a == agent_id@ {
                    amount as int
                } else {
                    0
                },
    {
        let b = self.balance(agent_id);
        self.set_balance(agent_id, b + amount);
    }

    /// Lock funds into escrow `escrow_id` for `order_id`, held by
    /// `holder_agent`, stamped with the time `now_ms`.  Refused when the
    /// client signature is not the one for (order id, amount), or when the
    /// escrow id is already in use.
    pub fn lock_escrow_at(
        &mut self,
        escrow_id: EscrowId,
        order_id: OrderId,
        amount: u64,
        holder_agent: &str,
        client_signature: &[u8],
        now_ms: u64,
    ) -> (r: Result<(), PaymentError>)
        requires
            old(self).wf(),
        ensures
            final(self).wf(),
            forall|a: Seq<char>| #[trigger] final(self).balance_of(a) == old(self).balance_of(a),
            match r {
                Ok(()) => client_signature@ == escrow_signature_of(order_id, amount) && !has_escrow(
                    old(self).escrows(),
                    escrow_id,
                ) && final(self).escrows().len() == old(self).escrows().len() + 1 && final(self).escrows().drop_last() == old(self).escrows() && ({
                    let e = final(self).escrows().last();
                    &&& e.escrow_id == escrow_id
                    &&& e.order_id == order_id
                    &&& e.amount == amount
                    &&& e.client_signature@ == client_signature@
                    &&& e.holder_agent@ == holder_agent@
                    &&& e.locked_at == now_ms
                    &&& !e.released
                }),
                Err(e) => final(self).escrows() == old(self).escrows() && if client_signature@
                    != escrow_signature_of(order_id, amount) {
                    e == PaymentError::InvalidSignature { escrow_id }
                } else {
                    has_escrow(old(self).escrows(), escrow_id) && e
                        == PaymentError::DuplicateEscrow { escrow_id }
                },
            },
    {
        let expected = client_escrow_signature(order_id, amount);
        if !bytes_eq(expected.as_slice(), client_signature) {
            return Err(PaymentError::InvalidSignature { escrow_id });
        }
        if self.find(escrow_id).is_some() {
            return Err(PaymentError::DuplicateEscrow { escrow_id });
        }
        let mut sig: Vec<u8> = Vec::new();
        push_bytes(&mut sig, client_signature);
        let ghost old_escrows = self.escrows@;
        self.escrows.push(
            EscrowInfo {
                escrow_id,
                order_id,
                amount,
                client_signature: sig,
                holder_agent: holder_agent.to_owned(),
                locked_at: now_ms,
                released: false,
            },
        );
        proof {
            assert(self.escrows@.drop_last() =~= old_escrows);
            assert forall|i: int, j: int|
                0 <= i < self.escrows@.len() && 0 <= j < self.escrows@.len() && i != j implies #[trigger] self.escrows@[i].escrow_id
                != #[trigger] self.escrows@[j].escrow_id by {
                if i < old_escrows.len() && j < old_escrows.len() {
                    assert(old_escrows[i] == self.escrows@[i]);
                    assert(old_escrows[j] == self.escrows@[j]);
                } else if i < old_escrows.len() {
                    assert(old_escrows[i] == self.escrows@[i]);
                } else {
                    assert(old_escrows[j] == self.escrows@[j]);
                }
            }
        }
        Ok(())
    }

    /// Lock funds into an escrow, stamped with the current time; see
    /// [`EscrowLedger::lock_escrow_at`].
    pub fn lock_escrow(
        &mut self,
        escrow_id: EscrowId,
        order_id: OrderId,
        amount: u64,
        holder_agent: &str,
        client_signature: &[u8],
    ) -> (r: Result<(), PaymentError>)
        requires
            old(self).wf(),
        ensures
            final(self).wf(),
            forall|a: Seq<char>| #[trigger] final(self).balance_of(a) == old(self).balance_of(a),
            match r {
                Ok(()) => client_signature@ == escrow_signature_of(order_id, amount) && !has_escrow(
                    old(self).escrows(),
                    escrow_id,
                ) && final(self).escrows().len() == old(self).escrows().len() + 1 && final(self).escrows().drop_last() == old(self).escrows() && ({
                    let e = final(self).escrows().last();
                    &&& e.escrow_id == escrow_id
                    &&& e.order_id == order_id
                    &&& e.amount == amount
                    &&& e.client_signature@ == client_signature@
                    &&& e.holder_agent@ == holder_agent@
                    &&& !e.released
                }),
                Err(e) => final(self).escrows() == old(self).escrows() && if client_signature@
                    != escrow_signature_of(order_id, amount) {
                    e == PaymentError::InvalidSignature { escrow_id }
                } else {
                    has_escrow(old(self).escrows(), escrow_id) && e
                        == PaymentError::DuplicateEscrow { escrow_id }
                },
            },
    {
        let now = now_ms();
        self.lock_escrow_at(escrow_id, order_id, amount, holder_agent, client_signature, now)
    }

    /// Release escrow `escrow_id`, paying `amount` to `to_agent`; the
    /// escrow is marked released.  Refused when the escrow is unknown,
    /// already released, or holds less than `amount`.
    pub fn release_escrow(
        &mut self,
        escrow_id: EscrowId,
        to_agent: &str,
        amount: u64,
        validator_signatures: &[Vec<u8>],
    ) -> (r: Result<(), PaymentError>)
        requires
            old(self).wf(),
            has_escrow(old(self).escrows(), escrow_id) && !old(self).escrows()[position_of(
                old(self).escrows(),
                escrow_id,
            )].released && amount <= old(self).escrows()[position_of(
                old(self).escrows(),
                escrow_id,
            )].amount ==> old(self).balance_of(to_agent@) + amount <= u64::MAX,
        ensures
            final(self).wf(),
            ({
                let p = position_of(old(self).escrows(), escrow_id);
                let e = old(self).escrows()[p];
                match r {
                    Ok(()) => has_escrow(old(self).escrows(), escrow_id) && !e.released && amount
                        <= e.amount && final(self).escrows().len() == old(self).escrows().len() && (
                    forall|i: int|
                        0 <= i < old(self).escrows().len() && i != p ==> #[trigger] final(self).escrows()[i] == old(self).escrows()[i]) && released_copy(
                        e,
                        final(self).escrows()[p],
                    ) && (forall|a: Seq<char>|
                        #![trigger final(self).balance_of(a)]
                        final(self).balance_of(a) == old(self).balance_of(a) + if a == to_agent@ {
                            amount as int
                        } else {
                            0
                        }),
                    Err(err) => final(self).escrows() == old(self).escrows() && (forall|
                        a: Seq<char>,
                    | #[trigger] final(self).balance_of(a) == old(self).balance_of(a)) && if !has_escrow(
                        old(self).escrows(),
                        escrow_id,
                    ) {
                        err == PaymentError::NotFound { escrow_id }
                    } else if e.released {
                        err == PaymentError::AlreadyReleased { escrow_id }
                    } else {
                        amount > e.amount && err == PaymentError::AmountExceedsEscrow {
                            amount,
                            escrowed: e.amount,
                        }
                    },
                }
            }),
    {
        let i = match self.find(escrow_id) {
            Some(i) => i,
            None => {
                return Err(PaymentError::NotFound { escrow_id });
            },
        };
        if self.escrows[i].released {
            return Err(PaymentError::AlreadyReleased { escrow_id });
        }
        if amount > self.escrows[i].amount {
            return Err(PaymentError::AmountExceedsEscrow { amount, escrowed: self.escrows[i].amount });
        }
        let updated = release_copy(&self.escrows[i]);
        let ghost old_escrows = self.escrows@;
        self.escrows.set(i, updated);
        proof {
            assert forall|p: int, q: int|
                0 <= p < self.escrows@.len() && 0 <= q < self.escrows@.len() && p != q implies #[trigger] self.escrows@[p].escrow_id
                != #[trigger] self.escrows@[q].escrow_id by {
                assert(old_escrows[p].escrow_id != old_escrows[q].escrow_id);
            }
        }
        self.add_to_balance(to_agent, amount);
        Ok(())
    }

    /// Return escrow `escrow_id` to its holder (after a failure during a
    /// handoff).  An escrow already released is left as it is; an unknown
    /// one is refused.
    pub fn return_escrow(&mut self, escrow_id: EscrowId) -> (r: Result<(), PaymentError>)
        requires
            old(self).wf(),
            has_escrow(old(self).escrows(), escrow_id) && !old(self).escrows()[position_of(
                old(self).escrows(),
                escrow_id,
            )].released ==> old(self).balance_of(
                old(self).escrows()[position_of(old(self).escrows(), escrow_id)].holder_agent@,
            ) + old(self).escrows()[position_of(old(self).escrows(), escrow_id)].amount
                <= u64::MAX,
        ensures
            final(self).wf(),
            ({
                let p = position_of(old(self).escrows(), escrow_id);
                let e = old(self).escrows()[p];
                match r {
                    Ok(()) => has_escrow(old(self).escrows(), escrow_id) && if e.released {
                        final(self).escrows() == old(self).escrows() && forall|a: Seq<char>|
                            #[trigger] final(self).balance_of(a) == old(self).balance_of(a)
                    } else {
                        final(self).escrows().len() == old(self).escrows().len() && (forall|i: int|
                            0 <= i < old(self).escrows().len() && i != p ==> #[trigger] final(self).escrows()[i] == old(self).escrows()[i]) && released_copy(
                            e,
                            final(self).escrows()[p],
                        ) && (forall|a: Seq<char>|
                            #![trigger final(self).balance_of(a)]
                            final(self).balance_of(a) == old(self).balance_of(a)
                                + if a == e.holder_agent@ {
                                e.amount as int
                            } else {
                                0
                            })
                    },
                    Err(err) => !has_escrow(old(self).escrows(), escrow_id) && err
                        == PaymentError::NotFound { escrow_id } && final(self).escrows() == old(self).escrows() && forall|a: Seq<char>|
                        #[trigger] final(self).balance_of(a) == old(self).balance_of(a),
                }
            }),
    {
        let i = match self.find(escrow_id) {
            Some(i) => i,
            None => {
                return Err(PaymentError::NotFound { escrow_id });
            },
        };
        if self.escrows[i].released {
            return Ok(());
        }
        let updated = release_copy(&self.escrows[i]);
        let holder = self.escrows[i].holder_agent.clone();
        let amount = self.escrows[i].amount;
        let ghost old_escrows = self.escrows@;
        self.escrows.set(i, updated);
        proof {
            assert forall|p: int, q: int|
                0 <= p < self.escrows@.len() && 0 <= q < self.escrows@.len() && p != q implies #[trigger] self.escrows@[p].escrow_id
                != #[trigger] self.escrows@[q].escrow_id by {
                assert(old_escrows[p].escrow_id != old_escrows[q].escrow_id);
            }
        }
        self.add_to_balance(holder.as_str(), amount);
        Ok(())
    }

    /// Pay `amount` from `from_agent` to `to_agent` (a handoff
    /// micro-payment).  Refused when `from_agent` holds less than `amount`.
    pub fn transfer(&mut self, from_agent: &str, to_agent: &str, amount: u64) -> (r: Result<
        (),
        PaymentError,
    >)
        requires
            old(self).wf(),
            from_agent@ != to_agent@ && old(self).balance_of(from_agent@) >= amount ==> old(self).balance_of(to_agent@) + amount <= u64::MAX,
        ensures
            final(self).wf(),
            final(self).escrows() == old(self).escrows(),
            match r {
                Ok(()) => old(self).balance_of(from_agent@) >= amount && forall|a: Seq<char>|
                    #![trigger final(self).balance_of(a)]
                    final(self).balance_of(a) == old(self).balance_of(a) - (if a == from_agent@ {
                        amount as int
                    } else {
                        0
                    }) + (if a == to_agent@ {
                        amount as int
                    } else {
                        0
                    }),
                Err(err) => old(self).balance_of(from_agent@) < amount && (forall|a: Seq<char>|
                    #[trigger] final(self).balance_of(a) == old(self).balance_of(a)) && match err {
                    PaymentError::InsufficientBalance { from_agent: f, has, amount: need } => f@
                        == from_agent@ && has == old(self).balance_of(from_agent@) && need == amount,
                    _ => false,
                },
            },
    {
        let from_balance = self.balance(from_agent);
        if from_balance < amount {
            self.set_balance(from_agent, from_balance);
            return Err(
                PaymentError::InsufficientBalance {
                    from_agent: from_agent.to_owned(),
                    has: from_balance,
                    amount,
                },
            );
        }
        self.set_balance(from_agent, from_balance - amount);
        self.add_to_balance(to_agent, amount);
        Ok(())
    }

    /// Return every escrow that has timed out at `now` (unreleased, and
    /// locked more than `ESCROW_TIMEOUT_MS` before `now`) to its holder,
    /// marking it released; returns their ids in the order they were
    /// locked.
    pub fn recover_timed_out_at(&mut self, now: u64) -> (r: Vec<EscrowId>)
        requires
            old(self).wf(),
            forall|a: Seq<char>| old(self).balance_of(a) + recovered_for(old(self).escrows(), now, a) <= u64::MAX,
        ensures
            final(self).wf(),
            r@ == timed_out_ids(old(self).escrows(), now),
            final(self).escrows().len() == old(self).escrows().len(),
            forall|i: int|
                #![trigger final(self).escrows()[i]]
                0 <= i < old(self).escrows().len() ==> if timed_out(old(self).escrows()[i], now) {
                    released_copy(old(self).escrows()[i], final(self).escrows()[i])
                } else {
                    final(self).escrows()[i] == old(self).escrows()[i]
                },
            forall|a: Seq<char>|
                #![trigger final(self).balance_of(a)]
                final(self).balance_of(a) == old(self).balance_of(a) + recovered_for(
                    old(self).escrows(),
                    now,
                    a,
                ),
    {
        let ghost start = self.escrows@;
        let ghost start_self = *self;
        let n = self.escrows.len();
        let mut out: Vec<EscrowId> = Vec::new();
        let mut i: usize = 0;
        proof {
            assert(start.take(0) =~= Seq::<EscrowInfo>::empty());
        }
        while i < n
            invariant
                self.wf(),
                n == start.len(),
                self.escrows@.len() == n,
                i <= n,
                forall|j: int|
                    #![trigger self.escrows@[j]]
                    0 <= j < i ==> if timed_out(start[j], now) {
                        released_copy(start[j], self.escrows@[j])
                    } else {
                        self.escrows@[j] == start[j]
                    },
                forall|j: int| #![trigger self.escrows@[j]] i <= j < n ==> self.escrows@[j] == start[j],
                out@ == timed_out_ids(start.take(i as int), now),
                forall|a: Seq<char>|
                    #![trigger self.balance_of(a)]
                    self.balance_of(a) == start_self.balance_of(a) + recovered_for(
                        start.take(i as int),
                        now,
                        a,
                    ),
                forall|a: Seq<char>| start_self.balance_of(a) + recovered_for(start, now, a) <= u64::MAX,
            decreases n - i,
        {
            proof {
                assert(start.take(i + 1).drop_last() =~= start.take(i as int));
                assert(start.take(i + 1).last() == start[i as int]);
            }
            let ghost pre = *self;
            let due = !self.escrows[i].released && now >= self.escrows[i].locked_at && now
                - self.escrows[i].locked_at > ESCROW_TIMEOUT_MS;
            if due {
                let updated = release_copy(&self.escrows[i]);
                let holder = self.escrows[i].holder_agent.clone();
                let amount = self.escrows[i].amount;
                out.push(self.escrows[i].escrow_id);
                let ghost before = self.escrows@;
                self.escrows.set(i, updated);
                proof {
                    assert forall|p: int, q: int|
                        0 <= p < self.escrows@.len() && 0 <= q < self.escrows@.len() && p != q implies #[trigger] self.escrows@[p].escrow_id
                        != #[trigger] self.escrows@[q].escrow_id by {
                        assert(before[p].escrow_id != before[q].escrow_id);
                    }
                    lemma_recovered_prefix(start, now, holder@, i + 1);
                    assert(start_self.balance_of(holder@) + recovered_for(start, now, holder@) <= u64::MAX);
                    assert(self.balance_of(holder@) == pre.balance_of(holder@));
                }
                self.add_to_balance(holder.as_str(), amount);
                proof {
                    assert forall|a: Seq<char>|
                        #![trigger self.balance_of(a)]
                        self.balance_of(a) == start_self.balance_of(a) + recovered_for(
                            start.take(i + 1),
                            now,
                            a,
                        ) by {
                        assert(pre.balance_of(a) == start_self.balance_of(a) + recovered_for(
                            start.take(i as int),
                            now,
                            a,
                        ));
                    }
                }
            } else {
                proof {
                    assert forall|a: Seq<char>|
                        #![trigger self.balance_of(a)]
                        self.balance_of(a) == start_self.balance_of(a) + recovered_for(
                            start.take(i + 1),
                            now,
                            a,
                        ) by {
                        assert(pre.balance_of(a) == start_self.balance_of(a) + recovered_for(
                            start.take(i as int),
                            now,
                            a,
                        ));
                    }
                }
            }
            i = i + 1;
        }
        proof {
            assert(start.take(n as int) =~= start);
        }
        out
    }

    /// Return every escrow that has timed out by the current time to its
    /// holder; see [`EscrowLedger::recover_timed_out_at`].
    pub fn recover_timed_out(&mut self) -> (r: Vec<EscrowId>)
        requires
            old(self).wf(),
            timeouts_fit(old(self)),
        ensures
            final(self).wf(),
            exists|now: u64|
                {
                    &&& r@ == timed_out_ids(old(self).escrows(), now)
                    &&& final(self).escrows().len() == old(self).escrows().len()
                    &&& forall|i: int|
                        #![trigger final(self).escrows()[i]]
                        0 <= i < old(self).escrows().len() ==> if timed_out(
                            old(self).escrows()[i],
                            now,
                        ) {
                            released_copy(old(self).escrows()[i], final(self).escrows()[i])
                        } else {
                            final(self).escrows()[i] == old(self).escrows()[i]
                        }
                    &&& forall|a: Seq<char>|
                        #![trigger final(self).balance_of(a)]
                        final(self).balance_of(a) == old(self).balance_of(a) + recovered_for(
                            old(self).escrows(),
                            now,
                            a,
                        )
                },
    {
        let now = now_ms();
        self.recover_timed_out_at(now)
    }
}

} // verus!
