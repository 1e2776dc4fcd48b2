//! In-memory settlement ledger: escrow reservations, mid-delivery handoff
//! transfers, final payments and refunds per order.
//!
//! Money is only ever moved: reserving, transferring, releasing and
//! refunding leave the ledger's total funds (all balances plus all escrowed
//! amounts) unchanged; only `credit` adds funds.

use vstd::prelude::*;

use crate::sums::{lemma_sum_by_insert, sum_by};
use crate::table::NameTable;
use crate::text::{decimal, decimal_text};
use crate::types::NodeId;

verus! {

/// Settlement state of one order's escrow.
#[derive(Debug, Clone, Copy, PartialEq, Eq, Structural)]
pub enum EscrowState {
    /// Funds are reserved but not yet disbursed.
    Reserved,
    /// A mid-delivery handoff transfer has been applied.
    Transferred,
    /// Final payment has been released to the delivering agent.
    Released,
    /// The order was cancelled and funds refunded to the originator.
    Refunded,
}

/// The escrow held for one order.
#[derive(Debug)]
pub struct EscrowEntry {
    pub originator: NodeId,
    pub current_holder: NodeId,
    pub amount: u64,
    pub state: EscrowState,
}

/// Why a ledger operation was refused.
#[derive(Debug, Clone, PartialEq, Eq)]
pub enum LedgerError {
    EscrowExists { order_id: String },
    InsufficientFunds { order_id: String, have: u64, need: u64 },
    NoEscrow { order_id: String },
    CannotTransfer { order_id: String, state: EscrowState },
    FeeExceedsEscrow { order_id: String, fee: u64, amount: u64 },
    AlreadyReleased { order_id: String },
    AlreadyRefunded { order_id: String },
    ReleasedCannotRefund { order_id: String },
}

/// The name by which an escrow state is printed.
pub open spec fn escrow_state_text(s: EscrowState) -> Seq<char> {
    match s {
        EscrowState::Reserved => "Reserved"@,
        EscrowState::Transferred => "Transferred"@,
        EscrowState::Released => "Released"@,
        EscrowState::Refunded => "Refunded"@,
    }
}

fn escrow_state_name(s: EscrowState) -> (r: &'static str)
    ensures
        r@ == escrow_state_text(s),
{
    match s {
        EscrowState::Reserved => "Reserved",
        EscrowState::Transferred => "Transferred",
        EscrowState::Released => "Released",
        EscrowState::Refunded => "Refunded",
    }
}

/// The text of a [`LedgerError`].
pub open spec fn ledger_error_text(e: LedgerError) -> Seq<char> {
    match e {
        LedgerError::EscrowExists { order_id } => "Order '"@ + order_id@
            + "': escrow already exists"@,
        LedgerError::InsufficientFunds { order_id, have, need } => "Order '"@ + order_id@
            + "': insufficient funds (have "@ + decimal(have as nat) + ", need "@ + decimal(
            need as nat,
        ) + ")"@,
        LedgerError::NoEscrow { order_id } => "Order '"@ + order_id@ + "': no escrow found"@,
        LedgerError::CannotTransfer { order_id, state } => "Order '"@ + order_id@
            + "': cannot transfer from state "@ + escrow_state_text(state),
        LedgerError::FeeExceedsEscrow { order_id, fee, amount } => "Order '"@ + order_id@
            + "': handoff fee "@ + decimal(fee as nat) + " exceeds escrow "@ + decimal(
            amount as nat,
        ),
        LedgerError::AlreadyReleased { order_id } => "Order '"@ + order_id@
            + "': already released"@,
        LedgerError::AlreadyRefunded { order_id } => "Order '"@ + order_id@
            + "': already refunded"@,
        LedgerError::ReleasedCannotRefund { order_id } => "Order '"@ + order_id@
            + "': already released, cannot refund"@,
    }
}

impl LedgerError {
    /// Human-readable description of the error.
    pub fn message(&self) -> (r: String)
        ensures
            r@ == ledger_error_text(*self),
    {
        let mut m = String::from_str("Order '");
        match self {
            LedgerError::EscrowExists { order_id } => {
                m.append(order_id.as_str());
                m.append("': escrow already exists");
            },
            LedgerError::InsufficientFunds { order_id, have, need } => {
                m.append(order_id.as_str());
                m.append("': insufficient funds (have ");
                m.append(decimal_text(*have).as_str());
                m.append(", need ");
                m.append(decimal_text(*need).as_str());
                m.append(")");
            },
            LedgerError::NoEscrow { order_id } => {
                m.append(order_id.as_str());
                m.append("': no escrow found");
            },
            LedgerError::CannotTransfer { order_id, state } => {
                m.append(order_id.as_str());
                m.append("': cannot transfer from state ");
                m.append(escrow_state_name(*state));
            },
            LedgerError::FeeExceedsEscrow { order_id, fee, amount } => {
                m.append(order_id.as_str());
                m.append("': handoff fee ");
                m.append(decimal_text(*fee).as_str());
                m.append(" exceeds escrow ");
                m.append(decimal_text(*amount).as_str());
            },
            LedgerError::AlreadyReleased { order_id } => {
                m.append(order_id.as_str());
                m.append("': already released");
            },
            LedgerError::AlreadyRefunded { order_id } => {
                m.append(order_id.as_str());
                m.append("': already refunded");
            },
            LedgerError::ReleasedCannotRefund { order_id } => {
                m.append(order_id.as_str());
                m.append("': already released, cannot refund");
            },
        }
        m
    }
}

/// The balance an agent holds in `balances`, 0 when it has none on record.
pub open spec fn balance_in(balances: Map<Seq<char>, u64>, agent: Seq<char>) -> int {
    if balances.contains_key(agent) {
        balances[agent] as int
    } else {
        0
    }
}

/// `e` holds exactly the listed fields.
pub open spec fn entry_is(
    e: EscrowEntry,
    originator: Seq<char>,
    holder: Seq<char>,
    amount: u64,
    state: EscrowState,
) -> bool {
    e.originator@ == originator && e.current_holder@ == holder && e.amount == amount && e.state
        == state
}

/// An escrow as plain values: originator, current holder, amount, state.
pub open spec fn escrow_view(e: EscrowEntry) -> (Seq<char>, Seq<char>, u64, EscrowState) {
    (e.originator@, e.current_holder@, e.amount, e.state)
}

/// Balances and escrow views after a handoff fee of `fee` is paid out of
/// `order_id`'s escrow to `from`, the escrow passing to `to`; unchanged
/// when the escrow is missing, settled or smaller than the fee.
pub open spec fn fee_paid(
    b: Map<Seq<char>, u64>,
    e: Map<Seq<char>, (Seq<char>, Seq<char>, u64, EscrowState)>,
    order_id: Seq<char>,
    from: Seq<char>,
    to: Seq<char>,
    fee: u64,
) -> (Map<Seq<char>, u64>, Map<Seq<char>, (Seq<char>, Seq<char>, u64, EscrowState)>) {
    if e.contains_key(order_id) && (e[order_id].3 == EscrowState::Reserved || e[order_id].3
        == EscrowState::Transferred) && fee <= e[order_id].2 {
        (
            b.insert(from, (balance_in(b, from) + fee) as u64),
            e.insert(order_id, (e[order_id].0, to, (e[order_id].2 - fee) as u64, EscrowState::Transferred)),
        )
    } else {
        (b, e)
    }
}

/// Balances and escrow views after `order_id`'s escrow is paid out to
/// `to`; unchanged when the escrow is missing or already settled.
pub open spec fn finally_paid(
    b: Map<Seq<char>, u64>,
    e: Map<Seq<char>, (Seq<char>, Seq<char>, u64, EscrowState)>,
    order_id: Seq<char>,
    to: Seq<char>,
) -> (Map<Seq<char>, u64>, Map<Seq<char>, (Seq<char>, Seq<char>, u64, EscrowState)>) {
    if e.contains_key(order_id) && e[order_id].3 != EscrowState::Released && e[order_id].3
        != EscrowState::Refunded {
        (
            b.insert(to, (balance_in(b, to) + e[order_id].2) as u64),
            e.insert(order_id, (e[order_id].0, e[order_id].1, 0, EscrowState::Released)),
        )
    } else {
        (b, e)
    }
}

/// Minimal in-memory settlement ledger.
pub struct Ledger {
    /// Spendable balances per agent.
    pub balances: NameTable<u64>,
    /// Escrow entries per order id.
    escrows: NameTable<EscrowEntry>,
}

impl Ledger {
    /// Spendable balances per agent.
    pub closed spec fn balances(&self) -> Map<Seq<char>, u64> {
        self.balances@
    }

    /// Escrow entries per order id.
    pub closed spec fn escrows(&self) -> Map<Seq<char>, EscrowEntry> {
        self.escrows@
    }

    /// The escrows as plain values, per order id.
    pub open spec fn escrow_views(&self) -> Map<Seq<char>, (Seq<char>, Seq<char>, u64, EscrowState)> {
        self.escrows().map_values(|e: EscrowEntry| escrow_view(e))
    }

    /// All funds the ledger holds: every balance plus every escrowed amount.
    pub closed spec fn total_funds(&self) -> int {
        sum_by(self.balances@, |b: u64| b as int) + sum_by(self.escrows(), |e: EscrowEntry| e.amount as int)
    }

    /// An empty ledger.
    pub fn new() -> (l: Self)
        ensures
            l.balances() == Map::<Seq<char>, u64>::empty(),
            l.escrows() == Map::<Seq<char>, EscrowEntry>::empty(),
            l.total_funds() == 0,
    {
        let l = Ledger { balances: NameTable::new(), escrows: NameTable::new() };
        proof {
            crate::sums::lemma_sum_by_empty(l.balances@, |b: u64| b as int);
            crate::sums::lemma_sum_by_empty(l.escrows(), |e: EscrowEntry| e.amount as int);
        }
        l
    }

    /// Balance of `agent`, 0 when it has none on record.
    pub fn balance_of(&self, agent: &str) -> (r: u64)
        ensures
            r == balance_in(self.balances(), agent@),
            self.balances().dom().finite(),
            self.escrows().dom().finite(),
    {
        self.balances.len();
        self.escrows.len();
        match self.balances.get(agent) {
            Some(b) => *b,
            None => 0,
        }
    }

    /// Set `agent`'s balance, keeping track of the total.
    fn set_balance(&mut self, agent: &str, value: u64)
        requires
            old(self).balances().dom().finite(),
        ensures
            final(self).balances() == old(self).balances().insert(agent@, value),
            final(self).escrows() == old(self).escrows(),
            sum_by(final(self).balances(), |b: u64| b as int) == sum_by(old(self).balances(), |b: u64| b as int)
                - balance_in(old(self).balances(), agent@) + value,
    {
        proof {
            lemma_sum_by_insert(self.balances@, agent@, value, |b: u64| b as int);
        }
        self.balances.insert(agent.to_owned(), value);
    }

    /// Credit an agent's balance (e.g. during setup or a top-up).
    pub fn credit(&mut self, agent: &str, amount: u64)
        requires
            balance_in(old(self).balances(), agent@) + amount <= u64::MAX,
        ensures
            final(self).balances() == old(self).balances().insert(
                agent@,
                (balance_in(old(self).balances(), agent@) + amount) as u64,
            ),
            final(self).escrows() == old(self).escrows(),
            final(self).total_funds() == old(self).total_funds() + amount,
    {
        let b = self.balance_of(agent);
        self.set_balance(agent, b + amount);
    }

    /// Current escrow amount remaining for an order (0 if there is none).
    pub fn escrow_balance(&self, order_id: &str) -> (r: u64)
        ensures
            r == (if self.escrows().contains_key(order_id@) {
                self.escrows()[order_id@].amount
            } else {
                0
            }),
    {
        match self.escrows.get(order_id) {
            Some(e) => e.amount,
            None => 0,
        }
    }

    /// Record `entry` as `order_id`'s escrow, keeping track of the total.
    fn set_escrow(&mut self, order_id: &str, entry: EscrowEntry)
        requires
            old(self).escrows().dom().finite(),
        ensures
            final(self).escrows() == old(self).escrows().insert(order_id@, entry),
            final(self).balances() == old(self).balances(),
            sum_by(final(self).escrows(), |e: EscrowEntry| e.amount as int) == sum_by(
                old(self).escrows(),
                |e: EscrowEntry| e.amount as int,
            ) - (if old(self).escrows().contains_key(order_id@) {
                old(self).escrows()[order_id@].amount as int
            } else {
                0
            }) + entry.amount,
    {
        proof {
            lemma_sum_by_insert(self.escrows@, order_id@, entry, |e: EscrowEntry| e.amount as int);
        }
        self.escrows.insert(order_id.to_owned(), entry);
    }

    /// Reserve `amount` from `originator`'s balance into escrow for
    /// `order_id`.  Fails if the order already has an escrow, or if the
    /// originator has less than `amount` (the originator is then put on
    /// record, with a balance of 0 if it had none).
    pub fn reserve_escrow(&mut self, order_id: &str, originator: &str, amount: u64) -> (r: Result<
        (),
        LedgerError,
    >)
        ensures
            final(self).total_funds() == old(self).total_funds(),
            ({
                let have = balance_in(old(self).balances(), originator@);
                match r {
                    Ok(()) => !old(self).escrows().contains_key(order_id@) && have >= amount
                        && final(self).balances() == old(self).balances().insert(
                        originator@,
                        (have - amount) as u64,
                    ) && final(self).escrows().dom() == old(self).escrows().dom().insert(
                        order_id@,
                    ) && (forall|k: Seq<char>|
                        k != order_id@ ==> #[trigger] final(self).escrows()[k] == old(self).escrows()[k]) && entry_is(
                        final(self).escrows()[order_id@],
                        originator@,
                        Seq::empty(),
                        amount,
                        EscrowState::Reserved,
                    ),
                    Err(LedgerError::EscrowExists { order_id: id }) => old(self).escrows().contains_key(order_id@) && id@ == order_id@ && final(self).balances()
                        == old(self).balances() && final(self).escrows() == old(self).escrows(),
                    Err(LedgerError::InsufficientFunds { order_id: id, have: h, need }) => !old(self).escrows().contains_key(order_id@) && id@ == order_id@ && h == have && need
                        == amount && have < amount && final(self).balances() == old(self).balances().insert(originator@, h) && final(self).escrows() == old(self).escrows(),
                    Err(_) => false,
                }
            }),
    {
        let have = self.balance_of(originator);
        if self.escrows.contains_key(order_id) {
            return Err(LedgerError::EscrowExists { order_id: order_id.to_owned() });
        }
        if have < amount {
            proof {
                if self.balances@.contains_key(originator@) {
                    assert(self.balances@.insert(originator@, have) =~= self.balances@);
                }
            }
            self.set_balance(originator, have);
            return Err(
                LedgerError::InsufficientFunds { order_id: order_id.to_owned(), have, need: amount },
            );
        }
        self.set_balance(originator, have - amount);
        let entry = EscrowEntry {
            originator: originator.to_owned(),
            current_holder: String::new(),
            amount,
            state: EscrowState::Reserved,
        };
        self.set_escrow(order_id, entry);
        Ok(())
    }

    /// Pay a handoff fee to the outgoing agent: `fee` goes to `from_agent`,
    /// the rest stays in escrow for `to_agent`, and the escrow becomes
    /// `Transferred`.  Fails if there is no escrow, if it is already
    /// released or refunded, or if `fee` exceeds what remains in it.
    pub fn transfer_for_handoff(
        &mut self,
        order_id: &str,
        from_agent: &str,
        to_agent: &str,
        fee: u64,
    ) -> (r: Result<(), LedgerError>)
        requires
            old(self).escrows().contains_key(order_id@) && (old(self).escrows()[order_id@].state
                == EscrowState::Reserved || old(self).escrows()[order_id@].state
                == EscrowState::Transferred) && fee <= old(self).escrows()[order_id@].amount
                ==> balance_in(old(self).balances(), from_agent@) + fee <= u64::MAX,
        ensures
            final(self).total_funds() == old(self).total_funds(),
            (final(self).balances(), final(self).escrow_views()) == fee_paid(
                old(self).balances(),
                old(self).escrow_views(),
                order_id@,
                from_agent@,
                to_agent@,
                fee,
            ),
            ({
                let e = old(self).escrows()[order_id@];
                match r {
                    Ok(()) => old(self).escrows().contains_key(order_id@) && (e.state
                        == EscrowState::Reserved || e.state == EscrowState::Transferred) && fee
                        <= e.amount && final(self).balances() == old(self).balances().insert(
                        from_agent@,
                        (balance_in(old(self).balances(), from_agent@) + fee) as u64,
                    ) && final(self).escrows().dom() == old(self).escrows().dom() && (forall|
                        k: Seq<char>,
                    |
                        k != order_id@ ==> #[trigger] final(self).escrows()[k] == old(self).escrows()[k]) && entry_is(
                        final(self).escrows()[order_id@],
                        e.originator@,
                        to_agent@,
                        (e.amount - fee) as u64,
                        EscrowState::Transferred,
                    ),
                    Err(err) => final(self).balances() == old(self).balances() && final(self).escrows() == old(self).escrows() && match err {
                        LedgerError::NoEscrow { order_id: id } => id@ == order_id@ && !old(self).escrows().contains_key(order_id@),
                        LedgerError::CannotTransfer { order_id: id, state } => id@ == order_id@
                            && old(self).escrows().contains_key(order_id@) && state == e.state
                            && state != EscrowState::Reserved && state
                            != EscrowState::Transferred,
                        LedgerError::FeeExceedsEscrow { order_id: id, fee: f, amount } => id@
                            == order_id@ && old(self).escrows().contains_key(order_id@) && (e.state
                            == EscrowState::Reserved || e.state == EscrowState::Transferred) && f
                            == fee && amount == e.amount && fee > e.amount,
                        _ => false,
                    },
                }
            }),
    {
        let from_balance = self.balance_of(from_agent);
        let (originator, amount, state) = match self.escrows.get(order_id) {
            Some(e) => (e.originator.clone(), e.amount, e.state),
            None => {
                return Err(LedgerError::NoEscrow { order_id: order_id.to_owned() });
            },
        };
        if state != EscrowState::Reserved && state != EscrowState::Transferred {
            return Err(LedgerError::CannotTransfer { order_id: order_id.to_owned(), state });
        }
        if fee > amount {
            return Err(
                LedgerError::FeeExceedsEscrow { order_id: order_id.to_owned(), fee, amount },
            );
        }
        let ghost old_escrows = self.escrows@;
        let entry = EscrowEntry {
            originator,
            current_holder: to_agent.to_owned(),
            amount: amount - fee,
            state: EscrowState::Transferred,
        };
        self.set_escrow(order_id, entry);
        self.set_balance(from_agent, from_balance + fee);
        proof {
            assert(self.escrows@.dom() =~= old_escrows.dom());
            assert(self.escrow_views() =~= old(self).escrow_views().insert(
                order_id@,
                escrow_view(self.escrows@[order_id@]),
            ));
        }
        Ok(())
    }

    /// Release the remaining escrow to `delivering_agent` as final payment;
    /// the escrow becomes `Released` with nothing left in it.  Fails if
    /// there is no escrow or it is already released or refunded.
    pub fn release_final_payment(&mut self, order_id: &str, delivering_agent: &str) -> (r: Result<
        (),
        LedgerError,
    >)
        requires
            old(self).escrows().contains_key(order_id@) && old(self).escrows()[order_id@].state
                != EscrowState::Released && old(self).escrows()[order_id@].state
                != EscrowState::Refunded ==> balance_in(old(self).balances(), delivering_agent@)
                + old(self).escrows()[order_id@].amount <= u64::MAX,
        ensures
            final(self).total_funds() == old(self).total_funds(),
            (final(self).balances(), final(self).escrow_views()) == finally_paid(
                old(self).balances(),
                old(self).escrow_views(),
                order_id@,
                delivering_agent@,
            ),
            ({
                let e = old(self).escrows()[order_id@];
                match r {
                    Ok(()) => old(self).escrows().contains_key(order_id@) && e.state
                        != EscrowState::Released && e.state != EscrowState::Refunded && final(self).balances() == old(self).balances().insert(
                        delivering_agent@,
                        (balance_in(old(self).balances(), delivering_agent@) + e.amount) as u64,
                    ) && final(self).escrows().dom() == old(self).escrows().dom() && (forall|
                        k: Seq<char>,
                    |
                        k != order_id@ ==> #[trigger] final(self).escrows()[k] == old(self).escrows()[k]) && entry_is(
                        final(self).escrows()[order_id@],
                        e.originator@,
                        e.current_holder@,
                        0,
                        EscrowState::Released,
                    ),
                    Err(err) => final(self).balances() == old(self).balances() && final(self).escrows() == old(self).escrows() && match err {
                        LedgerError::NoEscrow { order_id: id } => id@ == order_id@ && !old(self).escrows().contains_key(order_id@),
                        LedgerError::AlreadyReleased { order_id: id } => id@ == order_id@ && old(self).escrows().contains_key(order_id@) && e.state == EscrowState::Released,
                        LedgerError::AlreadyRefunded { order_id: id } => id@ == order_id@ && old(self).escrows().contains_key(order_id@) && e.state == EscrowState::Refunded,
                        _ => false,
                    },
                }
            }),
    {
        let to_balance = self.balance_of(delivering_agent);
        let (originator, holder, amount, state) = match self.escrows.get(order_id) {
            Some(e) => (e.originator.clone(), e.current_holder.clone(), e.amount, e.state),
            None => {
                return Err(LedgerError::NoEscrow { order_id: order_id.to_owned() });
            },
        };
        match state {
            EscrowState::Released => {
                return Err(LedgerError::AlreadyReleased { order_id: order_id.to_owned() });
            },
            EscrowState::Refunded => {
                return Err(LedgerError::AlreadyRefunded { order_id: order_id.to_owned() });
            },
            _ => {},
        }
        let ghost old_escrows = self.escrows@;
        let entry = EscrowEntry {
            originator,
            current_holder: holder,
            amount: 0,
            state: EscrowState::Released,
        };
        self.set_escrow(order_id, entry);
        self.set_balance(delivering_agent, to_balance + amount);
        proof {
            assert(self.escrows@.dom() =~= old_escrows.dom());
            assert(self.escrow_views() =~= old(self).escrow_views().insert(
                order_id@,
                escrow_view(self.escrows@[order_id@]),
            ));
        }
        Ok(())
    }

    /// Refund the remaining escrow to the order's originator (e.g. a
    /// cancelled order); the escrow becomes `Refunded` with nothing left in
    /// it.  Fails if there is no escrow or it is already released or
    /// refunded.
    pub fn refund_previous_agent(&mut self, order_id: &str) -> (r: Result<(), LedgerError>)
        requires
            old(self).escrows().contains_key(order_id@) && old(self).escrows()[order_id@].state
                != EscrowState::Released && old(self).escrows()[order_id@].state
                != EscrowState::Refunded ==> balance_in(
                old(self).balances(),
                old(self).escrows()[order_id@].originator@,
            ) + old(self).escrows()[order_id@].amount <= u64::MAX,
        ensures
            final(self).total_funds() == old(self).total_funds(),
            ({
                let e = old(self).escrows()[order_id@];
                match r {
                    Ok(()) => old(self).escrows().contains_key(order_id@) && e.state
                        != EscrowState::Released && e.state != EscrowState::Refunded && final(self).balances() == old(self).balances().insert(
                        e.originator@,
                        (balance_in(old(self).balances(), e.originator@) + e.amount) as u64,
                    ) && final(self).escrows().dom() == old(self).escrows().dom() && (forall|
                        k: Seq<char>,
                    |
                        k != order_id@ ==> #[trigger] final(self).escrows()[k] == old(self).escrows()[k]) && entry_is(
                        final(self).escrows()[order_id@],
                        e.originator@,
                        e.current_holder@,
                        0,
                        EscrowState::Refunded,
                    ),
                    Err(err) => final(self).balances() == old(self).balances() && final(self).escrows() == old(self).escrows() && match err {
                        LedgerError::NoEscrow { order_id: id } => id@ == order_id@ && !old(self).escrows().contains_key(order_id@),
                        LedgerError::ReleasedCannotRefund { order_id: id } => id@ == order_id@
                            && old(self).escrows().contains_key(order_id@) && e.state
                            == EscrowState::Released,
                        LedgerError::AlreadyRefunded { order_id: id } => id@ == order_id@ && old(self).escrows().contains_key(order_id@) && e.state == EscrowState::Refunded,
                        _ => false,
                    },
                }
            }),
    {
        let (originator, holder, amount, state) = match self.escrows.get(order_id) {
            Some(e) => (e.originator.clone(), e.current_holder.clone(), e.amount, e.state),
            None => {
                self.balance_of(order_id);
                return Err(LedgerError::NoEscrow { order_id: order_id.to_owned() });
            },
        };
        match state {
            EscrowState::Released => {
                return Err(LedgerError::ReleasedCannotRefund { order_id: order_id.to_owned() });
            },
            EscrowState::Refunded => {
                return Err(LedgerError::AlreadyRefunded { order_id: order_id.to_owned() });
            },
            _ => {},
        }
        let back = self.balance_of(originator.as_str());
        let ghost old_escrows = self.escrows@;
        let entry = EscrowEntry {
            originator: originator.clone(),
            current_holder: holder,
            amount: 0,
            state: EscrowState::Refunded,
        };
        self.set_escrow(order_id, entry);
        self.set_balance(originator.as_str(), back + amount);
        proof {
            assert(self.escrows@.dom() =~= old_escrows.dom());
        }
        Ok(())
    }
}

/// One balance plus one escrowed amount never exceed the ledger's total
/// funds.
pub proof fn lemma_parts_within_total(l: &Ledger, agent: Seq<char>, order_id: Seq<char>)
    requires
        l.balances().dom().finite(),
        l.escrows().dom().finite(),
    ensures
        balance_in(l.balances(), agent) + (if l.escrows().contains_key(order_id) {
            l.escrows()[order_id].amount as int
        } else {
            0
        }) <= l.total_funds(),
{
    let fb = |b: u64| b as int;
    let fe = |e: EscrowEntry| e.amount as int;
    assert forall|v: u64| #[trigger] fb(v) >= 0 by {}
    assert forall|v: EscrowEntry| #[trigger] fe(v) >= 0 by {}
    crate::sums::lemma_sum_by_nonneg(l.balances(), fb);
    crate::sums::lemma_sum_by_nonneg(l.escrows(), fe);
    if l.balances().contains_key(agent) {
        crate::sums::lemma_sum_by_ge_each(l.balances(), fb, agent);
    }
    if l.escrows().contains_key(order_id) {
        crate::sums::lemma_sum_by_ge_each(l.escrows(), fe, order_id);
    }
}

} // verus!
