use vstd::prelude::*;

verus! {

/// A debt record: an amount owed by a debtor to a creditor.
pub struct Debt {
    pub id: u64,
    pub debtor: String,
    pub creditor: String,
    pub amount: u64,
    pub created_at: u64,
}

/// Spec-level model of a debt record, with text as character sequences.
pub struct DebtModel {
    pub id: u64,
    pub debtor: Seq<char>,
    pub creditor: Seq<char>,
    pub amount: u64,
    pub created_at: u64,
}

impl View for Debt {
    type V = DebtModel;

    open spec fn view(&self) -> DebtModel {
        DebtModel {
            id: self.id,
            debtor: self.debtor@,
            creditor: self.creditor@,
            amount: self.amount,
            created_at: self.created_at,
        }
    }
}

impl Clone for Debt {
    fn clone(&self) -> (r: Self)
        ensures
            r@ == self@,
    {
        Debt {
            id: self.id,
            debtor: self.debtor.clone(),
            creditor: self.creditor.clone(),
            amount: self.amount,
            created_at: self.created_at,
        }
    }
}

/// An escrow record: an amount held against the debt it secures.
/// `debt_id` doubles as the record's storage key.
pub struct Escrow {
    pub debt_id: u64,
    pub amount: u64,
    pub created_at: u64,
}

/// Spec-level model of an escrow record.
pub struct EscrowModel {
    pub debt_id: u64,
    pub amount: u64,
    pub created_at: u64,
}

impl View for Escrow {
    type V = EscrowModel;

    open spec fn view(&self) -> EscrowModel {
        EscrowModel { debt_id: self.debt_id, amount: self.amount, created_at: self.created_at }
    }
}

impl Clone for Escrow {
    fn clone(&self) -> (r: Self)
        ensures
            r@ == self@,
    {
        Escrow { debt_id: self.debt_id, amount: self.amount, created_at: self.created_at }
    }
}

/// The fields a caller supplies to create or update a debt.
pub struct DebtPayload {
    pub debtor: String,
    pub creditor: String,
    pub amount: u64,
}

/// A stored debt names both parties and holds a positive amount.
pub open spec fn valid_debt(d: DebtModel) -> bool {
    d.debtor.len() > 0 && d.creditor.len() > 0 && d.amount > 0
}

/// A stored escrow holds a positive amount.
pub open spec fn valid_escrow(e: EscrowModel) -> bool {
    e.amount > 0
}

/// The typed errors a caller can receive; each carries a readable message.
#[derive(Debug)]
pub enum Error {
    NotFound { msg: String },
    InvalidInput { msg: String },
}

/// Whether a result is a not-found error carrying exactly this message.
pub open spec fn err_not_found<T>(r: Result<T, Error>, m: Seq<char>) -> bool {
    match r {
        Result::Err(Error::NotFound { msg }) => msg@ == m,
        _ => false,
    }
}

/// Whether a result is an invalid-input error carrying exactly this message.
pub open spec fn err_invalid<T>(r: Result<T, Error>, m: Seq<char>) -> bool {
    match r {
        Result::Err(Error::InvalidInput { msg }) => msg@ == m,
        _ => false,
    }
}

} // verus!
