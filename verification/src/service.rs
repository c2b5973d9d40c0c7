use vstd::prelude::*;
use vstd::utf8::encode_utf8;

use crate::backing::backing_init;
use crate::codec::{lemma_debt_encoded_len, spec_encode_debt, DEBT_HEADER_BYTES, MAX_RECORD_BYTES};
use crate::messages::{
    debt_delete_not_found_msg, debt_not_found_msg, debt_update_not_found_msg,
    escrow_create_not_found_msg, escrow_not_found_msg, id_message, invalid_debt_input_msg,
    invalid_escrow_amount_msg,
};
use crate::records::{
    err_invalid, err_not_found, valid_debt, valid_escrow, Debt, DebtModel, DebtPayload, Error,
    Escrow, EscrowModel,
};
use crate::store::{DebtStore, EscrowStore, IdGen};

verus! {

/// Whether debt fields pass validation: both parties named, a positive
/// amount, and texts short enough that the encoded record respects the
/// store's record size limit.
pub open spec fn debt_input_ok(debtor: Seq<char>, creditor: Seq<char>, amount: u64) -> bool {
    &&& debtor.len() > 0
    &&& creditor.len() > 0
    &&& amount > 0
    &&& DEBT_HEADER_BYTES + encode_utf8(debtor).len() + encode_utf8(creditor).len()
        <= MAX_RECORD_BYTES
}

/// One creation step as seen through the id counter: the minted id is the
/// counter's value going in, and the counter ends strictly past it.
pub open spec fn minted(pre_counter: u64, post_counter: u64, id: u64) -> bool {
    id == pre_counter && pre_counter < post_counter
}

/// Law: the id a well-formed service will mint next is fresh — no stored
/// debt or escrow sits under it, so a record created with it collides with
/// nothing already persisted.
pub proof fn lemma_next_id_fresh(s: Service, k: u64)
    requires
        s.wf(),
        s.debt_map().contains_key(k) || s.escrow_map().contains_key(k),
    ensures
        k != s.counter(),
{
}

/// The application state: the id generator and the two record stores, each
/// over its own durable region.
pub struct Service {
    ids: IdGen,
    debts: DebtStore,
    escrows: EscrowStore,
}

impl Service {
    /// The next id the service will mint.
    pub closed spec fn counter(&self) -> u64 {
        self.ids.counter()
    }

    /// The stored debts, keyed by id.
    pub closed spec fn debt_map(&self) -> Map<u64, DebtModel> {
        self.debts.map()
    }

    /// The stored escrows, keyed by the id of the debt each secures.
    pub closed spec fn escrow_map(&self) -> Map<u64, EscrowModel> {
        self.escrows.map()
    }

    /// Well-formed state: both stores are sound, every debt sits under its
    /// own id, every escrow under the debt id it secures, and no stored key
    /// reaches the counter, so a minted id never collides with a stored one.
    pub closed spec fn wf(&self) -> bool {
        &&& self.debts.wf()
        &&& self.escrows.wf()
        &&& forall|k: u64| #[trigger]
            self.debts.map().contains_key(k) ==> self.debts.map()[k].id == k && k
                < self.ids.counter()
        &&& forall|k: u64| #[trigger]
            self.escrows.map().contains_key(k) ==> self.escrows.map()[k].debt_id == k && k
                < self.ids.counter()
    }

    /// Builds a fresh service over fresh durable regions: the counter at
    /// zero and both stores empty.
    pub fn new() -> (r: Service)
        ensures
            r.wf(),
            r.counter() == 0,
            r.debt_map() == Map::<u64, DebtModel>::empty(),
            r.escrow_map() == Map::<u64, EscrowModel>::empty(),
    {
        let b = backing_init();
        let ids = IdGen::from_region(b.counter);
        let debts = DebtStore::from_region(b.debts);
        let escrows = EscrowStore::from_region(b.escrows);
        Service { ids, debts, escrows }
    }

    /// Checks debt fields; decides exactly `debt_input_ok`.
    fn check_debt_input(payload: &DebtPayload) -> (ok: bool)
        ensures
            ok == debt_input_ok(payload.debtor@, payload.creditor@, payload.amount),
    {
        if payload.debtor.as_str().is_empty() {
            return false;
        }
        if payload.creditor.as_str().is_empty() {
            return false;
        }
        if payload.amount == 0 {
            return false;
        }
        let dlen = payload.debtor.as_str().as_bytes().len();
        let clen = payload.creditor.as_str().as_bytes().len();
        if dlen > MAX_RECORD_BYTES - DEBT_HEADER_BYTES {
            return false;
        }
        if clen > MAX_RECORD_BYTES - DEBT_HEADER_BYTES - dlen {
            return false;
        }
        true
    }

    /// Persists a debt under its own id: the shared upsert behind both
    /// creation and update. The id must already have been minted, so stored
    /// keys stay below the counter.
    pub fn do_insert_debt(&mut self, debt: &Debt)
        requires
            old(self).wf(),
            valid_debt(debt@),
            spec_encode_debt(debt@).len() <= MAX_RECORD_BYTES,
            debt@.id < old(self).counter(),
        ensures
            final(self).wf(),
            final(self).debt_map() == old(self).debt_map().insert(debt@.id, debt@),
            final(self).escrow_map() == old(self).escrow_map(),
            final(self).counter() == old(self).counter(),
    {
        self.debts.insert(debt);
    }

    /// Persists an escrow under the id of the debt it secures: the shared
    /// upsert behind both creation and update.
    pub fn do_insert_escrow(&mut self, escrow: &Escrow)
        requires
            old(self).wf(),
            valid_escrow(escrow@),
            escrow@.debt_id < old(self).counter(),
        ensures
            final(self).wf(),
            final(self).escrow_map() == old(self).escrow_map().insert(escrow@.debt_id, escrow@),
            final(self).debt_map() == old(self).debt_map(),
            final(self).counter() == old(self).counter(),
    {
        self.escrows.insert(escrow);
    }

    /// Point lookup of a debt; no side effects.
    pub fn _get_debt(&self, id: &u64) -> (r: Option<Debt>)
        requires
            self.wf(),
        ensures
            match r {
                Some(d) => self.debt_map().contains_key(*id) && d@ == self.debt_map()[*id],
                None => !self.debt_map().contains_key(*id),
            },
    {
        self.debts.get(*id)
    }

    /// Point lookup of an escrow; no side effects.
    pub fn _get_escrow(&self, debt_id: &u64) -> (r: Option<Escrow>)
        requires
            self.wf(),
        ensures
            match r {
                Some(e) => self.escrow_map().contains_key(*debt_id) && e@
                    == self.escrow_map().index(*debt_id),
                None => !self.escrow_map().contains_key(*debt_id),
            },
    {
        self.escrows.get(*debt_id)
    }

    /// Looks a debt up, or reports that the id names nothing.
    pub fn get_debt(&self, id: u64) -> (r: Result<Debt, Error>)
        requires
            self.wf(),
        ensures
            self.debt_map().contains_key(id) ==> (r matches Ok(d) && d@ == self.debt_map()[id]),
            !self.debt_map().contains_key(id) ==> err_not_found(r, debt_not_found_msg(id)),
    {
        match self._get_debt(&id) {
            Some(debt) => Ok(debt),
            None => Err(
                Error::NotFound { msg: id_message("a debt with id=", id, " not found") },
            ),
        }
    }

    /// Looks an escrow up, or reports that the debt id secures nothing.
    pub fn get_escrow(&self, debt_id: u64) -> (r: Result<Escrow, Error>)
        requires
            self.wf(),
        ensures
            self.escrow_map().contains_key(debt_id) ==> (r matches Ok(e) && e@
                == self.escrow_map().index(debt_id)),
            !self.escrow_map().contains_key(debt_id) ==> err_not_found(
                r,
                escrow_not_found_msg(debt_id),
            ),
    {
        match self._get_escrow(&debt_id) {
            Some(escrow) => Ok(escrow),
            None => Err(
                Error::NotFound { msg: id_message("escrow for debt_id=", debt_id, " not found") },
            ),
        }
    }

    /// Creates a debt: validates the fields, mints a fresh id, stamps the
    /// given creation time and persists the record. On invalid input nothing
    /// is returned and nothing changes, the counter included.
    pub fn add_debt(&mut self, debt: DebtPayload, now: u64) -> (r: Option<Debt>)
        requires
            old(self).wf(),
            old(self).counter() < u64::MAX,
        ensures
            final(self).wf(),
            final(self).escrow_map() == old(self).escrow_map(),
            !debt_input_ok(debt.debtor@, debt.creditor@, debt.amount) ==> r is None && final(self).debt_map() == old(self).debt_map() && final(self).counter() == old(self).counter(),
            debt_input_ok(debt.debtor@, debt.creditor@, debt.amount) ==> (r matches Some(d) && d@
                == (DebtModel {
                id: old(self).counter(),
                debtor: debt.debtor@,
                creditor: debt.creditor@,
                amount: debt.amount,
                created_at: now,
            }) && final(self).debt_map() == old(self).debt_map().insert(old(self).counter(), d@)
                && minted(old(self).counter(), final(self).counter(), d@.id) && final(self).counter() == old(self).counter() + 1),
    {
        if !Self::check_debt_input(&debt) {
            return None;
        }
        let id = self.ids.next_id();
        let d = Debt {
            id,
            debtor: debt.debtor,
            creditor: debt.creditor,
            amount: debt.amount,
            created_at: now,
        };
        proof {
            lemma_debt_encoded_len(d@);
        }
        self.do_insert_debt(&d);
        Some(d)
    }

    /// Updates a debt's parties and amount in place; the id and the creation
    /// stamp never change. Malformed fields are rejected before the
    /// existence lookup, so validation wins over absence.
    pub fn update_debt(&mut self, id: u64, payload: DebtPayload) -> (r: Result<Debt, Error>)
        requires
            old(self).wf(),
        ensures
            final(self).wf(),
            final(self).escrow_map() == old(self).escrow_map(),
            final(self).counter() == old(self).counter(),
            !debt_input_ok(payload.debtor@, payload.creditor@, payload.amount) ==> err_invalid(
                r,
                invalid_debt_input_msg(),
            ) && final(self).debt_map() == old(self).debt_map(),
            debt_input_ok(payload.debtor@, payload.creditor@, payload.amount) && !old(self).debt_map().contains_key(id) ==> err_not_found(r, debt_update_not_found_msg(id))
                && final(self).debt_map() == old(self).debt_map(),
            debt_input_ok(payload.debtor@, payload.creditor@, payload.amount) && old(self).debt_map().contains_key(id) ==> (r matches Ok(d) && d@ == (DebtModel {
                id,
                debtor: payload.debtor@,
                creditor: payload.creditor@,
                amount: payload.amount,
                created_at: old(self).debt_map()[id].created_at,
            }) && final(self).debt_map() == old(self).debt_map().insert(id, d@)),
    {
        if !Self::check_debt_input(&payload) {
            return Err(Error::InvalidInput { msg: "Invalid input data".to_owned() });
        }
        match self.debts.get(id) {
            Some(mut debt) => {
                debt.debtor = payload.debtor;
                debt.creditor = payload.creditor;
                debt.amount = payload.amount;
                proof {
                    lemma_debt_encoded_len(debt@);
                }
                self.do_insert_debt(&debt);
                Ok(debt)
            },
            None => Err(
                Error::NotFound {
                    msg: id_message("couldn't update a debt with id=", id, ". debt not found"),
                },
            ),
        }
    }

    /// Removes a debt, returning the removed record. The debt's escrow, if
    /// any, is left untouched: the reference is weak and nothing cascades.
    pub fn delete_debt(&mut self, id: u64) -> (r: Result<Debt, Error>)
        requires
            old(self).wf(),
        ensures
            final(self).wf(),
            final(self).escrow_map() == old(self).escrow_map(),
            final(self).counter() == old(self).counter(),
            old(self).debt_map().contains_key(id) ==> (r matches Ok(d) && d@ == old(self).debt_map()[id] && final(self).debt_map() == old(self).debt_map().remove(id)),
            !old(self).debt_map().contains_key(id) ==> err_not_found(
                r,
                debt_delete_not_found_msg(id),
            ) && final(self).debt_map() == old(self).debt_map(),
    {
        proof {
            if !old(self).debt_map().contains_key(id) {
                assert(old(self).debt_map().remove(id) =~= old(self).debt_map());
            }
        }
        match self.debts.remove(id) {
            Some(debt) => Ok(debt),
            None => Err(
                Error::NotFound {
                    msg: id_message("couldn't delete a debt with id=", id, ". debt not found."),
                },
            ),
        }
    }

    /// Creates an escrow against an existing debt: a positive amount is
    /// required, and the debt must exist right now (the check is not
    /// repeated later). An id is minted for the step and consumed even
    /// though the record is keyed by the debt's id.
    pub fn create_escrow(&mut self, debt_id: u64, amount: u64, now: u64) -> (r: Result<
        Escrow,
        Error,
    >)
        requires
            old(self).wf(),
            old(self).counter() < u64::MAX,
        ensures
            final(self).wf(),
            final(self).debt_map() == old(self).debt_map(),
            amount == 0 ==> err_invalid(r, invalid_escrow_amount_msg()) && final(self).escrow_map() == old(self).escrow_map() && final(self).counter() == old(self).counter(),
            amount > 0 && !old(self).debt_map().contains_key(debt_id) ==> err_not_found(
                r,
                escrow_create_not_found_msg(debt_id),
            ) && final(self).escrow_map() == old(self).escrow_map() && final(self).counter()
                == old(self).counter(),
            amount > 0 && old(self).debt_map().contains_key(debt_id) ==> (r matches Ok(e) && e@
                == (EscrowModel { debt_id, amount, created_at: now }) && final(self).escrow_map()
                == old(self).escrow_map().insert(debt_id, e@) && minted(
                old(self).counter(),
                final(self).counter(),
                old(self).counter(),
            ) && final(self).counter() == old(self).counter() + 1),
    {
        if amount == 0 {
            return Err(Error::InvalidInput { msg: "Invalid escrow amount".to_owned() });
        }
        match self.debts.get(debt_id) {
            Some(_) => {
                let _escrow_id = self.ids.next_id();
                let escrow = Escrow { debt_id, amount, created_at: now };
                self.do_insert_escrow(&escrow);
                Ok(escrow)
            },
            None => Err(
                Error::NotFound {
                    msg: id_message(
                        "couldn't create escrow for debt_id=",
                        debt_id,
                        ". debt not found",
                    ),
                },
            ),
        }
    }

    /// Updates an escrow's amount in place; the key and the creation stamp
    /// never change. The amount is validated before the existence lookup.
    pub fn update_escrow(&mut self, debt_id: u64, new_amount: u64) -> (r: Result<Escrow, Error>)
        requires
            old(self).wf(),
        ensures
            final(self).wf(),
            final(self).debt_map() == old(self).debt_map(),
            final(self).counter() == old(self).counter(),
            new_amount == 0 ==> err_invalid(r, invalid_escrow_amount_msg()) && final(self).escrow_map() == old(self).escrow_map(),
            new_amount > 0 && !old(self).escrow_map().contains_key(debt_id) ==> err_not_found(
                r,
                escrow_not_found_msg(debt_id),
            ) && final(self).escrow_map() == old(self).escrow_map(),
            new_amount > 0 && old(self).escrow_map().contains_key(debt_id) ==> (r matches Ok(e)
                && e@ == (EscrowModel {
                debt_id,
                amount: new_amount,
                created_at: old(self).escrow_map()[debt_id].created_at,
            }) && final(self).escrow_map() == old(self).escrow_map().insert(debt_id, e@)),
    {
        if new_amount == 0 {
            return Err(Error::InvalidInput { msg: "Invalid escrow amount".to_owned() });
        }
        match self.escrows.get(debt_id) {
            Some(mut escrow) => {
                escrow.amount = new_amount;
                self.do_insert_escrow(&escrow);
                Ok(escrow)
            },
            None => Err(
                Error::NotFound {
                    msg: id_message("escrow for debt_id=", debt_id, " not found"),
                },
            ),
        }
    }

    /// Releases an escrow: removes it and returns the amount that was held.
    pub fn release_escrow(&mut self, debt_id: u64) -> (r: Result<u64, Error>)
        requires
            old(self).wf(),
        ensures
            final(self).wf(),
            final(self).debt_map() == old(self).debt_map(),
            final(self).counter() == old(self).counter(),
            old(self).escrow_map().contains_key(debt_id) ==> (r matches Ok(a) && a == old(self).escrow_map()[debt_id].amount && final(self).escrow_map() == old(self).escrow_map().remove(debt_id)),
            !old(self).escrow_map().contains_key(debt_id) ==> err_not_found(
                r,
                escrow_not_found_msg(debt_id),
            ) && final(self).escrow_map() == old(self).escrow_map(),
    {
        proof {
            if !old(self).escrow_map().contains_key(debt_id) {
                assert(old(self).escrow_map().remove(debt_id) =~= old(self).escrow_map());
            }
        }
        match self.escrows.remove(debt_id) {
            Some(escrow) => Ok(escrow.amount),
            None => Err(
                Error::NotFound {
                    msg: id_message("escrow for debt_id=", debt_id, " not found"),
                },
            ),
        }
    }

    /// Removes an escrow, returning the removed record.
    pub fn delete_escrow(&mut self, debt_id: u64) -> (r: Result<Escrow, Error>)
        requires
            old(self).wf(),
        ensures
            final(self).wf(),
            final(self).debt_map() == old(self).debt_map(),
            final(self).counter() == old(self).counter(),
            old(self).escrow_map().contains_key(debt_id) ==> (r matches Ok(e) && e@ == old(self).escrow_map()[debt_id] && final(self).escrow_map() == old(self).escrow_map().remove(
                debt_id,
            )),
            !old(self).escrow_map().contains_key(debt_id) ==> err_not_found(
                r,
                escrow_not_found_msg(debt_id),
            ) && final(self).escrow_map() == old(self).escrow_map(),
    {
        proof {
            if !old(self).escrow_map().contains_key(debt_id) {
                assert(old(self).escrow_map().remove(debt_id) =~= old(self).escrow_map());
            }
        }
        match self.escrows.remove(debt_id) {
            Some(escrow) => Ok(escrow),
            None => Err(
                Error::NotFound {
                    msg: id_message("escrow for debt_id=", debt_id, " not found"),
                },
            ),
        }
    }

    /// The ids of all stored debts, in ascending order.
    pub fn debt_ids(&self) -> (r: Vec<u64>)
        ensures
            forall|i: int, j: int|
                #![trigger r@[i], r@[j]]
                0 <= i < j < r@.len() ==> r@[i] < r@[j],
            forall|k: u64| #[trigger] r@.contains(k) <==> self.debt_map().contains_key(k),
    {
        self.debts.ids()
    }

    /// The debt ids of all stored escrows, in ascending order.
    pub fn escrow_ids(&self) -> (r: Vec<u64>)
        ensures
            forall|i: int, j: int|
                #![trigger r@[i], r@[j]]
                0 <= i < j < r@.len() ==> r@[i] < r@[j],
            forall|k: u64| #[trigger] r@.contains(k) <==> self.escrow_map().contains_key(k),
    {
        self.escrows.ids()
    }

    /// The counter's current value: the id the next creation will mint.
    pub fn next_id_value(&self) -> (r: u64)
        ensures
            r == self.counter(),
    {
        self.ids.peek()
    }
}

} // verus!
