use vstd::prelude::*;

use crate::backing::{id_value, region_map, ByteRegion, IdRegion};
use crate::codec::{
    decode_debt, decode_escrow, encode_debt, encode_escrow, lemma_debt_round_trip,
    lemma_escrow_round_trip, spec_decode_debt, spec_decode_escrow, spec_encode_debt,
    MAX_RECORD_BYTES,
};
use crate::records::{valid_debt, valid_escrow, Debt, DebtModel, Escrow, EscrowModel};

verus! {

/// The identifier generator: a durable counter whose current value is the
/// next id to hand out. Ids once handed out are never reused.
pub struct IdGen {
    pub(crate) region: IdRegion,
}

impl IdGen {
    /// The next id this generator will mint.
    pub closed spec fn counter(&self) -> u64 {
        id_value(self.region)
    }

    /// Wraps the durable counter region.
    pub(crate) fn from_region(region: IdRegion) -> (r: Self)
        ensures
            r.counter() == id_value(region),
    {
        IdGen { region }
    }

    /// Reads the counter without minting.
    pub fn peek(&self) -> (r: u64)
        ensures
            r == self.counter(),
    {
        self.region.get()
    }

    /// Mints a fresh id: returns the counter's old value and durably moves
    /// the counter past it.
    pub fn next_id(&mut self) -> (id: u64)
        requires
            old(self).counter() < u64::MAX,
        ensures
            id == old(self).counter(),
            final(self).counter() == old(self).counter() + 1,
    {
        let cur = self.region.get();
        self.region.set(cur + 1);
        cur
    }
}

/// The durable debt store: an ordered map from a debt's id to its encoded
/// record.
pub struct DebtStore {
    pub(crate) region: ByteRegion,
}

impl DebtStore {
    /// Every stored byte string decodes to a well-formed debt, keyed by its
    /// own id, within the record size limit.
    pub closed spec fn wf(&self) -> bool {
        forall|k: u64| #[trigger]
            region_map(self.region).contains_key(k) ==> {
                let b = region_map(self.region)[k];
                &&& spec_decode_debt(b) is Some
                &&& spec_decode_debt(b)->0.id == k
                &&& valid_debt(spec_decode_debt(b)->0)
                &&& b.len() <= MAX_RECORD_BYTES
            }
    }

    /// The store's contents, each record decoded.
    pub closed spec fn map(&self) -> Map<u64, DebtModel> {
        Map::new(
            |k: u64| region_map(self.region).contains_key(k),
            |k: u64| spec_decode_debt(region_map(self.region)[k])->0,
        )
    }

    /// Wraps an empty durable region as an empty store.
    pub(crate) fn from_region(region: ByteRegion) -> (r: Self)
        requires
            region_map(region) == Map::<u64, Seq<u8>>::empty(),
        ensures
            r.wf(),
            r.map() == Map::<u64, DebtModel>::empty(),
    {
        let s = DebtStore { region };
        proof {
            assert(s.map() =~= Map::<u64, DebtModel>::empty());
        }
        s
    }

    /// Point lookup; no side effects.
    pub fn get(&self, id: u64) -> (r: Option<Debt>)
        requires
            self.wf(),
        ensures
            match r {
                Some(d) => self.map().contains_key(id) && d@ == self.map()[id],
                None => !self.map().contains_key(id),
            },
    {
        match self.region.get(id) {
            Some(bytes) => match decode_debt(bytes.as_slice()) {
                Some(d) => Some(d),
                None => {
                    proof {
                        assert(false);
                    }
                    None
                },
            },
            None => None,
        }
    }

    /// Inserts or overwrites the record under its own id, returning the
    /// prior record if one existed.
    pub fn insert(&mut self, d: &Debt) -> (prior: Option<Debt>)
        requires
            old(self).wf(),
            valid_debt(d@),
            spec_encode_debt(d@).len() <= MAX_RECORD_BYTES,
        ensures
            final(self).wf(),
            final(self).map() == old(self).map().insert(d@.id, d@),
            match prior {
                Some(p) => old(self).map().contains_key(d@.id) && p@ == old(self).map()[d@.id],
                None => !old(self).map().contains_key(d@.id),
            },
    {
        let bytes = encode_debt(d);
        proof {
            lemma_debt_round_trip(d@);
        }
        let prior_bytes = self.region.insert(d.id, bytes);
        proof {
            assert(final(self).map() =~= old(self).map().insert(d@.id, d@));
        }
        match prior_bytes {
            Some(b) => match decode_debt(b.as_slice()) {
                Some(p) => Some(p),
                None => {
                    proof {
                        assert(false);
                    }
                    None
                },
            },
            None => None,
        }
    }

    /// Removes the record under the id, returning it if it existed.
    pub fn remove(&mut self, id: u64) -> (prior: Option<Debt>)
        requires
            old(self).wf(),
        ensures
            final(self).wf(),
            final(self).map() == old(self).map().remove(id),
            match prior {
                Some(p) => old(self).map().contains_key(id) && p@ == old(self).map()[id],
                None => !old(self).map().contains_key(id),
            },
    {
        let prior_bytes = self.region.remove(id);
        proof {
            assert(final(self).map() =~= old(self).map().remove(id));
        }
        match prior_bytes {
            Some(b) => match decode_debt(b.as_slice()) {
                Some(p) => Some(p),
                None => {
                    proof {
                        assert(false);
                    }
                    None
                },
            },
            None => None,
        }
    }

    /// The stored ids, in ascending order.
    pub fn ids(&self) -> (r: Vec<u64>)
        ensures
            forall|i: int, j: int|
                #![trigger r@[i], r@[j]]
                0 <= i < j < r@.len() ==> r@[i] < r@[j],
            forall|k: u64| #[trigger] r@.contains(k) <==> self.map().contains_key(k),
    {
        self.region.keys()
    }
}

/// The durable escrow store: an ordered map from the owning debt's id to
/// the encoded escrow record.
pub struct EscrowStore {
    pub(crate) region: ByteRegion,
}

impl EscrowStore {
    /// Every stored byte string decodes to a well-formed escrow, keyed by
    /// the debt id it secures.
    pub closed spec fn wf(&self) -> bool {
        forall|k: u64| #[trigger]
            region_map(self.region).contains_key(k) ==> {
                let b = region_map(self.region)[k];
                &&& spec_decode_escrow(b) is Some
                &&& spec_decode_escrow(b)->0.debt_id == k
                &&& valid_escrow(spec_decode_escrow(b)->0)
            }
    }

    /// The store's contents, each record decoded.
    pub closed spec fn map(&self) -> Map<u64, EscrowModel> {
        Map::new(
            |k: u64| region_map(self.region).contains_key(k),
            |k: u64| spec_decode_escrow(region_map(self.region)[k])->0,
        )
    }

    /// Wraps an empty durable region as an empty store.
    pub(crate) fn from_region(region: ByteRegion) -> (r: Self)
        requires
            region_map(region) == Map::<u64, Seq<u8>>::empty(),
        ensures
            r.wf(),
            r.map() == Map::<u64, EscrowModel>::empty(),
    {
        let s = EscrowStore { region };
        proof {
            assert(s.map() =~= Map::<u64, EscrowModel>::empty());
        }
        s
    }

    /// Point lookup; no side effects.
    pub fn get(&self, debt_id: u64) -> (r: Option<Escrow>)
        requires
            self.wf(),
        ensures
            match r {
                Some(e) => self.map().contains_key(debt_id) && e@ == self.map()[debt_id],
                None => !self.map().contains_key(debt_id),
            },
    {
        match self.region.get(debt_id) {
            Some(bytes) => match decode_escrow(bytes.as_slice()) {
                Some(e) => Some(e),
                None => {
                    proof {
                        assert(false);
                    }
                    None
                },
            },
            None => None,
        }
    }

    /// Inserts or overwrites the record under its debt id, returning the
    /// prior record if one existed.
    pub fn insert(&mut self, e: &Escrow) -> (prior: Option<Escrow>)
        requires
            old(self).wf(),
            valid_escrow(e@),
        ensures
            final(self).wf(),
            final(self).map() == old(self).map().insert(e@.debt_id, e@),
            match prior {
                Some(p) => old(self).map().contains_key(e@.debt_id) && p@ == old(self).map().index(
                    e@.debt_id,
                ),
                None => !old(self).map().contains_key(e@.debt_id),
            },
    {
        let bytes = encode_escrow(e);
        proof {
            lemma_escrow_round_trip(e@);
        }
        let prior_bytes = self.region.insert(e.debt_id, bytes);
        proof {
            assert(final(self).map() =~= old(self).map().insert(e@.debt_id, e@));
        }
        match prior_bytes {
            Some(b) => match decode_escrow(b.as_slice()) {
                Some(p) => Some(p),
                None => {
                    proof {
                        assert(false);
                    }
                    None
                },
            },
            None => None,
        }
    }

    /// Removes the record under the debt id, returning it if it existed.
    pub fn remove(&mut self, debt_id: u64) -> (prior: Option<Escrow>)
        requires
            old(self).wf(),
        ensures
            final(self).wf(),
            final(self).map() == old(self).map().remove(debt_id),
            match prior {
                Some(p) => old(self).map().contains_key(debt_id) && p@ == old(self).map()[debt_id],
                None => !old(self).map().contains_key(debt_id),
            },
    {
        let prior_bytes = self.region.remove(debt_id);
        proof {
            assert(final(self).map() =~= old(self).map().remove(debt_id));
        }
        match prior_bytes {
            Some(b) => match decode_escrow(b.as_slice()) {
                Some(p) => Some(p),
                None => {
                    proof {
                        assert(false);
                    }
                    None
                },
            },
            None => None,
        }
    }

    /// The stored debt ids, in ascending order.
    pub fn ids(&self) -> (r: Vec<u64>)
        ensures
            forall|i: int, j: int|
                #![trigger r@[i], r@[j]]
                0 <= i < j < r@.len() ==> r@[i] < r@[j],
            forall|k: u64| #[trigger] r@.contains(k) <==> self.map().contains_key(k),
    {
        self.region.keys()
    }
}

} // verus!
