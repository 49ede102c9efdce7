//! The store that programs load operands from and write results to.

use std::collections::HashMap;

use vstd::prelude::*;

use crate::amount::Amount;
use crate::error::ErrorCode;
use crate::labels::Labels;
use crate::operand::{copy_amounts, copy_words};
use crate::vector::Vector;

verus! {

broadcast use vstd::std_specs::hash::group_hash_axioms;

/// One write made to a store: its kind, key and value.
pub enum StoreWrite {
    Labels(u128, Seq<u128>),
    Vector(u128, Seq<Amount>),
    Scalar(u128, Amount),
}

/// What a store holds: label sequences (program code among them), vectors
/// and scalars, each under 128-bit keys; and the writes made to it, oldest
/// first.
pub struct StoreModel {
    pub labels: Map<u128, Seq<u128>>,
    pub vectors: Map<u128, Seq<Amount>>,
    pub scalars: Map<u128, Amount>,
    pub writes: Seq<StoreWrite>,
}

/// The label sequence under `id`, or `NotFound`.
pub open spec fn labels_at(m: StoreModel, id: u128) -> Result<Seq<u128>, ErrorCode> {
    if m.labels.contains_key(id) {
        Ok(m.labels[id])
    } else {
        Err(ErrorCode::NotFound)
    }
}

/// The vector under `id`, or `NotFound`.
pub open spec fn vector_at(m: StoreModel, id: u128) -> Result<Seq<Amount>, ErrorCode> {
    if m.vectors.contains_key(id) {
        Ok(m.vectors[id])
    } else {
        Err(ErrorCode::NotFound)
    }
}

/// The scalar under `id`; zero where none was stored.
pub open spec fn scalar_at(m: StoreModel, id: u128) -> Amount {
    if m.scalars.contains_key(id) {
        m.scalars[id]
    } else {
        Amount(0)
    }
}

/// The six operations through which operands enter and leave a program.
///
/// `model` is what the store holds. A store is `reliable` when it fails
/// only where its model says so: a load of a missing label sequence or
/// vector fails with `NotFound`, and scalar loads and all writes succeed.
/// Any store reads what it holds, writes what it is given, and records each
/// successful write, in order, in its model.
pub trait VectorIO {
    spec fn model(&self) -> StoreModel;

    spec fn reliable(&self) -> bool;

    fn load_labels(&self, id: u128) -> (r: Result<Labels, ErrorCode>)
        ensures
            r is Ok ==> labels_at(self.model(), id) == Ok::<Seq<u128>, ErrorCode>(r->Ok_0.data@),
            self.reliable() && r is Err ==> labels_at(self.model(), id) == Err::<Seq<u128>, ErrorCode>(
                r->Err_0,
            ),
    ;

    fn load_vector(&self, id: u128) -> (r: Result<Vector, ErrorCode>)
        ensures
            r is Ok ==> vector_at(self.model(), id) == Ok::<Seq<Amount>, ErrorCode>(r->Ok_0.data@),
            self.reliable() && r is Err ==> vector_at(self.model(), id) == Err::<
                Seq<Amount>,
                ErrorCode,
            >(r->Err_0),
    ;

    fn load_scalar(&self, id: u128) -> (r: Result<Amount, ErrorCode>)
        ensures
            r is Ok ==> r->Ok_0 == scalar_at(self.model(), id),
            self.reliable() ==> r is Ok,
    ;

    fn store_labels(&mut self, id: u128, input: Labels) -> (r: Result<(), ErrorCode>)
        ensures
            r is Ok ==> final(self).model() == (StoreModel {
                labels: old(self).model().labels.insert(id, input.data@),
                writes: old(self).model().writes.push(StoreWrite::Labels(id, input.data@)),
                ..old(self).model()
            }),
            final(self).reliable() == old(self).reliable(),
            old(self).reliable() ==> r is Ok,
    ;

    fn store_vector(&mut self, id: u128, input: Vector) -> (r: Result<(), ErrorCode>)
        ensures
            r is Ok ==> final(self).model() == (StoreModel {
                vectors: old(self).model().vectors.insert(id, input.data@),
                writes: old(self).model().writes.push(StoreWrite::Vector(id, input.data@)),
                ..old(self).model()
            }),
            final(self).reliable() == old(self).reliable(),
            old(self).reliable() ==> r is Ok,
    ;

    fn store_scalar(&mut self, id: u128, input: Amount) -> (r: Result<(), ErrorCode>)
        ensures
            r is Ok ==> final(self).model() == (StoreModel {
                scalars: old(self).model().scalars.insert(id, input),
                writes: old(self).model().writes.push(StoreWrite::Scalar(id, input)),
                ..old(self).model()
            }),
            final(self).reliable() == old(self).reliable(),
            old(self).reliable() ==> r is Ok,
    ;
}

/// A store held in memory.
pub struct MemoryStore {
    pub labels: HashMap<u128, Vec<u128>>,
    pub vectors: HashMap<u128, Vec<Amount>>,
    pub scalars: HashMap<u128, Amount>,
    /// The writes made so far.
    pub writes: Ghost<Seq<StoreWrite>>,
}

impl MemoryStore {
    /// An empty store.
    pub fn new() -> (r: Self)
        ensures
            r.model().labels == Map::<u128, Seq<u128>>::empty(),
            r.model().vectors == Map::<u128, Seq<Amount>>::empty(),
            r.model().scalars == Map::<u128, Amount>::empty(),
            r.model().writes == Seq::<StoreWrite>::empty(),
            r.reliable(),
    {
        let r = MemoryStore {
            labels: HashMap::new(),
            vectors: HashMap::new(),
            scalars: HashMap::new(),
            writes: Ghost(Seq::empty()),
        };
        assert(r.model().labels =~= Map::<u128, Seq<u128>>::empty());
        assert(r.model().vectors =~= Map::<u128, Seq<Amount>>::empty());
        r
    }
}

impl VectorIO for MemoryStore {
    open spec fn model(&self) -> StoreModel {
        StoreModel {
            labels: self.labels@.map_values(|v: Vec<u128>| v@),
            vectors: self.vectors@.map_values(|v: Vec<Amount>| v@),
            scalars: self.scalars@,
            writes: self.writes@,
        }
    }

    open spec fn reliable(&self) -> bool {
        true
    }

    fn load_labels(&self, id: u128) -> (r: Result<Labels, ErrorCode>) {
        match self.labels.get(&id) {
            Some(v) => Ok(Labels { data: copy_words(v) }),
            None => Err(ErrorCode::NotFound),
        }
    }

    fn load_vector(&self, id: u128) -> (r: Result<Vector, ErrorCode>) {
        match self.vectors.get(&id) {
            Some(v) => Ok(Vector { data: copy_amounts(v) }),
            None => Err(ErrorCode::NotFound),
        }
    }

    fn load_scalar(&self, id: u128) -> (r: Result<Amount, ErrorCode>) {
        match self.scalars.get(&id) {
            Some(v) => Ok(*v),
            None => Ok(Amount(0)),
        }
    }

    fn store_labels(&mut self, id: u128, input: Labels) -> (r: Result<(), ErrorCode>) {
        let ghost d = input.data@;
        self.labels.insert(id, input.data);
        self.writes = Ghost(self.writes@.push(StoreWrite::Labels(id, d)));
        assert(self.model().labels =~= old(self).model().labels.insert(id, d));
        Ok(())
    }

    fn store_vector(&mut self, id: u128, input: Vector) -> (r: Result<(), ErrorCode>) {
        let ghost d = input.data@;
        self.vectors.insert(id, input.data);
        self.writes = Ghost(self.writes@.push(StoreWrite::Vector(id, d)));
        assert(self.model().vectors =~= old(self).model().vectors.insert(id, d));
        Ok(())
    }

    fn store_scalar(&mut self, id: u128, input: Amount) -> (r: Result<(), ErrorCode>) {
        self.scalars.insert(id, input);
        self.writes = Ghost(self.writes@.push(StoreWrite::Scalar(id, input)));
        Ok(())
    }
}

} // verus!
