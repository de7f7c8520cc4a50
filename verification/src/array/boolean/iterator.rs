//! Walking the slots of boolean arrays.
use vstd::prelude::*;
use crate::array::zip_validity;
use super::{BooleanArray, MutableBooleanArray};

verus! {

/// The bits of an optional list of bits.
spec fn listed(validity: Option<Vec<bool>>) -> Option<Seq<bool>> {
    match validity {
        Some(v) => Some(v@),
        None => None,
    }
}

/// The values paired with their validity: `None` at each slot whose validity bit is unset.
fn zip_bits(values: Vec<bool>, validity: Option<Vec<bool>>) -> (r: Vec<Option<bool>>)
    requires
        validity matches Some(v) ==> v@.len() == values@.len(),
    ensures
        r@ == zip_validity(
            values@,
            listed(validity),
        ),
{
    let ghost expected = zip_validity(
        values@,
        listed(validity),
    );
    let mut r: Vec<Option<bool>> = Vec::new();
    let mut i: usize = 0;
    while i < values.len()
        invariant
            i <= values@.len(),
            validity matches Some(v) ==> v@.len() == values@.len(),
            expected == zip_validity(
                values@,
                listed(validity),
            ),
            r@ == expected.subrange(0, i as int),
        decreases values@.len() - i,
    {
        let slot = match &validity {
            Some(v) => if v[i] {
                Some(values[i])
            } else {
                None
            },
            None => Some(values[i]),
        };
        r.push(slot);
        i = i + 1;
        proof {
            assert(r@ =~= expected.subrange(0, i as int));
        }
    }
    proof {
        assert(expected.subrange(0, values@.len() as int) =~= expected);
    }
    r
}

impl BooleanArray {
    /// The slots in order: `None` for a null, else the value.
    #[inline]
    pub fn iter(&self) -> (r: Vec<Option<bool>>)
        requires
            self.wf(),
        ensures
            r@ == zip_validity(self@.values, self@.validity),
    {
        let validity = match self.validity() {
            Some(b) => Some(b.iter()),
            None => None,
        };
        zip_bits(self.values().iter(), validity)
    }

    /// The values in order, whether their slot is null or not.
    #[inline]
    pub fn values_iter(&self) -> (r: Vec<bool>)
        requires
            self.wf(),
        ensures
            r@ == self@.values,
    {
        self.values().iter()
    }
}

impl MutableBooleanArray {
    /// The slots in order: `None` for a null, else the value.
    #[inline]
    pub fn iter(&self) -> (r: Vec<Option<bool>>)
        requires
            self.wf(),
        ensures
            r@ == zip_validity(self@.values, self@.validity),
    {
        let validity = match self.validity() {
            Some(b) => Some(b.iter()),
            None => None,
        };
        zip_bits(self.values().iter(), validity)
    }

    /// The values in order, whether their slot is null or not.
    #[inline]
    pub fn values_iter(&self) -> (r: Vec<bool>)
        requires
            self.wf(),
        ensures
            r@ == self@.values,
    {
        self.values().iter()
    }
}

} // verus!
