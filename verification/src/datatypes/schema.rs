//! An ordered sequence of fields with metadata.
use vstd::prelude::*;
use std::collections::BTreeMap;
use super::Field;

verus! {

/// Key-value pairs attached to a schema.
pub type Metadata = BTreeMap<String, String>;

/// An ordered sequence of [`Field`]s with associated [`Metadata`].
#[derive(Debug, Clone)]
pub struct Schema {
    /// The fields composing this schema.
    pub fields: Vec<Field>,
    /// Optional metadata.
    pub metadata: Metadata,
}

/// The fields of `fields` at whose position `keep` holds `true`, in their order.
pub open spec fn kept_fields(fields: Seq<Field>, keep: Seq<bool>) -> Seq<Field>
    decreases fields.len(),
{
    if fields.len() == 0 {
        Seq::empty()
    } else {
        let rest = kept_fields(fields.drop_last(), keep.drop_last());
        if keep.last() {
            rest.push(fields.last())
        } else {
            rest
        }
    }
}

impl Schema {
    /// Attaches a [`Metadata`] to [`Schema`]
    #[inline]
    pub fn with_metadata(self, metadata: Metadata) -> (r: Schema)
        ensures
            r.fields == self.fields,
            r.metadata == metadata,
    {
        Self { fields: self.fields, metadata }
    }

    /// Returns a new [`Schema`] with a subset of all fields whose `predicate`
    /// evaluates to true. The predicate is asked once for each field, with
    /// the field's position, in order.
    pub fn filter<F: Fn(usize, &Field) -> bool>(self, predicate: F) -> (r: Schema)
        requires
            forall|i: usize|
                i < self.fields@.len() ==> call_requires(predicate, (i, &self.fields@[i as int])),
        ensures
            r.metadata == self.metadata,
            exists|keep: Seq<bool>|
                {
                    &&& keep.len() == self.fields@.len()
                    &&& forall|i: usize|
                        i < keep.len() ==> call_ensures(
                            predicate,
                            (i, &self.fields@[i as int]),
                            #[trigger] keep[i as int],
                        )
                    &&& r.fields@ == kept_fields(self.fields@, keep)
                },
    {
        let ghost all = self.fields@;
        let count = self.fields.len();
        let mut fields: Vec<Field> = Vec::new();
        let ghost mut keep: Seq<bool> = Seq::empty();
        let mut index: usize = 0;
        for f in it: self.fields.into_iter()
            invariant
                it.seq() == all,
                all.len() == count,
                index == it.index(),
                keep.len() == index,
                forall|i: usize| i < all.len() ==> call_requires(predicate, (i, &all[i as int])),
                forall|i: usize|
                    i < keep.len() ==> call_ensures(
                        predicate,
                        (i, &all[i as int]),
                        #[trigger] keep[i as int],
                    ),
                fields@ == kept_fields(all.subrange(0, index as int), keep),
        {
            let kept = predicate(index, &f);
            proof {
                assert(all.subrange(0, index + 1).drop_last() =~= all.subrange(0, index as int));
                assert(keep.push(kept).drop_last() =~= keep);
                keep = keep.push(kept);
            }
            if kept {
                fields.push(f);
            }
            index = index + 1;
        }
        proof {
            assert(all.subrange(0, all.len() as int) =~= all);
        }
        Schema { fields, metadata: self.metadata }
    }
}

impl Default for Schema {
    /// The schema without a field and without metadata.
    fn default() -> (r: Schema)
        ensures
            r.fields@ == Seq::<Field>::empty(),
            r.metadata@ == Map::<String, String>::empty(),
    {
        Schema { fields: Vec::new(), metadata: BTreeMap::new() }
    }
}

impl From<Vec<Field>> for Schema {
    /// The schema of these fields, without metadata.
    fn from(fields: Vec<Field>) -> (r: Schema)
        ensures
            r.fields == fields,
            r.metadata@ == Map::<String, String>::empty(),
    {
        Schema { fields, metadata: BTreeMap::new() }
    }
}

impl vstd::std_specs::convert::FromSpecImpl<Vec<Field>> for Schema {
    open spec fn obeys_from_spec() -> bool {
        false
    }

    open spec fn from_spec(fields: Vec<Field>) -> Schema {
        arbitrary()
    }
}

} // verus!
