use vstd::prelude::*;

verus! {

/// How many entries of `s` are true.
pub open spec fn count_true(s: Seq<bool>) -> nat
    decreases s.len(),
{
    if s.len() == 0 {
        0
    } else {
        count_true(s.drop_last()) + (if s.last() {
            1nat
        } else {
            0nat
        })
    }
}

/// Container extension for counting items that a predicate accepts.
pub trait IterExt<T> {
    /// The items the container holds, in order.
    spec fn items(&self) -> Seq<T>;

    /// Counts the items that `predicate` accepts: some sequence of decisions,
    /// one per item and each allowed by the predicate's postcondition, has
    /// exactly `count` acceptances. For a predicate whose postcondition pins
    /// its result, this determines `count` exactly.
    fn filter_count<P: Fn(&T) -> bool>(&self, predicate: P) -> (count: usize)
        requires
            forall|i: int|
                0 <= i < self.items().len() ==> call_requires(predicate, (&self.items()[i],)),
        ensures
            exists|decisions: Seq<bool>|
                {
                    &&& decisions.len() == self.items().len()
                    &&& count == count_true(decisions)
                    &&& forall|i: int|
                        0 <= i < decisions.len() ==> call_ensures(
                            predicate,
                            (&self.items()[i],),
                            #[trigger] decisions[i],
                        )
                },
    ;
}

impl<T> IterExt<T> for Vec<T> {
    open spec fn items(&self) -> Seq<T> {
        self@
    }

    fn filter_count<P: Fn(&T) -> bool>(&self, predicate: P) -> (count: usize) {
        let mut count: usize = 0;
        let ghost mut decisions = Seq::<bool>::empty();
        let mut k: usize = 0;
        while k < self.len()
            invariant
                k <= self@.len(),
                count <= k,
                decisions.len() == k,
                count == count_true(decisions),
                forall|i: int|
                    0 <= i < k ==> call_ensures(predicate, (&self@[i],), #[trigger] decisions[i]),
                forall|i: int|
                    0 <= i < self.items().len() ==> call_requires(predicate, (&self.items()[i],)),
            decreases self@.len() - k,
        {
            proof {
                assert(call_requires(predicate, (&self@[k as int],))) by {
                    assert(self.items()[k as int] == self@[k as int]);
                };
            }
            let accepted = predicate(&self[k]);
            proof {
                let with_new = decisions.push(accepted);
                assert(with_new.drop_last() =~= decisions);
                decisions = with_new;
            }
            if accepted {
                count += 1;
            }
            k += 1;
        }
        count
    }
}

} // verus!
