use vstd::prelude::*;

use crate::copy_values;

verus! {

/// The subsequence of present values of `outs`, in order: evaluations that
/// yielded nothing are silently excluded.
pub open spec fn some_values<V>(outs: Seq<Option<V>>) -> Seq<V>
    decreases outs.len(),
{
    if outs.len() == 0 {
        Seq::empty()
    } else {
        some_values(outs.drop_last()) + match outs.last() {
            Some(v) => seq![v],
            None => Seq::empty(),
        }
    }
}

/// If every evaluation yielded nothing, nothing is kept.
pub proof fn lemma_some_values_all_none<V>(outs: Seq<Option<V>>)
    requires
        forall|i: int| 0 <= i < outs.len() ==> outs[i] is None,
    ensures
        some_values(outs).len() == 0,
    decreases outs.len(),
{
    if outs.len() > 0 {
        lemma_some_values_all_none(outs.drop_last());
    }
}

/// How one result of `evaluate_average` came about: `applied[p]` is the copy
/// of path `p` that was handed to `pay_off`, which returned `outs[p]`; the
/// present values among the `outs`, in order, form `kept`; and the result is
/// nothing exactly when `kept` is empty, else the value `mean` computed from
/// `kept`. The witnesses `applied`, `outs` and `kept` are existentially
/// quantified where this predicate stands in a contract.
pub open spec fn evaluation_matches<T, V, F: Fn(Vec<T>) -> Option<V>, G: Fn(Vec<V>) -> V>(
    pay_off: F,
    mean: G,
    paths: Seq<Vec<T>>,
    r: Option<V>,
    applied: Seq<Vec<T>>,
    outs: Seq<Option<V>>,
    kept: Vec<V>,
) -> bool {
    &&& applied.len() == paths.len()
    &&& outs.len() == paths.len()
    &&& forall|p: int| 0 <= p < paths.len() ==> (#[trigger] applied[p])@ == paths[p]@
    &&& forall|p: int|
        0 <= p < paths.len() ==> #[trigger] call_ensures(pay_off, (applied[p],), outs[p])
    &&& kept@ == some_values(outs)
    &&& match r {
        None => kept@.len() == 0,
        Some(m) => kept@.len() > 0 && call_ensures(mean, (kept,), m),
    }
}

/// Exclusion semantics, pinned for deterministic reduction functions: when
/// `pay_off` always computes `g` of the path's values and `mean` always
/// computes `h` of the kept values, the result of `evaluate_average` is
/// nothing exactly when no path was kept, and otherwise `h` of precisely
/// the kept evaluations `g(path)`, in path order — excluded paths count
/// neither in the values nor in their number.
pub proof fn lemma_evaluation_deterministic<T, V, F: Fn(Vec<T>) -> Option<V>, G: Fn(Vec<V>) -> V>(
    pay_off: F,
    mean: G,
    paths: Seq<Vec<T>>,
    r: Option<V>,
    applied: Seq<Vec<T>>,
    outs: Seq<Option<V>>,
    kept: Vec<V>,
    g: spec_fn(Seq<T>) -> Option<V>,
    h: spec_fn(Seq<V>) -> V,
)
    requires
        evaluation_matches(pay_off, mean, paths, r, applied, outs, kept),
        forall|path: Vec<T>, o: Option<V>| #[trigger] call_ensures(pay_off, (path,), o) ==> o == g(
            path@,
        ),
        forall|vals: Vec<V>, m: V| #[trigger] call_ensures(mean, (vals,), m) ==> m == h(vals@),
    ensures
        ({
            let kept_values = some_values(Seq::new(paths.len(), |p: int| g(paths[p]@)));
            r == if kept_values.len() == 0 {
                Option::<V>::None
            } else {
                Some(h(kept_values))
            }
        }),
{
    assert forall|p: int| 0 <= p < outs.len() implies outs[p] == g(paths[p]@) by {
        assert(call_ensures(pay_off, (applied[p],), outs[p]));
    }
    assert(outs =~= Seq::new(paths.len(), |p: int| g(paths[p]@)));
}

/// Reduces an ensemble of paths to one aggregate value.
pub struct PathEvaluator<'a, T> {
    pub paths: &'a Vec<Vec<T>>,
}

impl<'a, T: Copy> PathEvaluator<'a, T> {
    pub fn new(paths: &'a Vec<Vec<T>>) -> (r: Self)
        ensures
            r.paths == paths,
    {
        PathEvaluator { paths }
    }

    /// Applies `pay_off` to every path of the ensemble; paths for which it
    /// yields nothing are excluded from the aggregation altogether. Yields
    /// nothing if the ensemble is empty or every path was excluded, and
    /// otherwise the value that `mean` computes from exactly the kept
    /// values, in path order.
    pub fn evaluate_average<V: Copy, F: Fn(Vec<T>) -> Option<V>, G: Fn(Vec<V>) -> V>(
        &self,
        pay_off: &F,
        mean: &G,
    ) -> (r: Option<V>)
        requires
            forall|path: Vec<T>| #[trigger] call_requires(*pay_off, (path,)),
            forall|vals: Vec<V>| vals@.len() > 0 ==> #[trigger] call_requires(*mean, (vals,)),
        ensures
            self.paths@.len() == 0 ==> r is None,
            (forall|path: Vec<T>, o: Option<V>|
                #[trigger] call_ensures(*pay_off, (path,), o) ==> o is None) ==> r is None,
            r is Some ==> self.paths@.len() > 0,
            exists|applied: Seq<Vec<T>>, outs: Seq<Option<V>>, kept: Vec<V>|
                evaluation_matches(*pay_off, *mean, self.paths@, r, applied, outs, kept),
    {
        let ghost mut applied: Seq<Vec<T>> = Seq::empty();
        let ghost mut outs: Seq<Option<V>> = Seq::empty();
        let mut kept: Vec<V> = Vec::new();
        let mut p: usize = 0;
        while p < self.paths.len()
            invariant
                forall|path: Vec<T>| #[trigger] call_requires(*pay_off, (path,)),
                p <= self.paths@.len(),
                applied.len() == p,
                outs.len() == p,
                kept@ == some_values(outs),
                forall|q: int| 0 <= q < p ==> (#[trigger] applied[q])@ == self.paths@[q]@,
                forall|q: int|
                    0 <= q < p ==> #[trigger] call_ensures(*pay_off, (applied[q],), outs[q]),
            decreases self.paths@.len() - p,
        {
            let path_copy = copy_values(&self.paths[p]);
            let ghost gcopy = path_copy;
            let o = pay_off(path_copy);
            proof {
                applied = applied.push(gcopy);
                assert(outs.push(o).drop_last() =~= outs);
                outs = outs.push(o);
            }
            match o {
                Some(v) => kept.push(v),
                None => {},
            }
            p = p + 1;
        }
        proof {
            if forall|path: Vec<T>, o: Option<V>|
                #[trigger] call_ensures(*pay_off, (path,), o) ==> o is None {
                assert forall|i: int| 0 <= i < outs.len() implies outs[i] is None by {
                    assert(call_ensures(*pay_off, (applied[i],), outs[i]));
                }
                lemma_some_values_all_none(outs);
            }
        }
        let ghost gkept = kept;
        if kept.len() == 0 {
            proof {
                assert(evaluation_matches(
                    *pay_off,
                    *mean,
                    self.paths@,
                    None::<V>,
                    applied,
                    outs,
                    gkept,
                ));
            }
            None
        } else {
            let m = mean(kept);
            proof {
                assert(evaluation_matches(
                    *pay_off,
                    *mean,
                    self.paths@,
                    Some(m),
                    applied,
                    outs,
                    gkept,
                ));
            }
            Some(m)
        }
    }
}

} // verus!
