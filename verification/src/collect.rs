use vstd::prelude::*;
use crate::error::ErrorView;

verus! {

/// What a row of steps yields together: the items of every step, in order,
/// or the error of the first step that failed.
pub open spec fn collect<T>(steps: Seq<Result<Seq<T>, ErrorView>>) -> Result<Seq<T>, ErrorView>
    decreases steps.len(),
{
    if steps.len() == 0 {
        Ok(Seq::<T>::empty())
    } else {
        match steps[0] {
            Err(e) => Err(e),
            Ok(items) => match collect(steps.drop_first()) {
                Err(e) => Err(e),
                Ok(rest) => Ok(items + rest),
            },
        }
    }
}

/// What the steps yield together when `done` is what those before `from`
/// yielded.
pub open spec fn collect_from<T>(
    done: Seq<T>,
    steps: Seq<Result<Seq<T>, ErrorView>>,
    from: int,
) -> Result<Seq<T>, ErrorView> {
    match collect(steps.subrange(from, steps.len() as int)) {
        Ok(rest) => Ok(done + rest),
        Err(e) => Err(e),
    }
}

/// At the start nothing is done yet.
pub proof fn lemma_collect_start<T>(steps: Seq<Result<Seq<T>, ErrorView>>)
    ensures
        collect_from(Seq::<T>::empty(), steps, 0) == collect(steps),
{
    assert(steps.subrange(0, steps.len() as int) =~= steps);
    match collect(steps) {
        Ok(rest) => {
            assert(Seq::<T>::empty() + rest =~= rest);
        },
        Err(_) => {},
    }
}

/// One step further: an error ends the row, and items join what is done.
pub proof fn lemma_collect_step<T>(done: Seq<T>, steps: Seq<Result<Seq<T>, ErrorView>>, from: int)
    requires
        0 <= from < steps.len(),
    ensures
        collect_from(done, steps, from) == match steps[from] {
            Err(e) => Err(e),
            Ok(items) => collect_from(done + items, steps, from + 1),
        },
{
    let rest = steps.subrange(from, steps.len() as int);
    assert(rest[0] == steps[from]);
    assert(rest.drop_first() =~= steps.subrange(from + 1, steps.len() as int));
    match steps[from] {
        Err(_) => {},
        Ok(items) => {
            match collect(rest.drop_first()) {
                Err(_) => {},
                Ok(tail) => {
                    assert(done + (items + tail) =~= (done + items) + tail);
                },
            }
        },
    }
}

/// At the end, what is done is the whole.
pub proof fn lemma_collect_end<T>(done: Seq<T>, steps: Seq<Result<Seq<T>, ErrorView>>)
    ensures
        collect_from(done, steps, steps.len() as int) == Ok::<Seq<T>, ErrorView>(done),
{
    assert(steps.subrange(steps.len() as int, steps.len() as int) =~= Seq::empty());
    assert(done + Seq::<T>::empty() =~= done);
}

/// Where no step fails, the row yields the items of all of them, and where
/// each step yields one item, as many items as there are steps.
pub proof fn lemma_collect_singles<T>(steps: Seq<Result<Seq<T>, ErrorView>>)
    requires
        forall|i: int| 0 <= i < steps.len() ==> (#[trigger] steps[i]) is Ok && steps[i]->Ok_0.len() == 1,
    ensures
        collect(steps) is Ok,
        collect(steps)->Ok_0.len() == steps.len(),
        forall|i: int| 0 <= i < steps.len() ==> collect(steps)->Ok_0[i] == (#[trigger] steps[i])->Ok_0[0],
    decreases steps.len(),
{
    if steps.len() > 0 {
        let rest = steps.drop_first();
        assert forall|i: int| 0 <= i < rest.len() implies (#[trigger] rest[i]) is Ok
            && rest[i]->Ok_0.len() == 1 by {
            assert(rest[i] == steps[i + 1]);
        }
        lemma_collect_singles(rest);
        assert(steps[0] is Ok);
        assert forall|i: int| 0 <= i < steps.len() implies collect(steps)->Ok_0[i] == (
        #[trigger] steps[i])->Ok_0[0] by {
            if i > 0 {
                assert(rest[i - 1] == steps[i]);
            }
        }
    }
}

/// The row fails with the error of its first failing step.
pub proof fn lemma_collect_first_error<T>(steps: Seq<Result<Seq<T>, ErrorView>>, at: int)
    requires
        0 <= at < steps.len(),
        steps[at] is Err,
        forall|j: int| 0 <= j < at ==> (#[trigger] steps[j]) is Ok,
    ensures
        collect(steps) == Err::<Seq<T>, ErrorView>(steps[at]->Err_0),
    decreases at,
{
    if at > 0 {
        let rest = steps.drop_first();
        assert(rest[at - 1] == steps[at]);
        assert forall|j: int| 0 <= j < at - 1 implies (#[trigger] rest[j]) is Ok by {
            assert(rest[j] == steps[j + 1]);
        }
        lemma_collect_first_error(rest, at - 1);
        assert(steps[0] is Ok);
    }
}

/// The row succeeds exactly where every step does.
pub proof fn lemma_collect_succeeds<T>(steps: Seq<Result<Seq<T>, ErrorView>>)
    ensures
        collect(steps) is Ok <==> forall|j: int| 0 <= j < steps.len() ==> (#[trigger] steps[j]) is Ok,
    decreases steps.len(),
{
    if steps.len() > 0 {
        let rest = steps.drop_first();
        lemma_collect_succeeds(rest);
        if collect(steps) is Ok {
            assert forall|j: int| 0 <= j < steps.len() implies (#[trigger] steps[j]) is Ok by {
                if j > 0 {
                    assert(rest[j - 1] == steps[j]);
                }
            }
        }
        if forall|j: int| 0 <= j < steps.len() ==> (#[trigger] steps[j]) is Ok {
            assert(steps[0] is Ok);
            assert forall|j: int| 0 <= j < rest.len() implies (#[trigger] rest[j]) is Ok by {
                assert(rest[j] == steps[j + 1]);
            }
        }
    }
}

/// A row that fails has a first failing step, and fails with its error.
pub proof fn lemma_collect_error_source<T>(steps: Seq<Result<Seq<T>, ErrorView>>) -> (at: int)
    requires
        collect(steps) is Err,
    ensures
        0 <= at < steps.len(),
        steps[at] == Err::<Seq<T>, ErrorView>(collect(steps)->Err_0),
        forall|j: int| 0 <= j < at ==> (#[trigger] steps[j]) is Ok,
    decreases steps.len(),
{
    if steps[0] is Err {
        0
    } else {
        let rest = steps.drop_first();
        let inner = lemma_collect_error_source(rest);
        assert(rest[inner] == steps[inner + 1]);
        assert forall|j: int| 0 <= j < inner + 1 implies (#[trigger] steps[j]) is Ok by {
            if j > 0 {
                assert(rest[j - 1] == steps[j]);
            }
        }
        inner + 1
    }
}

} // verus!
