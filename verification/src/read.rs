//! What a replicated read amounts to, once replicas have answered.
//!
//! Only the normal replicas of a multiplexed store are read, in their
//! configured order. The first that holds the key answers for all. The key is
//! missing only if every one of them says so; if none holds it and some could
//! not say, the error of the last of those is the answer.

use vstd::prelude::*;

verus! {

/// The replica holds the key.
pub open spec fn is_found<V, E>(answer: Result<Option<V>, E>) -> bool {
    answer matches Ok(Some(_))
}

/// The replica at `i` is the first that holds the key.
pub open spec fn first_found<V, E>(answers: Seq<Result<Option<V>, E>>, i: int) -> bool {
    &&& 0 <= i < answers.len()
    &&& is_found(answers[i])
    &&& forall|j: int| 0 <= j < i ==> !is_found(#[trigger] answers[j])
}

/// The replica at `i` is the last that could not say.
pub open spec fn last_failed<V, E>(answers: Seq<Result<Option<V>, E>>, i: int) -> bool {
    &&& 0 <= i < answers.len()
    &&& answers[i] is Err
    &&& forall|j: int| i < j < answers.len() ==> !((#[trigger] answers[j]) is Err)
}

/// The answer of the store, from the answers of its normal replicas in their
/// configured order.
pub open spec fn resolved<V, E>(answers: Seq<Result<Option<V>, E>>) -> Result<Option<V>, E> {
    if exists|i: int| first_found(answers, i) {
        answers[choose|i: int| first_found(answers, i)]
    } else if exists|i: int| last_failed(answers, i) {
        answers[choose|i: int| last_failed(answers, i)]
    } else {
        Ok(None)
    }
}

/// The error of the last replica that could not say, if there is one.
pub open spec fn last_error_of<V, E>(answers: Seq<Result<Option<V>, E>>) -> Option<E>
    decreases answers.len(),
{
    if answers.len() == 0 {
        None
    } else {
        match answers.last() {
            Err(e) => Some(e),
            _ => last_error_of(answers.drop_last()),
        }
    }
}

/// The answer of a store none of whose replicas holds the key.
pub open spec fn missing_or<V, E>(last_error: Option<E>) -> Result<Option<V>, E> {
    match last_error {
        Some(e) => Err(e),
        None => Ok(None),
    }
}

/// The first replica that holds the key answers for the store.
pub proof fn lemma_first_holder_answers<V, E>(answers: Seq<Result<Option<V>, E>>, i: int)
    requires
        first_found(answers, i),
    ensures
        resolved(answers) == answers[i],
{
    let k = choose|k: int| first_found(answers, k);
    assert(first_found(answers, k));
    if k < i {
        assert(!is_found(answers[k]));
    }
    if i < k {
        assert(!is_found(answers[i]));
    }
}

/// The last error of a list is that of the last replica that could not say.
proof fn lemma_last_error_of<V, E>(answers: Seq<Result<Option<V>, E>>)
    ensures
        match last_error_of(answers) {
            Some(e) => exists|i: int| last_failed(answers, i) && answers[i] == Err::<Option<V>, E>(e),
            None => forall|i: int| 0 <= i < answers.len() ==> !((#[trigger] answers[i]) is Err),
        },
    decreases answers.len(),
{
    if answers.len() > 0 {
        let shorter = answers.drop_last();
        let n = answers.len() - 1;
        match answers.last() {
            Err(e) => {
                assert(last_failed(answers, n));
            },
            _ => {
                lemma_last_error_of(shorter);
                match last_error_of(shorter) {
                    Some(e) => {
                        let i = choose|i: int|
                            last_failed(shorter, i) && shorter[i] == Err::<Option<V>, E>(e);
                        assert forall|j: int| i < j < answers.len() implies !((
                        #[trigger] answers[j]) is Err) by {
                            if j < n {
                                assert(shorter[j] == answers[j]);
                            }
                        }
                        assert(answers[i] == shorter[i]);
                        assert(last_failed(answers, i));
                    },
                    None => {
                        assert forall|i: int| 0 <= i < answers.len() implies !((
                        #[trigger] answers[i]) is Err) by {
                            if i < n {
                                assert(shorter[i] == answers[i]);
                            }
                        }
                    },
                }
            },
        }
    }
}

/// Where no replica holds the key, the store says what the last error says,
/// and that the key is missing if there was no error.
pub proof fn lemma_none_found<V, E>(answers: Seq<Result<Option<V>, E>>)
    requires
        forall|i: int| 0 <= i < answers.len() ==> !is_found(#[trigger] answers[i]),
    ensures
        resolved(answers) == missing_or::<V, E>(last_error_of(answers)),
{
    lemma_last_error_of(answers);
    match last_error_of(answers) {
        Some(e) => {
            let i = choose|i: int| last_failed(answers, i) && answers[i] == Err::<Option<V>, E>(e);
            let k = choose|k: int| last_failed(answers, k);
            assert(last_failed(answers, k));
            if k < i {
                assert(!(answers[i] is Err));
            }
            if i < k {
                assert(!(answers[k] is Err));
            }
        },
        None => {},
    }
}

/// Among replicas that hold the key one is the first.
proof fn lemma_some_first_found<V, E>(answers: Seq<Result<Option<V>, E>>, i: int)
    requires
        0 <= i < answers.len(),
        is_found(answers[i]),
    ensures
        exists|k: int| first_found(answers, k),
    decreases i,
{
    if exists|j: int| 0 <= j < i && is_found(answers[j]) {
        let j = choose|j: int| 0 <= j < i && is_found(answers[j]);
        lemma_some_first_found(answers, j);
    } else {
        assert(first_found(answers, i));
    }
}

/// The store says that the key is missing exactly if every normal replica
/// says so.
pub proof fn lemma_missing_iff_all_missing<V, E>(answers: Seq<Result<Option<V>, E>>)
    ensures
        resolved(answers) == Ok::<Option<V>, E>(None) <==> forall|i: int|
            0 <= i < answers.len() ==> #[trigger] answers[i] == Ok::<Option<V>, E>(None),
{
    if forall|i: int| 0 <= i < answers.len() ==> !is_found(#[trigger] answers[i]) {
        lemma_none_found(answers);
        lemma_last_error_of(answers);
        if last_error_of(answers) is None {
            assert forall|i: int| 0 <= i < answers.len() implies #[trigger] answers[i] == Ok::<
                Option<V>,
                E,
            >(None) by {
                assert(!is_found(answers[i]));
                assert(!(answers[i] is Err));
            }
        } else {
            let e = last_error_of(answers)->Some_0;
            let i = choose|i: int| last_failed(answers, i) && answers[i] == Err::<Option<V>, E>(e);
            assert(answers[i] != Ok::<Option<V>, E>(None));
        }
    } else {
        let i = choose|i: int| 0 <= i < answers.len() && is_found(#[trigger] answers[i]);
        lemma_some_first_found(answers, i);
        let k = choose|k: int| first_found(answers, k);
        lemma_first_holder_answers(answers, k);
        assert(answers[k] != Ok::<Option<V>, E>(None));
    }
}

/// The answer of a store whose normal replicas have all been asked.
pub fn resolve_answers<V, E>(answers: Vec<Result<Option<V>, E>>) -> (result: Result<Option<V>, E>)
    ensures
        result == resolved(answers@),
{
    let ghost all = answers@;
    let mut last_error: Option<E> = None;
    assert(all.take(0) =~= Seq::empty());
    for answer in it: answers
        invariant
            it.seq() == all,
            forall|j: int| 0 <= j < it.index() ==> !is_found(#[trigger] all[j]),
            last_error == last_error_of(all.take(it.index() as int)),
    {
        let ghost index = it.index() as int;
        proof {
            let next = all.take(index + 1);
            assert(next.drop_last() =~= all.take(index));
            assert(next.last() == answer);
        }
        match answer {
            Ok(Some(value)) => {
                proof {
                    lemma_first_holder_answers(all, index);
                }
                return Ok(Some(value));
            },
            Ok(None) => {},
            Err(e) => {
                last_error = Some(e);
            },
        }
    }
    proof {
        assert(all.take(all.len() as int) =~= all);
        lemma_none_found(all);
    }
    match last_error {
        Some(e) => Err(e),
        None => Ok(None),
    }
}

/// A read in progress, for a caller that asks one replica after another.
#[derive(Debug, PartialEq, Eq)]
pub enum ReadState<V, E> {
    /// The normal replica at `index`, of `count`, is to be asked next; the
    /// replicas before it do not hold the key.
    Asking { index: usize, count: usize, last_error: Option<E> },
    /// The store has its answer; no further replica is asked.
    Done(Result<Option<V>, E>),
}

/// A read of a store with `count` normal replicas, before any is asked.
pub open spec fn read_begin<V, E>(count: usize) -> ReadState<V, E> {
    if count == 0 {
        ReadState::Done(Ok(None))
    } else {
        ReadState::Asking { index: 0, count, last_error: None }
    }
}

/// The read after the replica that was asked has answered.
pub open spec fn read_next<V, E>(state: ReadState<V, E>, answer: Result<Option<V>, E>) -> ReadState<
    V,
    E,
> {
    match state {
        ReadState::Done(result) => ReadState::Done(result),
        ReadState::Asking { index, count, last_error } => match answer {
            Ok(Some(value)) => ReadState::Done(Ok(Some(value))),
            _ => {
                let last_error = match answer {
                    Err(e) => Some(e),
                    _ => last_error,
                };
                if index + 1 >= count {
                    ReadState::Done(missing_or(last_error))
                } else {
                    ReadState::Asking { index: (index + 1) as usize, count, last_error }
                }
            },
        },
    }
}

/// The read after the first replicas have answered, in their order.
pub open spec fn read_after<V, E>(count: usize, answers: Seq<Result<Option<V>, E>>) -> ReadState<
    V,
    E,
>
    decreases answers.len(),
{
    if answers.len() == 0 {
        read_begin(count)
    } else {
        read_next(read_after(count, answers.drop_last()), answers.last())
    }
}

impl<V, E> ReadState<V, E> {
    /// Begins a read of a store with `count` normal replicas.
    pub fn begin(count: usize) -> (state: ReadState<V, E>)
        ensures
            state == read_begin::<V, E>(count),
    {
        if count == 0 {
            ReadState::Done(Ok(None))
        } else {
            ReadState::Asking { index: 0, count, last_error: None }
        }
    }

    /// Takes the answer of the replica that was asked.
    pub fn answer(self, answer: Result<Option<V>, E>) -> (next: ReadState<V, E>)
        ensures
            next == read_next(self, answer),
    {
        match self {
            ReadState::Done(result) => ReadState::Done(result),
            ReadState::Asking { index, count, last_error } => {
                let last_error = match answer {
                    Ok(Some(value)) => {
                        return ReadState::Done(Ok(Some(value)));
                    },
                    Ok(None) => last_error,
                    Err(e) => Some(e),
                };
                if count <= index || count - index <= 1 {
                    ReadState::Done(
                        match last_error {
                            Some(e) => Err(e),
                            None => Ok(None),
                        },
                    )
                } else {
                    ReadState::Asking { index: index + 1, count, last_error }
                }
            },
        }
    }
}

/// While no replica holds the key, the next one is asked, and the last error
/// is kept; after the last replica the store answers.
proof fn lemma_read_prefix<V, E>(answers: Seq<Result<Option<V>, E>>, k: int)
    requires
        0 <= k <= answers.len() <= usize::MAX,
        forall|j: int| 0 <= j < k ==> !is_found(#[trigger] answers[j]),
    ensures
        read_after(answers.len() as usize, answers.take(k)) == if k == answers.len() {
            ReadState::Done(missing_or::<V, E>(last_error_of(answers.take(k))))
        } else {
            ReadState::Asking {
                index: k as usize,
                count: answers.len() as usize,
                last_error: last_error_of(answers.take(k)),
            }
        },
    decreases k,
{
    if k > 0 {
        lemma_read_prefix(answers, k - 1);
        assert(answers.take(k).drop_last() =~= answers.take(k - 1));
        assert(answers.take(k).last() == answers[k - 1]);
        assert(!is_found(answers[k - 1]));
    } else {
        assert(answers.take(0) =~= Seq::empty());
    }
}

/// A read that has its answer keeps it, whatever later replicas say.
proof fn lemma_done_stays<V, E>(
    count: usize,
    answers: Seq<Result<Option<V>, E>>,
    m: int,
    k: int,
)
    requires
        0 <= m <= k <= answers.len(),
        read_after(count, answers.take(m)) is Done,
    ensures
        read_after(count, answers.take(k)) == read_after(count, answers.take(m)),
    decreases k - m,
{
    if m < k {
        lemma_done_stays(count, answers, m, k - 1);
        assert(answers.take(k).drop_last() =~= answers.take(k - 1));
    }
}

/// As soon as a replica holds the key the read is done: the replicas after
/// the first holder are not asked.
pub proof fn lemma_read_stops_at_first_holder<V, E>(answers: Seq<Result<Option<V>, E>>, i: int)
    requires
        answers.len() <= usize::MAX,
        first_found(answers, i),
    ensures
        read_after(answers.len() as usize, answers.take(i + 1)) == ReadState::Done(answers[i]),
{
    lemma_read_prefix(answers, i);
    assert(answers.take(i + 1).drop_last() =~= answers.take(i));
    assert(answers.take(i + 1).last() == answers[i]);
}

/// Asking the replicas one after another, as far as needed, gives the answer
/// that all their answers together give.
pub proof fn lemma_read_in_order<V, E>(answers: Seq<Result<Option<V>, E>>)
    requires
        answers.len() <= usize::MAX,
    ensures
        read_after(answers.len() as usize, answers) == ReadState::Done(resolved(answers)),
{
    let n = answers.len() as int;
    assert(answers.take(n) =~= answers);
    if forall|j: int| 0 <= j < n ==> !is_found(#[trigger] answers[j]) {
        lemma_read_prefix(answers, n);
        lemma_none_found(answers);
    } else {
        let j = choose|j: int| 0 <= j < n && is_found(#[trigger] answers[j]);
        lemma_some_first_found(answers, j);
        let i = choose|i: int| first_found(answers, i);
        lemma_read_stops_at_first_holder(answers, i);
        lemma_first_holder_answers(answers, i);
        lemma_done_stays(answers.len() as usize, answers, i + 1, n);
    }
}

/// What a replica says about the presence of a key, as the answer to a read
/// of nothing.
pub open spec fn presence<E>(answer: Result<bool, E>) -> Result<Option<()>, E> {
    match answer {
        Ok(true) => Ok(Some(())),
        Ok(false) => Ok(None),
        Err(e) => Err(e),
    }
}

/// Whether the store holds a key, from what its normal replicas say in their
/// configured order: it does if any does, it does not if none does, and
/// otherwise the last error stands.
pub open spec fn resolved_presence<E>(answers: Seq<Result<bool, E>>) -> Result<bool, E> {
    match resolved(answers.map_values(|a: Result<bool, E>| presence(a))) {
        Ok(Some(_)) => Ok(true),
        Ok(None) => Ok(false),
        Err(e) => Err(e),
    }
}

/// Whether a store holds a key, once its normal replicas have all been asked.
pub fn resolve_presence<E>(answers: Vec<Result<bool, E>>) -> (result: Result<bool, E>)
    ensures
        result == resolved_presence(answers@),
{
    let ghost all = answers@;
    let ghost wanted = all.map_values(|a: Result<bool, E>| presence(a));
    let mut lookups: Vec<Result<Option<()>, E>> = Vec::new();
    for answer in it: answers
        invariant
            it.seq() == all,
            wanted == all.map_values(|a: Result<bool, E>| presence(a)),
            lookups@ == wanted.take(it.index() as int),
    {
        let lookup = match answer {
            Ok(true) => Ok(Some(())),
            Ok(false) => Ok(None),
            Err(e) => Err(e),
        };
        lookups.push(lookup);
        assert(lookups@ =~= wanted.take(it.index() + 1));
    }
    assert(lookups@ =~= wanted);
    match resolve_answers(lookups) {
        Ok(Some(_)) => Ok(true),
        Ok(None) => Ok(false),
        Err(e) => Err(e),
    }
}

/// The store holds the key exactly if some normal replica says that it does,
/// and lacks it exactly if every normal replica says that it does.
pub proof fn lemma_presence<E>(answers: Seq<Result<bool, E>>)
    ensures
        resolved_presence(answers) == Ok::<bool, E>(true) <==> exists|i: int|
            0 <= i < answers.len() && #[trigger] answers[i] == Ok::<bool, E>(true),
        resolved_presence(answers) == Ok::<bool, E>(false) <==> forall|i: int|
            0 <= i < answers.len() ==> #[trigger] answers[i] == Ok::<bool, E>(false),
{
    let lookups = answers.map_values(|a: Result<bool, E>| presence(a));
    lemma_missing_iff_all_missing(lookups);
    assert forall|i: int| 0 <= i < answers.len() implies (#[trigger] lookups[i] == Ok::<
        Option<()>,
        E,
    >(None) <==> answers[i] == Ok::<bool, E>(false)) by {}
    if forall|i: int| 0 <= i < answers.len() ==> #[trigger] answers[i] == Ok::<bool, E>(false) {
        assert forall|i: int| 0 <= i < lookups.len() implies #[trigger] lookups[i] == Ok::<
            Option<()>,
            E,
        >(None) by {
            assert(answers[i] == Ok::<bool, E>(false));
        }
    }
    if resolved_presence(answers) == Ok::<bool, E>(false) {
        assert forall|i: int| 0 <= i < answers.len() implies #[trigger] answers[i] == Ok::<bool, E>(
            false,
        ) by {
            assert(lookups[i] == Ok::<Option<()>, E>(None));
        }
    }
    if exists|i: int| 0 <= i < answers.len() && #[trigger] answers[i] == Ok::<bool, E>(true) {
        let i = choose|i: int| 0 <= i < answers.len() && #[trigger] answers[i] == Ok::<bool, E>(true);
        assert(is_found(lookups[i]));
        lemma_some_first_found(lookups, i);
        let k = choose|k: int| first_found(lookups, k);
        lemma_first_holder_answers(lookups, k);
    }
    if resolved_presence(answers) == Ok::<bool, E>(true) {
        if forall|j: int| 0 <= j < lookups.len() ==> !is_found(#[trigger] lookups[j]) {
            lemma_none_found(lookups);
        } else {
            let j = choose|j: int| 0 <= j < lookups.len() && is_found(#[trigger] lookups[j]);
            assert(answers[j] == Ok::<bool, E>(true));
        }
    }
}

} // verus!
