//! Memoizing caches around a computation handed in as a closure.
//!
//! [`Cacher2`] is the keyed cache: it stores one result per argument and
//! invokes the computation once per argument at most. [`FallibleCacher`] is
//! the same cache for a computation that may fail; a failure is handed to the
//! caller and never stored. [`TextCacher`] is the keyed cache for keys that
//! are text. [`Cacher`] holds one entry, the last.
//!
//! A closure may answer differently from call to call, so the contracts speak
//! of the results that the computation *can* give (`call_ensures`). For a
//! computation that is a function of its argument this pins every answer; see
//! [`Cacher2::lemma_value_fidelity`].

use std::collections::HashMap;
use std::hash::Hash;
use vstd::hash_map::StringHashMap;
use vstd::multiset::Multiset;
use vstd::prelude::*;
use vstd::std_specs::hash::obeys_key_model;
use vstd::string::StringSliceAdditionalSpecFns;
use vstd::utf8::encode_utf8;

verus! {

/// Cloning a `T` yields an equal value.
pub open spec fn clone_is_exact<T: Clone>() -> bool {
    forall|value: T, copy: T| #[trigger] cloned(value, copy) ==> value == copy
}

/// `U` can key a cache whose values are of type `V`: keys hash and compare as
/// the hash-table model expects, and keys and values clone to equal values.
pub open spec fn cacheable<U: Clone, V: Clone>() -> bool {
    &&& obeys_key_model::<U>()
    &&& clone_is_exact::<U>()
    &&& clone_is_exact::<V>()
}

/// A keyed memoizing cache: it remembers, for every argument it has been
/// asked about, what the wrapped computation returned.
pub struct Cacher2<T, U, V> {
    calculation: T,
    map: HashMap<U, V>,
    calls: Ghost<Multiset<U>>,
}

impl<T, U, V> Cacher2<T, U, V> {
    /// The wrapped computation. It is fixed when the cache is made.
    pub closed spec fn computation(&self) -> T {
        self.calculation
    }

    /// The entries held: each argument asked about so far, with its result.
    pub closed spec fn entries(&self) -> Map<U, V> {
        self.map@
    }

    /// The arguments on which the computation has been invoked since the
    /// cache was made, each as often as it was invoked.
    pub closed spec fn invocations(&self) -> Multiset<U> {
        self.calls@
    }
}

impl<T, U, V> Cacher2<T, U, V> where T: Fn(U) -> V, U: Hash + Eq + Clone, V: Clone {
    /// The cache's invariant: every entry holds a result that the computation
    /// gives on its key, and the computation has been invoked exactly once on
    /// each key that has an entry and never on any other argument.
    pub open spec fn wf(&self) -> bool {
        &&& cacheable::<U, V>()
        &&& forall|k: U| #[trigger]
            self.entries().contains_key(k) ==> call_ensures(
                self.computation(),
                (k,),
                self.entries()[k],
            )
        &&& forall|k: U|
            #[trigger] self.invocations().count(k) == if self.entries().contains_key(k) {
                1nat
            } else {
                0nat
            }
    }

    /// One query as a relation between states: asking `before` about `arg`
    /// may leave the cache as `after` and answer `value`.
    ///
    /// On a hit the stored result is the answer and nothing changes. On a
    /// miss the computation is invoked once, on `arg`, and what it returns is
    /// both stored and answered.
    pub open spec fn queried(before: Self, arg: U, after: Self, value: V) -> bool {
        &&& after.computation() == before.computation()
        &&& if before.entries().contains_key(arg) {
            &&& value == before.entries()[arg]
            &&& after.entries() == before.entries()
            &&& after.invocations() == before.invocations()
        } else {
            &&& call_ensures(before.computation(), (arg,), value)
            &&& after.entries() == before.entries().insert(arg, value)
            &&& after.invocations() == before.invocations().insert(arg)
        }
    }

    /// Makes an empty cache around `calculation`.
    ///
    /// The key type has to be one that is known to hash and compare as the
    /// hash-table model expects, which the integers and `bool` are. For keys
    /// that are text there is [`TextCacher`].
    pub fn new(calculation: T) -> (cache: Self)
        requires
            cacheable::<U, V>(),
        ensures
            cache.wf(),
            cache.computation() == calculation,
            cache.entries() == Map::<U, V>::empty(),
            cache.invocations() == Multiset::<U>::empty(),
    {
        Cacher2 { calculation, map: HashMap::new(), calls: Ghost(Multiset::empty()) }
    }

    /// Answers what the computation gives on `arg`: from the entry for `arg`
    /// where there is one, else by invoking the computation and storing what
    /// it returns.
    ///
    /// The computation needs to accept `arg` only where no entry answers for
    /// it.
    pub fn get_value(&mut self, arg: &U) -> (value: V)
        requires
            old(self).wf(),
            !old(self).entries().contains_key(*arg) ==> call_requires(
                old(self).computation(),
                (*arg,),
            ),
        ensures
            final(self).wf(),
            Self::queried(*old(self), *arg, *final(self), value),
            call_ensures(old(self).computation(), (*arg,), value),
            final(self).entries().contains_key(*arg),
            final(self).entries()[*arg] == value,
            old(self).entries().submap_of(final(self).entries()),
    {
        broadcast use vstd::std_specs::hash::group_hash_axioms;

        match self.map.get(arg) {
            Some(stored) => {
                let value = stored.clone();
                assert(cloned(*stored, value));
                value
            },
            None => {
                let input = arg.clone();
                assert(cloned(*arg, input));
                let value = (self.calculation)(input);
                let key = arg.clone();
                assert(cloned(*arg, key));
                let kept = value.clone();
                assert(cloned(value, kept));
                self.map.insert(key, kept);
                proof {
                    self.calls@ = self.calls@.insert(*arg);
                    Self::lemma_query_keeps_wf(*old(self), *arg, *self, value);
                }
                value
            },
        }
    }

    /// Asking twice about equal arguments gives equal answers, and the second
    /// query is a hit: between them the two queries invoke the computation
    /// once where the argument had no entry, and not at all where it had one.
    pub proof fn lemma_idempotent_insertion(
        start: Self,
        k1: U,
        between: Self,
        v1: V,
        k2: U,
        end: Self,
        v2: V,
    )
        requires
            k1 == k2,
            Self::queried(start, k1, between, v1),
            Self::queried(between, k2, end, v2),
        ensures
            v1 == v2,
            end.entries() == between.entries(),
            end.invocations() == between.invocations(),
            !start.entries().contains_key(k1) ==> end.invocations() == start.invocations().insert(
                k1,
            ),
            start.entries().contains_key(k1) ==> end.invocations() == start.invocations(),
    {
    }

    /// Asking about one argument any number of times, once at least, leaves
    /// the computation invoked on it exactly once in the cache's lifetime,
    /// and every answer is the first one.
    ///
    /// `states` holds the cache before the first query and after each one,
    /// `answers` what each query returned.
    pub proof fn lemma_call_count(states: Seq<Self>, arg: U, answers: Seq<V>)
        requires
            answers.len() >= 1,
            states.len() == answers.len() + 1,
            states[0].wf(),
            forall|i: int|
                0 <= i < answers.len() ==> Self::queried(
                    #[trigger] states[i],
                    arg,
                    states[i + 1],
                    answers[i],
                ),
        ensures
            states.last().wf(),
            states.last().invocations().count(arg) == 1,
            states.last().invocations() == states[1].invocations(),
            states.last().entries() == states[1].entries(),
            forall|i: int| 0 <= i < answers.len() ==> #[trigger] answers[i] == answers[0],
        decreases answers.len(),
    {
        let n = answers.len() as int;
        assert(Self::queried(states[0], arg, states[1], answers[0]));
        Self::lemma_query_keeps_wf(states[0], arg, states[1], answers[0]);
        if n > 1 {
            let shorter = states.drop_last();
            let fewer = answers.drop_last();
            assert forall|i: int| 0 <= i < fewer.len() implies Self::queried(
                #[trigger] shorter[i],
                arg,
                shorter[i + 1],
                fewer[i],
            ) by {
                assert(Self::queried(states[i], arg, states[i + 1], answers[i]));
            }
            Self::lemma_call_count(shorter, arg, fewer);
            assert(shorter.last() == states[n - 1]);
            assert(Self::queried(states[n - 1], arg, states[n], answers[n - 1]));
            Self::lemma_query_keeps_wf(states[n - 1], arg, states[n], answers[n - 1]);
            assert(fewer[0] == answers[0]);
            assert forall|i: int| 0 <= i < answers.len() implies #[trigger] answers[i]
                == answers[0] by {
                if i < n - 1 {
                    assert(fewer[i] == fewer[0]);
                }
            }
        }
    }

    /// Two different arguments are computed independently: asked about `a`,
    /// then `b`, then `a` again, a cache that held neither invokes the
    /// computation twice, once on each, keeps both results, and answers the
    /// third query from the entry of the first.
    pub proof fn lemma_distinct_keys(
        start: Self,
        a: U,
        b: U,
        after_a: Self,
        value_a: V,
        after_b: Self,
        value_b: V,
        end: Self,
        again_a: V,
    )
        requires
            a != b,
            !start.entries().contains_key(a),
            !start.entries().contains_key(b),
            Self::queried(start, a, after_a, value_a),
            Self::queried(after_a, b, after_b, value_b),
            Self::queried(after_b, a, end, again_a),
        ensures
            after_b.invocations() == start.invocations().insert(a).insert(b),
            after_b.entries() == start.entries().insert(a, value_a).insert(b, value_b),
            end.invocations() == after_b.invocations(),
            end.entries() == after_b.entries(),
            again_a == value_a,
    {
    }

    /// Where the computation is a function `f` of its argument, every answer
    /// about `arg` is `f(arg)`, from the store or freshly computed.
    pub proof fn lemma_value_fidelity(
        before: Self,
        arg: U,
        after: Self,
        value: V,
        f: spec_fn(U) -> V,
    )
        requires
            before.wf(),
            forall|k: U, r: V| #[trigger] call_ensures(before.computation(), (k,), r) ==> r == f(k),
            Self::queried(before, arg, after, value),
        ensures
            value == f(arg),
            forall|k: U| #[trigger] after.entries().contains_key(k) ==> after.entries()[k] == f(k),
    {
        Self::lemma_query_keeps_wf(before, arg, after, value);
    }

    /// In the lifetime of a cache the computation is invoked once at most on
    /// any one argument: once on each that has an entry, never on another.
    pub proof fn lemma_invoked_once_at_most(cache: Self, arg: U)
        requires
            cache.wf(),
        ensures
            cache.invocations().count(arg) <= 1,
            cache.invocations().count(arg) == 1 <==> cache.entries().contains_key(arg),
    {
    }

    /// No query removes an entry or replaces the result that one holds: what
    /// the cache held before, it holds after.
    pub proof fn lemma_entries_are_kept(before: Self, arg: U, after: Self, value: V)
        requires
            Self::queried(before, arg, after, value),
        ensures
            before.entries().submap_of(after.entries()),
            after.entries().dom() == before.entries().dom().insert(arg),
    {
    }

    /// Every query leaves a well-formed cache well-formed.
    pub proof fn lemma_query_keeps_wf(before: Self, arg: U, after: Self, value: V)
        requires
            before.wf(),
            Self::queried(before, arg, after, value),
        ensures
            after.wf(),
    {
        assert forall|k: U| #[trigger] after.entries().contains_key(k) implies call_ensures(
            after.computation(),
            (k,),
            after.entries()[k],
        ) by {
            if k != arg {
                assert(before.entries().contains_key(k));
            }
        }
        assert forall|k: U|
            #[trigger] after.invocations().count(k) == if after.entries().contains_key(k) {
                1nat
            } else {
                0nat
            } by {
            assert(before.invocations().count(k) == if before.entries().contains_key(k) {
                1nat
            } else {
                0nat
            });
        }
    }
}

/// Makes an empty keyed cache around a computation that is given in two
/// parts: the `context` it works in, handed over here once and for all, and
/// the `step` that computes a result from the context and an argument.
///
/// The cache's computation is `step` applied to the context: it accepts an
/// argument where `step` accepts it with the context, and gives only results
/// that `step` gives with the context.
pub fn with_context<C, F, U, V>(context: C, step: F) -> (cache: Cacher2<impl Fn(U) -> V, U, V>)
    where F: Fn(&C, U) -> V, U: Hash + Eq + Clone, V: Clone
    requires
        cacheable::<U, V>(),
    ensures
        cache.wf(),
        cache.entries() == Map::<U, V>::empty(),
        cache.invocations() == Multiset::<U>::empty(),
        forall|arg: U|
            call_requires(step, (&context, arg)) ==> #[trigger] call_requires(
                cache.computation(),
                (arg,),
            ),
        forall|arg: U, value: V| #[trigger]
            call_ensures(cache.computation(), (arg,), value) ==> call_ensures(
                step,
                (&context, arg),
                value,
            ),
{
    let given: Ghost<F> = Ghost(step);
    let around: Ghost<C> = Ghost(context);
    let computation = move |arg: U| -> (value: V)
        requires
            call_requires(given@, (&around@, arg)),
        ensures
            call_ensures(given@, (&around@, arg), value),
        { step(&context, arg) };
    Cacher2::new(computation)
}

/// A keyed memoizing cache around a computation that may fail.
///
/// A success is stored and answers every later query about its argument. A
/// failure is handed to the caller and leaves no trace in the store, so the
/// next query about that argument invokes the computation again.
pub struct FallibleCacher<T, U, V> {
    calculation: T,
    map: HashMap<U, V>,
    calls: Ghost<Multiset<U>>,
}

impl<T, U, V> FallibleCacher<T, U, V> {
    /// The wrapped computation. It is fixed when the cache is made.
    pub closed spec fn computation(&self) -> T {
        self.calculation
    }

    /// The entries held: each argument on which the computation has
    /// succeeded, with its result.
    pub closed spec fn entries(&self) -> Map<U, V> {
        self.map@
    }

    /// The arguments on which the computation has been invoked since the
    /// cache was made, each as often as it was invoked, failures included.
    pub closed spec fn invocations(&self) -> Multiset<U> {
        self.calls@
    }
}

impl<T, U, V, E> FallibleCacher<T, U, V> where
    T: Fn(U) -> Result<V, E>,
    U: Hash + Eq + Clone,
    V: Clone,
 {
    /// The cache's invariant: every entry holds a success that the
    /// computation gives on its key, and the computation has been invoked on
    /// every key that has an entry.
    pub open spec fn wf(&self) -> bool {
        &&& cacheable::<U, V>()
        &&& forall|k: U| #[trigger]
            self.entries().contains_key(k) ==> call_ensures(
                self.computation(),
                (k,),
                Ok::<V, E>(self.entries()[k]),
            )
        &&& forall|k: U| #[trigger]
            self.entries().contains_key(k) ==> self.invocations().count(k) >= 1
    }

    /// One query as a relation between states: asking `before` about `arg`
    /// may leave the cache as `after` and answer `outcome`.
    ///
    /// On a hit the stored result is the answer and nothing changes. On a
    /// miss the computation is invoked once, on `arg`, and its outcome is the
    /// answer; only a success is stored.
    pub open spec fn queried(before: Self, arg: U, after: Self, outcome: Result<V, E>) -> bool {
        &&& after.computation() == before.computation()
        &&& if before.entries().contains_key(arg) {
            &&& outcome == Ok::<V, E>(before.entries()[arg])
            &&& after.entries() == before.entries()
            &&& after.invocations() == before.invocations()
        } else {
            &&& call_ensures(before.computation(), (arg,), outcome)
            &&& after.invocations() == before.invocations().insert(arg)
            &&& after.entries() == match outcome {
                Ok(value) => before.entries().insert(arg, value),
                Err(_) => before.entries(),
            }
        }
    }

    /// Makes an empty cache around `calculation`.
    pub fn new(calculation: T) -> (cache: Self)
        requires
            cacheable::<U, V>(),
        ensures
            cache.wf(),
            cache.computation() == calculation,
            cache.entries() == Map::<U, V>::empty(),
            cache.invocations() == Multiset::<U>::empty(),
    {
        FallibleCacher { calculation, map: HashMap::new(), calls: Ghost(Multiset::empty()) }
    }

    /// Answers what the computation gives on `arg`: from the entry for `arg`
    /// where there is one, else by invoking the computation. A success is
    /// stored before it is returned; a failure is returned and not stored.
    pub fn get_value(&mut self, arg: &U) -> (outcome: Result<V, E>)
        requires
            old(self).wf(),
            !old(self).entries().contains_key(*arg) ==> call_requires(
                old(self).computation(),
                (*arg,),
            ),
        ensures
            final(self).wf(),
            Self::queried(*old(self), *arg, *final(self), outcome),
            call_ensures(old(self).computation(), (*arg,), outcome),
            outcome is Err ==> !old(self).entries().contains_key(*arg) && final(self).entries()
                == old(self).entries(),
            outcome matches Ok(value) ==> final(self).entries().contains_key(*arg)
                && final(self).entries()[*arg] == value,
            old(self).entries().submap_of(final(self).entries()),
    {
        broadcast use vstd::std_specs::hash::group_hash_axioms;

        match self.map.get(arg) {
            Some(stored) => {
                let value = stored.clone();
                assert(cloned(*stored, value));
                Ok(value)
            },
            None => {
                let input = arg.clone();
                assert(cloned(*arg, input));
                let outcome = (self.calculation)(input);
                proof {
                    self.calls@ = self.calls@.insert(*arg);
                }
                match outcome {
                    Ok(value) => {
                        let key = arg.clone();
                        assert(cloned(*arg, key));
                        let kept = value.clone();
                        assert(cloned(value, kept));
                        self.map.insert(key, kept);
                        proof {
                            Self::lemma_query_keeps_wf(*old(self), *arg, *self, Ok(value));
                        }
                        Ok(value)
                    },
                    Err(failure) => {
                        proof {
                            Self::lemma_query_keeps_wf(*old(self), *arg, *self, Err(failure));
                        }
                        Err(failure)
                    },
                }
            },
        }
    }

    /// A failure is not stored, so the next query about the same argument
    /// invokes the computation again and answers with what that second
    /// invocation gives.
    pub proof fn lemma_failure_is_retried(
        start: Self,
        arg: U,
        between: Self,
        failure: E,
        end: Self,
        second: Result<V, E>,
    )
        requires
            Self::queried(start, arg, between, Err(failure)),
            Self::queried(between, arg, end, second),
        ensures
            !start.entries().contains_key(arg),
            between.entries() == start.entries(),
            call_ensures(start.computation(), (arg,), second),
            end.invocations() == start.invocations().insert(arg).insert(arg),
            second matches Ok(value) ==> end.entries() == start.entries().insert(arg, value),
            second is Err ==> end.entries() == start.entries(),
    {
    }

    /// A success is stored: the next query about the same argument is
    /// answered with it and does not invoke the computation.
    pub proof fn lemma_success_is_kept(
        start: Self,
        arg: U,
        between: Self,
        value: V,
        end: Self,
        second: Result<V, E>,
    )
        requires
            Self::queried(start, arg, between, Ok(value)),
            Self::queried(between, arg, end, second),
        ensures
            second == Ok::<V, E>(value),
            end.entries() == between.entries(),
            end.invocations() == between.invocations(),
    {
    }

    /// Every query leaves a well-formed cache well-formed.
    pub proof fn lemma_query_keeps_wf(before: Self, arg: U, after: Self, outcome: Result<V, E>)
        requires
            before.wf(),
            Self::queried(before, arg, after, outcome),
        ensures
            after.wf(),
    {
        assert forall|k: U| #[trigger] after.entries().contains_key(k) implies call_ensures(
            after.computation(),
            (k,),
            Ok::<V, E>(after.entries()[k]),
        ) && after.invocations().count(k) >= 1 by {
            if k != arg {
                assert(before.entries().contains_key(k));
            } else if before.entries().contains_key(arg) {
            } else {
                assert(outcome is Ok);
            }
        }
    }
}

/// A keyed memoizing cache whose keys are text.
///
/// It is [`Cacher2`] for `String` arguments. Two strings are one key where
/// they hold the same characters, so the entries are kept by the characters
/// of the key, and the computation is expected to look at nothing else of
/// its argument.
#[verifier::reject_recursive_types(V)]
pub struct TextCacher<T, V> {
    calculation: T,
    map: StringHashMap<V>,
    calls: Ghost<Multiset<Seq<char>>>,
}

impl<T, V> TextCacher<T, V> {
    /// The wrapped computation. It is fixed when the cache is made.
    pub closed spec fn computation(&self) -> T {
        self.calculation
    }

    /// The entries held: the characters of each argument asked about so
    /// far, with its result.
    pub closed spec fn entries(&self) -> Map<Seq<char>, V> {
        self.map@
    }

    /// The texts on which the computation has been invoked since the cache
    /// was made, each as often as it was invoked.
    pub closed spec fn invocations(&self) -> Multiset<Seq<char>> {
        self.calls@
    }
}

impl<T, V> TextCacher<T, V> where T: Fn(String) -> V, V: Clone {
    /// `value` is a result that the computation gives on a string that
    /// holds the characters `text`.
    pub open spec fn computes(computation: T, text: Seq<char>, value: V) -> bool {
        exists|arg: String| arg@ == text && #[trigger] call_ensures(computation, (arg,), value)
    }

    /// The cache's invariant: every entry holds a result that the computation
    /// gives on its key, and the computation has been invoked exactly once on
    /// each key that has an entry and never on any other text.
    pub open spec fn wf(&self) -> bool {
        &&& clone_is_exact::<V>()
        &&& forall|k: Seq<char>| #[trigger]
            self.entries().contains_key(k) ==> Self::computes(
                self.computation(),
                k,
                self.entries()[k],
            )
        &&& forall|k: Seq<char>|
            #[trigger] self.invocations().count(k) == if self.entries().contains_key(k) {
                1nat
            } else {
                0nat
            }
    }

    /// One query as a relation between states: asking `before` about a
    /// string `arg` may leave the cache as `after` and answer `value`.
    ///
    /// On a hit the stored result is the answer and nothing changes. On a
    /// miss the computation is invoked once, on `arg`, and what it returns is
    /// both stored, under the characters of `arg`, and answered.
    pub open spec fn queried(before: Self, arg: String, after: Self, value: V) -> bool {
        &&& after.computation() == before.computation()
        &&& if before.entries().contains_key(arg@) {
            &&& value == before.entries()[arg@]
            &&& after.entries() == before.entries()
            &&& after.invocations() == before.invocations()
        } else {
            &&& call_ensures(before.computation(), (arg,), value)
            &&& after.entries() == before.entries().insert(arg@, value)
            &&& after.invocations() == before.invocations().insert(arg@)
        }
    }

    /// Makes an empty cache around `calculation`.
    pub fn new(calculation: T) -> (cache: Self)
        requires
            clone_is_exact::<V>(),
        ensures
            cache.wf(),
            cache.computation() == calculation,
            cache.entries() == Map::<Seq<char>, V>::empty(),
            cache.invocations() == Multiset::<Seq<char>>::empty(),
    {
        TextCacher { calculation, map: StringHashMap::new(), calls: Ghost(Multiset::empty()) }
    }

    /// Answers what the computation gives on `arg`: from the entry for the
    /// characters of `arg` where there is one, else by invoking the
    /// computation and storing what it returns.
    ///
    /// The computation needs to accept `arg` only where no entry answers for
    /// it.
    pub fn get_value(&mut self, arg: &String) -> (value: V)
        requires
            old(self).wf(),
            !old(self).entries().contains_key(arg@) ==> call_requires(
                old(self).computation(),
                (*arg,),
            ),
        ensures
            final(self).wf(),
            Self::queried(*old(self), *arg, *final(self), value),
            Self::computes(old(self).computation(), arg@, value),
            final(self).entries().contains_key(arg@),
            final(self).entries()[arg@] == value,
            old(self).entries().submap_of(final(self).entries()),
    {
        match self.map.get(arg.as_str()) {
            Some(stored) => {
                let value = stored.clone();
                assert(cloned(*stored, value));
                value
            },
            None => {
                let value = (self.calculation)(arg.clone());
                let kept = value.clone();
                assert(cloned(value, kept));
                self.map.insert(arg.clone(), kept);
                proof {
                    self.calls@ = self.calls@.insert(arg@);
                    Self::lemma_query_keeps_wf(*old(self), *arg, *self, value);
                }
                value
            },
        }
    }

    /// Asking twice about strings of the same characters gives equal
    /// answers, and the second query is a hit: between them the two queries
    /// invoke the computation once where the text had no entry, and not at
    /// all where it had one.
    pub proof fn lemma_idempotent_insertion(
        start: Self,
        k1: String,
        between: Self,
        v1: V,
        k2: String,
        end: Self,
        v2: V,
    )
        requires
            k1@ == k2@,
            Self::queried(start, k1, between, v1),
            Self::queried(between, k2, end, v2),
        ensures
            v1 == v2,
            end.entries() == between.entries(),
            end.invocations() == between.invocations(),
            !start.entries().contains_key(k1@) ==> end.invocations()
                == start.invocations().insert(k1@),
            start.entries().contains_key(k1@) ==> end.invocations() == start.invocations(),
    {
    }

    /// Two different texts are computed independently: asked about `a`,
    /// then `b`, then `a` again, a cache that held neither invokes the
    /// computation twice, once on each, keeps both results, and answers the
    /// third query from the entry of the first.
    pub proof fn lemma_distinct_keys(
        start: Self,
        a: String,
        b: String,
        after_a: Self,
        value_a: V,
        after_b: Self,
        value_b: V,
        end: Self,
        again_a: V,
    )
        requires
            a@ != b@,
            !start.entries().contains_key(a@),
            !start.entries().contains_key(b@),
            Self::queried(start, a, after_a, value_a),
            Self::queried(after_a, b, after_b, value_b),
            Self::queried(after_b, a, end, again_a),
        ensures
            after_b.invocations() == start.invocations().insert(a@).insert(b@),
            after_b.entries() == start.entries().insert(a@, value_a).insert(b@, value_b),
            end.invocations() == after_b.invocations(),
            end.entries() == after_b.entries(),
            again_a == value_a,
    {
    }

    /// Where the computation is a function `f` of the characters of its
    /// argument, every answer about `arg` is `f` of the characters of `arg`,
    /// from the store or freshly computed.
    pub proof fn lemma_value_fidelity(
        before: Self,
        arg: String,
        after: Self,
        value: V,
        f: spec_fn(Seq<char>) -> V,
    )
        requires
            before.wf(),
            forall|k: String, r: V| #[trigger]
                call_ensures(before.computation(), (k,), r) ==> r == f(k@),
            Self::queried(before, arg, after, value),
        ensures
            value == f(arg@),
    {
        if before.entries().contains_key(arg@) {
            assert(Self::computes(before.computation(), arg@, before.entries()[arg@]));
        }
    }

    /// In the lifetime of a cache the computation is invoked once at most on
    /// any one text: once on each that has an entry, never on another.
    pub proof fn lemma_invoked_once_at_most(cache: Self, text: Seq<char>)
        requires
            cache.wf(),
        ensures
            cache.invocations().count(text) <= 1,
            cache.invocations().count(text) == 1 <==> cache.entries().contains_key(text),
    {
    }

    /// Every query leaves a well-formed cache well-formed.
    pub proof fn lemma_query_keeps_wf(before: Self, arg: String, after: Self, value: V)
        requires
            before.wf(),
            Self::queried(before, arg, after, value),
        ensures
            after.wf(),
    {
        assert forall|k: Seq<char>| #[trigger] after.entries().contains_key(k) implies Self::computes(
            after.computation(),
            k,
            after.entries()[k],
        ) by {
            if k != arg@ {
                assert(before.entries().contains_key(k));
            } else if before.entries().contains_key(arg@) {
            } else {
                assert(call_ensures(after.computation(), (arg,), value));
            }
        }
        assert forall|k: Seq<char>|
            #[trigger] after.invocations().count(k) == if after.entries().contains_key(k) {
                1nat
            } else {
                0nat
            } by {
            assert(before.invocations().count(k) == if before.entries().contains_key(k) {
                1nat
            } else {
                0nat
            });
        }
    }
}

/// A cache of one entry over `u32`: it remembers the argument it was last
/// asked about, with the result.
///
/// A query about the remembered argument is answered from the slot. A query
/// about any other argument invokes the computation on that argument and
/// puts the new pair in the slot, in place of the old one. So every answer
/// is a result of the computation on the argument of that very query.
/// [`Cacher2`] keeps one result per argument instead of the last one only.
pub struct Cacher<T> {
    calculation: T,
    value: Option<(u32, u32)>,
    calls: Ghost<Multiset<u32>>,
}

impl<T> Cacher<T> where T: Fn(u32) -> u32 {
    /// The wrapped computation. It is fixed when the cache is made.
    pub closed spec fn computation(&self) -> T {
        self.calculation
    }

    /// What the slot holds: the argument last computed on, and the result.
    pub closed spec fn slot(&self) -> Option<(u32, u32)> {
        self.value
    }

    /// The arguments on which the computation has been invoked since the
    /// cache was made, each as often as it was invoked.
    pub closed spec fn invocations(&self) -> Multiset<u32> {
        self.calls@
    }

    /// The slot answers for `arg`: it holds a result for that argument.
    pub open spec fn holds(&self, arg: u32) -> bool {
        self.slot() matches Some(pair) && pair.0 == arg
    }

    /// The cache's invariant: what the slot holds is a result that the
    /// computation gives on the argument beside it, and the computation has
    /// been invoked on that argument.
    pub open spec fn wf(&self) -> bool {
        self.slot() matches Some(pair) ==> {
            &&& call_ensures(self.computation(), (pair.0,), pair.1)
            &&& self.invocations().count(pair.0) >= 1
        }
    }

    /// One query as a relation between states: asking `before` about `arg`
    /// may leave the cache as `after` and answer `value`.
    ///
    /// On a hit, where the slot holds a result for `arg`, that result is the
    /// answer and nothing changes. On a miss the computation is invoked once,
    /// on `arg`, and the slot is given `arg` and what was returned.
    pub open spec fn queried(before: Self, arg: u32, after: Self, value: u32) -> bool {
        &&& after.computation() == before.computation()
        &&& after.slot() == Some((arg, value))
        &&& if before.holds(arg) {
            &&& after.slot() == before.slot()
            &&& after.invocations() == before.invocations()
        } else {
            &&& call_ensures(before.computation(), (arg,), value)
            &&& after.invocations() == before.invocations().insert(arg)
        }
    }

    /// Makes a cache with an empty slot around `calculation`.
    pub fn new(calculation: T) -> (cache: Self)
        ensures
            cache.wf(),
            cache.computation() == calculation,
            cache.slot() == None::<(u32, u32)>,
            cache.invocations() == Multiset::<u32>::empty(),
    {
        Cacher { calculation, value: None, calls: Ghost(Multiset::empty()) }
    }

    /// Answers what the computation gives on `arg`: from the slot where it
    /// holds a result for `arg`, else by invoking the computation on `arg`
    /// and putting the pair in the slot.
    ///
    /// The computation needs to accept `arg` only where the slot does not
    /// answer for it.
    pub fn get_value(&mut self, arg: u32) -> (value: u32)
        requires
            old(self).wf(),
            !old(self).holds(arg) ==> call_requires(old(self).computation(), (arg,)),
        ensures
            final(self).wf(),
            Self::queried(*old(self), arg, *final(self), value),
            call_ensures(old(self).computation(), (arg,), value),
            final(self).slot() == Some((arg, value)),
    {
        match self.value {
            Some((held_for, held)) if held_for == arg => held,
            _ => {
                let value = (self.calculation)(arg);
                self.value = Some((arg, value));
                proof {
                    self.calls@ = self.calls@.insert(arg);
                }
                value
            },
        }
    }

    /// Asking twice in a row about one argument gives one answer twice, and
    /// the second query does not invoke the computation: the first invokes
    /// it once where the slot did not answer, and not at all where it did.
    pub proof fn lemma_repeated_query(
        start: Self,
        arg: u32,
        between: Self,
        first: u32,
        end: Self,
        second: u32,
    )
        requires
            Self::queried(start, arg, between, first),
            Self::queried(between, arg, end, second),
        ensures
            second == first,
            end.slot() == between.slot(),
            end.invocations() == between.invocations(),
            !start.holds(arg) ==> end.invocations() == start.invocations().insert(arg),
            start.holds(arg) ==> end.invocations() == start.invocations(),
    {
    }

    /// An answer never comes from another argument's result: where the
    /// computation is a function `f` of its argument, every answer about
    /// `arg` is `f(arg)`, whatever the cache was asked before.
    pub proof fn lemma_value_fidelity(
        before: Self,
        arg: u32,
        after: Self,
        value: u32,
        f: spec_fn(u32) -> u32,
    )
        requires
            before.wf(),
            forall|k: u32, r: u32| #[trigger]
                call_ensures(before.computation(), (k,), r) ==> r == f(k),
            Self::queried(before, arg, after, value),
        ensures
            value == f(arg),
    {
    }

    /// Every query leaves a well-formed cache well-formed.
    pub proof fn lemma_query_keeps_wf(before: Self, arg: u32, after: Self, value: u32)
        requires
            before.wf(),
            Self::queried(before, arg, after, value),
        ensures
            after.wf(),
    {
    }
}

/// What [`run`] works out.
pub struct Walkthrough {
    /// One added to 3 and to 4, by two closures.
    pub added: (u32, u32),
    /// Two answers of a one-entry cache about 3.
    pub single: (u32, u32),
    /// Three answers of a keyed cache, about 3, about 3 again and about 2.
    pub keyed: (u32, u32, u32),
    /// Three answers of a cache keyed by text around the identity, about
    /// "Apple", about "Apple" again and about "Banana".
    pub echoed: (String, String, String),
    /// Three answers of a cache keyed by text around the length in bytes,
    /// about the same three texts.
    pub lengths: (usize, usize, usize),
    /// Whether a closure that has captured the text "Apple" finds its
    /// argument "Apple" equal to it.
    pub is_apple: bool,
}

/// Works the module's example: closures with and without annotations, the
/// caches around the identity function and around the length of a text, and
/// a closure that captures a value from its surroundings.
///
/// Each keyed cache is asked three times and invokes its computation twice.
pub fn run() -> (seen: Walkthrough)
    ensures
        seen.added == (4u32, 5u32),
        seen.single == (3u32, 3u32),
        seen.keyed == (3u32, 3u32, 2u32),
        seen.echoed.0@ == "Apple"@,
        seen.echoed.1@ == "Apple"@,
        seen.echoed.2@ == "Banana"@,
        seen.lengths == (5usize, 5usize, 6usize),
        seen.is_apple,
{
    broadcast use vstd::std_specs::hash::group_hash_axioms;

    let add_one_v3 = |x: u32| -> (y: u32)
        requires
            x < u32::MAX,
        ensures
            y == x + 1,
        { x + 1 };
    let add_one_v4 = |x: u32| -> (y: u32)
        requires
            x < u32::MAX,
        ensures
            y == x + 1,
        { x + 1 };
    let added = (add_one_v3(3), add_one_v4(4));

    let mut c = Cacher::new(|x: u32| -> (y: u32)
        ensures
            y == x,
        { x });
    let three = c.get_value(3);
    let three2 = c.get_value(3);
    assert(c.invocations().len() == 1);

    let mut int_c = Cacher2::new(|x: u32| -> (y: u32)
        ensures
            y == x,
        { x });
    let k3 = int_c.get_value(&3);
    let k3_again = int_c.get_value(&3);
    let k2 = int_c.get_value(&2);
    assert(int_c.invocations().len() == 2);

    proof {
        reveal_strlit("Apple");
        reveal_strlit("Banana");
        vstd::utf8::is_ascii_chars_encode_utf8("Apple"@);
        vstd::utf8::is_ascii_chars_encode_utf8("Banana"@);
    }
    let mut string_c = TextCacher::new(|x: String| -> (y: String)
        ensures
            y == x,
        { x });
    let apple = "Apple".to_owned();
    let banana = "Banana".to_owned();
    let a_first_call = string_c.get_value(&apple);
    let a_second_call = string_c.get_value(&apple);
    let b_first_call = string_c.get_value(&banana);
    assert(string_c.invocations().len() == 2);

    let mut len_c = TextCacher::new(|x: String| -> (n: usize)
        ensures
            n == encode_utf8(x@).len(),
        { x.as_str().as_bytes().len() });
    let apple = "Apple".to_owned();
    let banana = "Banana".to_owned();
    let a_length = len_c.get_value(&apple);
    let a_length_again = len_c.get_value(&apple);
    let b_length = len_c.get_value(&banana);
    assert(len_c.invocations().len() == 2);

    let apple = "Apple".to_owned();
    let is_apple = |input_str: &str| -> (same: bool)
        ensures
            same == (input_str@ == apple@),
        { input_str.to_owned() == apple };
    let same = is_apple("Apple");

    Walkthrough {
        added,
        single: (three, three2),
        keyed: (k3, k3_again, k2),
        echoed: (a_first_call, a_second_call, b_first_call),
        lengths: (a_length, a_length_again, b_length),
        is_apple: same,
    }
}

} // verus!
