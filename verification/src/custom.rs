//! Checks that callers write themselves, as closures.
use crate::check::Check;
use crate::check::message_view;
use crate::check::report;
use crate::check::verdict_of;
use core::marker::PhantomData;
use vstd::prelude::*;

verus! {

/// Whether the closure is a check: it accepts every value, and the message it
/// returns depends on the value alone.
pub open spec fn is_check_fn<V, F: Fn(&V) -> Option<String>>(rule: F) -> bool {
    &&& forall|value: &V| call_requires(rule, (value,))
    &&& forall|value: &V, first: Option<String>, second: Option<String>|
        call_ensures(rule, (value,), first) && call_ensures(rule, (value,), second)
            ==> message_view(first) == message_view(second)
}

/// What the closure reports of `value`.
pub open spec fn rule_verdict<V, F: Fn(&V) -> Option<String>>(rule: F, value: &V) -> Option<
    Seq<char>,
> {
    message_view(choose|message: Option<String>| call_ensures(rule, (value,), message))
}

/// Whether the closure has an answer on `value`. Verus learns this of a
/// closure only from a call: a run of the check shows it.
pub open spec fn rule_answers<V, F: Fn(&V) -> Option<String>>(rule: F, value: &V) -> bool {
    exists|message: Option<String>| call_ensures(rule, (value,), message)
}

/// Whether the closure is a predicate: it accepts every value, and its answer
/// depends on the value alone.
pub open spec fn is_predicate<V, P: Fn(&V) -> bool>(predicate: P) -> bool {
    &&& forall|value: &V| call_requires(predicate, (value,))
    &&& forall|value: &V, first: bool, second: bool|
        call_ensures(predicate, (value,), first) && call_ensures(predicate, (value,), second)
            ==> first == second
}

/// Whether the predicate holds of `value`.
pub open spec fn holds<V, P: Fn(&V) -> bool>(predicate: P, value: &V) -> bool {
    choose|answer: bool| call_ensures(predicate, (value,), answer)
}

/// Whether the predicate has an answer on `value`. Verus learns this of a
/// closure only from a call: a run of the check shows it.
pub open spec fn predicate_answers<V, P: Fn(&V) -> bool>(predicate: P, value: &V) -> bool {
    exists|answer: bool| call_ensures(predicate, (value,), answer)
}

/// A check given as a closure from the value to an optional message.
pub struct Custom<V, F: Fn(&V) -> Option<String>> {
    rule: F,
    value: PhantomData<V>,
}

impl<V, F: Fn(&V) -> Option<String>> Custom<V, F> {
    #[verifier::type_invariant]
    spec fn well_formed(self) -> bool {
        is_check_fn(self.rule)
    }

    /// The closure that the check runs.
    pub closed spec fn rule(&self) -> F {
        self.rule
    }

    /// The check that runs `rule`.
    pub fn new(rule: F) -> (check: Self)
        requires
            is_check_fn(rule),
        ensures
            check.rule() == rule,
    {
        Custom { rule, value: PhantomData }
    }
}

impl<V, F: Fn(&V) -> Option<String>> Check<V> for Custom<V, F> {
    open spec fn verdict(&self, value: &V) -> Option<Seq<char>> {
        rule_verdict(self.rule(), value)
    }

    open spec fn answers(&self, value: &V) -> bool {
        rule_answers(self.rule(), value)
    }

    fn check(&self, value: &V) -> (message: Option<String>) {
        proof {
            use_type_invariant(self);
        }
        (self.rule)(value)
    }
}

/// Fails, with a fixed message, on a value of which a predicate does not hold.
pub struct Must<V, P: Fn(&V) -> bool> {
    predicate: P,
    message: String,
    value: PhantomData<V>,
}

impl<V, P: Fn(&V) -> bool> Must<V, P> {
    #[verifier::type_invariant]
    spec fn well_formed(self) -> bool {
        is_predicate(self.predicate)
    }

    /// The predicate that the value must meet.
    pub closed spec fn predicate(&self) -> P {
        self.predicate
    }

    /// The message of a value that does not meet the predicate.
    pub closed spec fn message(&self) -> Seq<char> {
        self.message@
    }

    /// The check that asks `predicate` of the value and fails with `message`.
    pub fn new(predicate: P, message: String) -> (check: Self)
        requires
            is_predicate(predicate),
        ensures
            check.predicate() == predicate,
            check.message() == message@,
    {
        Must { predicate, message, value: PhantomData }
    }
}

impl<V, P: Fn(&V) -> bool> Check<V> for Must<V, P> {
    open spec fn verdict(&self, value: &V) -> Option<Seq<char>> {
        verdict_of(!holds(self.predicate(), value), self.message())
    }

    open spec fn answers(&self, value: &V) -> bool {
        predicate_answers(self.predicate(), value)
    }

    fn check(&self, value: &V) -> (message: Option<String>) {
        proof {
            use_type_invariant(self);
        }
        let met = (self.predicate)(value);
        report(!met, self.message.as_str())
    }
}

} // verus!
