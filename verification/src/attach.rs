//! What a validator builder holds: field rules behind an accessor, and
//! cross-field checks that read the whole record beside one field.
use crate::check::CheckList;
use crate::error::errors_view;
use crate::error::ErrorView;
use crate::error::ValidationError;
use crate::error::ValidationResult;
use crate::rule::FieldRule;
use core::marker::PhantomData;
use vstd::prelude::*;

verus! {

/// Whether the closure is an accessor: it accepts every record, and the field
/// it hands out depends on the record alone.
pub open spec fn is_accessor<T, V, A: Fn(&T) -> &V>(accessor: A) -> bool {
    &&& forall|instance: &T| call_requires(accessor, (instance,))
    &&& forall|instance: &T, first: &V, second: &V|
        call_ensures(accessor, (instance,), first) && call_ensures(accessor, (instance,), second)
            ==> first == second
}

/// The field that the accessor hands out of `instance`.
pub open spec fn accessed<T, V, A: Fn(&T) -> &V>(accessor: A, instance: &T) -> &V {
    choose|value: &V| call_ensures(accessor, (instance,), value)
}

/// Whether the accessor has an answer on `instance`. Verus learns this of a
/// closure only from a call: a run of the rule shows it.
pub open spec fn accessor_answers<T, V, A: Fn(&T) -> &V>(accessor: A, instance: &T) -> bool {
    exists|value: &V| call_ensures(accessor, (instance,), value)
}

/// Whether the closure is a cross-field predicate: it accepts every record
/// with every field value, and its answer depends on the two alone.
pub open spec fn is_cross_predicate<T, V, P: Fn(&T, &V) -> bool>(predicate: P) -> bool {
    &&& forall|instance: &T, value: &V| call_requires(predicate, (instance, value))
    &&& forall|instance: &T, value: &V, first: bool, second: bool|
        call_ensures(predicate, (instance, value), first) && call_ensures(
            predicate,
            (instance, value),
            second,
        ) ==> first == second
}

/// Whether the cross-field predicate holds of `instance` and `value`.
pub open spec fn cross_holds<T, V, P: Fn(&T, &V) -> bool>(
    predicate: P,
    instance: &T,
    value: &V,
) -> bool {
    choose|answer: bool| call_ensures(predicate, (instance, value), answer)
}

/// Whether the cross-field predicate has an answer on `instance` and `value`.
/// Verus learns this of a closure only from a call: a run of the rule shows
/// it.
pub open spec fn cross_answers<T, V, P: Fn(&T, &V) -> bool>(
    predicate: P,
    instance: &T,
    value: &V,
) -> bool {
    exists|answer: bool| call_ensures(predicate, (instance, value), answer)
}

/// What a cross-field check reports: one error of `property` with `message`
/// where the predicate does not hold, nothing where it does.
pub open spec fn cross_errors(met: bool, property: Seq<char>, message: Seq<char>) -> Seq<
    ErrorView,
> {
    if met {
        Seq::empty()
    } else {
        seq![ErrorView { property, message }]
    }
}

/// One rule attached to a validator of records of type `T`.
pub trait AttachedRule<T> {
    /// The errors that the rule reports of `instance`.
    spec fn errors(&self, instance: &T) -> Seq<ErrorView>;

    /// Whether the closures that the rule calls have an answer on
    /// `instance`.
    spec fn answers(&self, instance: &T) -> bool;

    /// Runs the rule on `instance`.
    fn run(&self, instance: &T) -> (errors: Vec<ValidationError>)
        ensures
            errors_view(errors@) == self.errors(instance),
            self.answers(instance),
    ;
}

/// A compiled field rule, applied to the field that an accessor hands out.
#[verifier::reject_recursive_types(V)]
pub struct FieldRules<T, V, A: Fn(&T) -> &V, L: CheckList<V>> {
    accessor: A,
    rule: FieldRule<V, L>,
    instance: PhantomData<T>,
}

impl<T, V, A: Fn(&T) -> &V, L: CheckList<V>> FieldRules<T, V, A, L> {
    #[verifier::type_invariant]
    spec fn well_formed(self) -> bool {
        is_accessor(self.accessor)
    }

    /// The accessor of the field.
    pub closed spec fn accessor(&self) -> A {
        self.accessor
    }

    /// The compiled rule of the field.
    pub closed spec fn rule(&self) -> FieldRule<V, L> {
        self.rule
    }

    /// `rule`, applied to what `accessor` hands out.
    pub fn new(accessor: A, rule: FieldRule<V, L>) -> (attached: Self)
        requires
            is_accessor(accessor),
        ensures
            attached.accessor() == accessor,
            attached.rule() == rule,
    {
        FieldRules { accessor, rule, instance: PhantomData }
    }
}

impl<T, V, A: Fn(&T) -> &V, L: CheckList<V>> AttachedRule<T> for FieldRules<T, V, A, L> {
    open spec fn errors(&self, instance: &T) -> Seq<ErrorView> {
        self.rule().errors_for(accessed(self.accessor(), instance))
    }

    open spec fn answers(&self, instance: &T) -> bool {
        &&& accessor_answers(self.accessor(), instance)
        &&& self.rule().answers(accessed(self.accessor(), instance))
    }

    fn run(&self, instance: &T) -> (errors: Vec<ValidationError>) {
        proof {
            use_type_invariant(self);
        }
        let value = (self.accessor)(instance);
        self.rule.apply(value)
    }
}

/// A cross-field check: a predicate over the whole record and one field of
/// it, with the error that it reports where the predicate does not hold.
#[verifier::reject_recursive_types(V)]
pub struct CrossFieldRule<T, V, A: Fn(&T) -> &V, P: Fn(&T, &V) -> bool> {
    property_name: String,
    accessor: A,
    predicate: P,
    message: String,
    instance: PhantomData<T>,
    value: PhantomData<V>,
}

impl<T, V, A: Fn(&T) -> &V, P: Fn(&T, &V) -> bool> CrossFieldRule<T, V, A, P> {
    #[verifier::type_invariant]
    spec fn well_formed(self) -> bool {
        is_accessor(self.accessor) && is_cross_predicate(self.predicate)
    }

    /// The field that the check's error is about.
    pub closed spec fn property(&self) -> Seq<char> {
        self.property_name@
    }

    /// The accessor of the field.
    pub closed spec fn accessor(&self) -> A {
        self.accessor
    }

    /// The predicate over the record and the field.
    pub closed spec fn predicate(&self) -> P {
        self.predicate
    }

    /// The message of the check's error.
    pub closed spec fn message(&self) -> Seq<char> {
        self.message@
    }

    /// Whether the predicate holds of `instance` and the field that the
    /// accessor hands out of it.
    pub open spec fn met(&self, instance: &T) -> bool {
        cross_holds(self.predicate(), instance, accessed(self.accessor(), instance))
    }

    /// The check of `predicate` over the record and what `accessor` hands out.
    pub fn new(property_name: String, accessor: A, predicate: P, message: String) -> (attached:
        Self)
        requires
            is_accessor(accessor),
            is_cross_predicate(predicate),
        ensures
            attached.property() == property_name@,
            attached.accessor() == accessor,
            attached.predicate() == predicate,
            attached.message() == message@,
    {
        CrossFieldRule {
            property_name,
            accessor,
            predicate,
            message,
            instance: PhantomData,
            value: PhantomData,
        }
    }
}

impl<T, V, A: Fn(&T) -> &V, P: Fn(&T, &V) -> bool> AttachedRule<T> for CrossFieldRule<T, V, A, P> {
    open spec fn errors(&self, instance: &T) -> Seq<ErrorView> {
        cross_errors(self.met(instance), self.property(), self.message())
    }

    open spec fn answers(&self, instance: &T) -> bool {
        &&& accessor_answers(self.accessor(), instance)
        &&& cross_answers(self.predicate(), instance, accessed(self.accessor(), instance))
    }

    fn run(&self, instance: &T) -> (errors: Vec<ValidationError>) {
        proof {
            use_type_invariant(self);
        }
        let value = (self.accessor)(instance);
        let met = (self.predicate)(instance, value);
        let mut errors: Vec<ValidationError> = Vec::new();
        if !met {
            errors.push(
                ValidationError {
                    property: self.property_name.clone(),
                    message: self.message.clone(),
                },
            );
        }
        assert(errors_view(errors@) =~= self.errors(instance));
        errors
    }
}

/// The rules attached to a validator, in the order in which they were
/// attached.
pub trait RuleList<T> {
    /// The errors that the rules report of `instance`, rule after rule.
    spec fn errors(&self, instance: &T) -> Seq<ErrorView>;

    /// Whether the closures that the rules call have an answer on `instance`.
    spec fn answers(&self, instance: &T) -> bool;

    /// Runs every rule on `instance`, in attachment order and without
    /// stopping at a failure, and adds their errors to `result`.
    fn collect(&self, instance: &T, result: &mut ValidationResult)
        ensures
            final(result)@ == old(result)@ + self.errors(instance),
            self.answers(instance),
    ;
}

/// No rule.
pub struct NoRules;

impl<T> RuleList<T> for NoRules {
    open spec fn errors(&self, instance: &T) -> Seq<ErrorView> {
        Seq::empty()
    }

    open spec fn answers(&self, instance: &T) -> bool {
        true
    }

    fn collect(&self, instance: &T, result: &mut ValidationResult) {
        assert(result@ + Seq::<ErrorView>::empty() =~= result@);
    }
}

/// The rules of `earlier`, then `last`.
pub struct Rules<R, X> {
    pub earlier: R,
    pub last: X,
}

impl<T, R: RuleList<T>, X: AttachedRule<T>> RuleList<T> for Rules<R, X> {
    open spec fn errors(&self, instance: &T) -> Seq<ErrorView> {
        self.earlier.errors(instance) + self.last.errors(instance)
    }

    open spec fn answers(&self, instance: &T) -> bool {
        self.earlier.answers(instance) && self.last.answers(instance)
    }

    fn collect(&self, instance: &T, result: &mut ValidationResult) {
        self.earlier.collect(instance, result);
        let errors = self.last.run(instance);
        result.add_errors(errors);
        assert(result@ =~= old(result)@ + self.errors(instance));
    }
}

} // verus!
