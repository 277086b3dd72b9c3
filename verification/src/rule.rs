//! The rule builder: the ordered checks of one field, and the field rule that
//! they compile to.
use crate::check::at_least_text;
use crate::check::at_most_text;
use crate::check::between_text;
use crate::check::bound_text;
use crate::check::Check;
use crate::check::CheckList;
use crate::check::Checks;
use crate::check::chosen;
use crate::check::custom_text;
use crate::check::Email;
use crate::check::failure;
use crate::check::failures;
use crate::check::GreaterThan;
use crate::check::GreaterThanOrEqual;
use crate::check::InclusiveBetween;
use crate::check::is_email;
use crate::check::kept;
use crate::check::lemma_failures_push;
use crate::check::LessThan;
use crate::check::LessThanOrEqual;
use crate::check::MaxLength;
use crate::check::MinLength;
use crate::check::NoChecks;
use crate::check::NotEmpty;
use crate::check::NotNull;
use crate::check::or_default;
use crate::check::verdict_of;
use crate::custom::Custom;
use crate::custom::holds;
use crate::custom::is_check_fn;
use crate::custom::is_predicate;
use crate::custom::Must;
use crate::custom::predicate_answers;
use crate::custom::rule_answers;
use crate::custom::rule_verdict;
use crate::error::errors_view;
use crate::error::ErrorView;
use crate::error::ValidationError;
use crate::text::byte_len;
use crate::text::is_blank;
use crate::text::StringLike;
use crate::traits::Numeric;
use crate::traits::OptionLike;
use core::marker::PhantomData;
use vstd::prelude::*;

verus! {

/// The checks of one field, in the order in which they were attached, under
/// the field's name.
pub struct RuleBuilder<V, L = NoChecks> {
    property_name: String,
    checks: L,
    value: PhantomData<V>,
}

/// A compiled field rule: it runs every check on a value, in attachment order
/// and without stopping at a failure, and tags each error with the field's
/// name.
pub struct FieldRule<V, L> {
    property_name: String,
    checks: L,
    value: PhantomData<V>,
}

impl<V, L: CheckList<V>> FieldRule<V, L> {
    /// The name that the rule's errors carry.
    pub closed spec fn property(&self) -> Seq<char> {
        self.property_name@
    }

    /// The checks that the rule runs.
    pub closed spec fn checks(&self) -> L {
        self.checks
    }

    /// The errors that the rule reports of `value`.
    pub open spec fn errors_for(&self, value: &V) -> Seq<ErrorView> {
        failures(self.property(), self.checks().verdicts(value))
    }

    /// Whether the closures that the rule's checks call have an answer on
    /// `value`.
    pub open spec fn answers(&self, value: &V) -> bool {
        self.checks().answers(value)
    }

    /// Runs the rule on `value`.
    pub fn apply(&self, value: &V) -> (errors: Vec<ValidationError>)
        ensures
            errors_view(errors@) == self.errors_for(value),
            self.answers(value),
    {
        let mut errors: Vec<ValidationError> = Vec::new();
        self.checks.run(value, self.property_name.as_str(), &mut errors);
        assert(Seq::<ErrorView>::empty() + self.errors_for(value) =~= self.errors_for(value));
        assert(errors_view(Seq::<ValidationError>::empty()) =~= Seq::<ErrorView>::empty());
        errors
    }
}

impl<V> RuleBuilder<V, NoChecks> {
    /// A builder without checks for the field `property_name`.
    pub fn for_property<N: StringLike>(property_name: N) -> (builder: Self)
        ensures
            builder.property() == property_name.text(),
            builder.checks() == NoChecks,
            forall|value: &V| #[trigger] builder.errors_for(value) == Seq::<ErrorView>::empty(),
            forall|value: &V| #[trigger] builder.answers(value),
    {
        RuleBuilder {
            property_name: String::from_str(property_name.as_text()),
            checks: NoChecks,
            value: PhantomData,
        }
    }
}

impl<V, L: CheckList<V>> RuleBuilder<V, L> {
    /// The name that the errors of this field carry.
    pub closed spec fn property(&self) -> Seq<char> {
        self.property_name@
    }

    /// The checks attached so far.
    pub closed spec fn checks(&self) -> L {
        self.checks
    }

    /// What each check attached so far reports of `value`, in attachment
    /// order.
    pub open spec fn verdicts(&self, value: &V) -> Seq<Option<Seq<char>>> {
        self.checks().verdicts(value)
    }

    /// The errors that the compiled rule reports of `value`.
    pub open spec fn errors_for(&self, value: &V) -> Seq<ErrorView> {
        failures(self.property(), self.verdicts(value))
    }

    /// Whether the closures that the checks call have an answer on `value`.
    pub open spec fn answers(&self, value: &V) -> bool {
        self.checks().answers(value)
    }

    /// Attaches `check` after the checks attached so far.
    pub fn with_check<C: Check<V>>(self, check: C) -> (builder: RuleBuilder<V, Checks<L, C>>)
        ensures
            builder.property() == self.property(),
            builder.checks() == (Checks { earlier: self.checks(), last: check }),
            forall|value: &V| #[trigger]
                builder.errors_for(value) == self.errors_for(value) + failure(
                    self.property(),
                    check.verdict(value),
                ),
            forall|value: &V| #[trigger]
                builder.answers(value) == (self.answers(value) && check.answers(value)),
    {
        let builder = RuleBuilder {
            property_name: self.property_name,
            checks: Checks { earlier: self.checks, last: check },
            value: PhantomData,
        };
        assert forall|value: &V| #[trigger]
            builder.errors_for(value) == self.errors_for(value) + failure(
                self.property(),
                check.verdict(value),
            ) by {
            lemma_failures_push(self.property(), self.verdicts(value), check.verdict(value));
        }
        builder
    }

    /// Attaches a check given as a closure from the value to an optional
    /// message.
    pub fn rule<F: Fn(&V) -> Option<String>>(self, rule: F) -> (builder: RuleBuilder<
        V,
        Checks<L, Custom<V, F>>,
    >)
        requires
            is_check_fn(rule),
        ensures
            builder.property() == self.property(),
            builder.checks().earlier == self.checks(),
            builder.checks().last.rule() == rule,
            forall|value: &V| #[trigger]
                builder.errors_for(value) == self.errors_for(value) + failure(
                    self.property(),
                    rule_verdict(rule, value),
                ),
            forall|value: &V| #[trigger]
                builder.answers(value) == (self.answers(value) && rule_answers(rule, value)),
    {
        self.with_check(Custom::new(rule))
    }

    /// Attaches a check that fails on text that is empty once trimmed.
    pub fn not_empty<M: StringLike>(self, message: Option<M>) -> (builder: RuleBuilder<
        V,
        Checks<L, NotEmpty>,
    >) where V: StringLike
        ensures
            builder.property() == self.property(),
            builder.checks().earlier == self.checks(),
            forall|value: &V| #[trigger]
                builder.errors_for(value) == self.errors_for(value) + failure(
                    self.property(),
                    verdict_of(
                        is_blank(value.text()),
                        or_default(custom_text(message), "must not be empty"@),
                    ),
                ),
            forall|value: &V| #[trigger] builder.answers(value) == self.answers(value),
    {
        self.with_check(NotEmpty { message: chosen(message, "must not be empty") })
    }

    /// Attaches a check that fails on a value that is absent.
    pub fn not_null<M: StringLike>(self, message: Option<M>) -> (builder: RuleBuilder<
        V,
        Checks<L, NotNull>,
    >) where V: OptionLike
        ensures
            builder.property() == self.property(),
            builder.checks().earlier == self.checks(),
            forall|value: &V| #[trigger]
                builder.errors_for(value) == self.errors_for(value) + failure(
                    self.property(),
                    verdict_of(
                        value.absent(),
                        or_default(custom_text(message), "must not be null"@),
                    ),
                ),
            forall|value: &V| #[trigger] builder.answers(value) == self.answers(value),
    {
        self.with_check(NotNull { message: chosen(message, "must not be null") })
    }

    /// Attaches a check that fails on text of fewer than `min` bytes. The
    /// whole text counts: nothing is trimmed.
    pub fn min_length<M: StringLike>(self, min: usize, message: Option<M>) -> (builder:
        RuleBuilder<V, Checks<L, MinLength>>) where V: StringLike
        ensures
            builder.property() == self.property(),
            builder.checks().earlier == self.checks(),
            forall|value: &V| #[trigger]
                builder.errors_for(value) == self.errors_for(value) + failure(
                    self.property(),
                    verdict_of(
                        byte_len(value.text()) < min,
                        or_default(custom_text(message), at_least_text(min as nat)),
                    ),
                ),
            forall|value: &V| #[trigger] builder.answers(value) == self.answers(value),
    {
        self.with_check(MinLength { min, message: kept(message) })
    }

    /// Attaches a check that fails on text of more than `max` bytes. The
    /// whole text counts: nothing is trimmed.
    pub fn max_length<M: StringLike>(self, max: usize, message: Option<M>) -> (builder:
        RuleBuilder<V, Checks<L, MaxLength>>) where V: StringLike
        ensures
            builder.property() == self.property(),
            builder.checks().earlier == self.checks(),
            forall|value: &V| #[trigger]
                builder.errors_for(value) == self.errors_for(value) + failure(
                    self.property(),
                    verdict_of(
                        byte_len(value.text()) > max,
                        or_default(custom_text(message), at_most_text(max as nat)),
                    ),
                ),
            forall|value: &V| #[trigger] builder.answers(value) == self.answers(value),
    {
        self.with_check(MaxLength { max, message: kept(message) })
    }

    /// Attaches the check of `min_length`, then that of `max_length`, each
    /// with its own message.
    pub fn length<M: StringLike, N: StringLike>(
        self,
        min: usize,
        max: usize,
        min_message: Option<M>,
        max_message: Option<N>,
    ) -> (builder: RuleBuilder<V, Checks<Checks<L, MinLength>, MaxLength>>) where V: StringLike
        ensures
            builder.property() == self.property(),
            builder.checks().earlier.earlier == self.checks(),
            forall|value: &V| #[trigger]
                builder.errors_for(value) == self.errors_for(value) + failure(
                    self.property(),
                    verdict_of(
                        byte_len(value.text()) < min,
                        or_default(custom_text(min_message), at_least_text(min as nat)),
                    ),
                ) + failure(
                    self.property(),
                    verdict_of(
                        byte_len(value.text()) > max,
                        or_default(custom_text(max_message), at_most_text(max as nat)),
                    ),
                ),
            forall|value: &V| #[trigger] builder.answers(value) == self.answers(value),
    {
        self.min_length(min, min_message).max_length(max, max_message)
    }

    /// Attaches a check that fails on text that does not have the shape of an
    /// email address.
    pub fn email<M: StringLike>(self, message: Option<M>) -> (builder: RuleBuilder<
        V,
        Checks<L, Email>,
    >) where V: StringLike
        ensures
            builder.property() == self.property(),
            builder.checks().earlier == self.checks(),
            forall|value: &V| #[trigger]
                builder.errors_for(value) == self.errors_for(value) + failure(
                    self.property(),
                    verdict_of(
                        !is_email(value.text()),
                        or_default(custom_text(message), "must be a valid email address"@),
                    ),
                ),
            forall|value: &V| #[trigger] builder.answers(value) == self.answers(value),
    {
        self.with_check(Email { message: chosen(message, "must be a valid email address") })
    }

    /// Attaches a check that fails on a number that is not greater than
    /// `min`.
    pub fn greater_than<M: StringLike>(self, min: i64, message: Option<M>) -> (builder:
        RuleBuilder<V, Checks<L, GreaterThan>>) where V: Numeric
        ensures
            builder.property() == self.property(),
            builder.checks().earlier == self.checks(),
            forall|value: &V| #[trigger]
                builder.errors_for(value) == self.errors_for(value) + failure(
                    self.property(),
                    verdict_of(
                        value.number() <= min,
                        or_default(
                            custom_text(message),
                            bound_text("must be greater than "@, min as int),
                        ),
                    ),
                ),
            forall|value: &V| #[trigger] builder.answers(value) == self.answers(value),
    {
        self.with_check(GreaterThan { min, message: kept(message) })
    }

    /// Attaches a check that fails on a number that is less than `min`.
    pub fn greater_than_or_equal<M: StringLike>(self, min: i64, message: Option<M>) -> (builder:
        RuleBuilder<V, Checks<L, GreaterThanOrEqual>>) where V: Numeric
        ensures
            builder.property() == self.property(),
            builder.checks().earlier == self.checks(),
            forall|value: &V| #[trigger]
                builder.errors_for(value) == self.errors_for(value) + failure(
                    self.property(),
                    verdict_of(
                        value.number() < min,
                        or_default(
                            custom_text(message),
                            bound_text("must be greater than or equal to "@, min as int),
                        ),
                    ),
                ),
            forall|value: &V| #[trigger] builder.answers(value) == self.answers(value),
    {
        self.with_check(GreaterThanOrEqual { min, message: kept(message) })
    }

    /// Attaches a check that fails on a number that is not less than `max`.
    pub fn less_than<M: StringLike>(self, max: i64, message: Option<M>) -> (builder: RuleBuilder<
        V,
        Checks<L, LessThan>,
    >) where V: Numeric
        ensures
            builder.property() == self.property(),
            builder.checks().earlier == self.checks(),
            forall|value: &V| #[trigger]
                builder.errors_for(value) == self.errors_for(value) + failure(
                    self.property(),
                    verdict_of(
                        value.number() >= max,
                        or_default(
                            custom_text(message),
                            bound_text("must be less than "@, max as int),
                        ),
                    ),
                ),
            forall|value: &V| #[trigger] builder.answers(value) == self.answers(value),
    {
        self.with_check(LessThan { max, message: kept(message) })
    }

    /// Attaches a check that fails on a number that is greater than `max`.
    pub fn less_than_or_equal<M: StringLike>(self, max: i64, message: Option<M>) -> (builder:
        RuleBuilder<V, Checks<L, LessThanOrEqual>>) where V: Numeric
        ensures
            builder.property() == self.property(),
            builder.checks().earlier == self.checks(),
            forall|value: &V| #[trigger]
                builder.errors_for(value) == self.errors_for(value) + failure(
                    self.property(),
                    verdict_of(
                        value.number() > max,
                        or_default(
                            custom_text(message),
                            bound_text("must be less than or equal to "@, max as int),
                        ),
                    ),
                ),
            forall|value: &V| #[trigger] builder.answers(value) == self.answers(value),
    {
        self.with_check(LessThanOrEqual { max, message: kept(message) })
    }

    /// Attaches a check that fails on a number that is less than `min` or
    /// greater than `max`.
    pub fn inclusive_between<M: StringLike>(
        self,
        min: i64,
        max: i64,
        message: Option<M>,
    ) -> (builder: RuleBuilder<V, Checks<L, InclusiveBetween>>) where V: Numeric
        ensures
            builder.property() == self.property(),
            builder.checks().earlier == self.checks(),
            forall|value: &V| #[trigger]
                builder.errors_for(value) == self.errors_for(value) + failure(
                    self.property(),
                    verdict_of(
                        value.number() < min || value.number() > max,
                        or_default(custom_text(message), between_text(min as int, max as int)),
                    ),
                ),
            forall|value: &V| #[trigger] builder.answers(value) == self.answers(value),
    {
        self.with_check(InclusiveBetween { min, max, message: kept(message) })
    }

    /// Attaches a check that fails with `message` on a value of which
    /// `predicate` does not hold.
    pub fn must<P: Fn(&V) -> bool, M: StringLike>(self, predicate: P, message: M) -> (builder:
        RuleBuilder<V, Checks<L, Must<V, P>>>)
        requires
            is_predicate(predicate),
        ensures
            builder.property() == self.property(),
            builder.checks().earlier == self.checks(),
            builder.checks().last.predicate() == predicate,
            forall|value: &V| #[trigger]
                builder.errors_for(value) == self.errors_for(value) + failure(
                    self.property(),
                    verdict_of(!holds(predicate, value), message.text()),
                ),
            forall|value: &V| #[trigger]
                builder.answers(value) == (self.answers(value) && predicate_answers(
                    predicate,
                    value,
                )),
    {
        self.with_check(Must::new(predicate, String::from_str(message.as_text())))
    }

    /// Compiles the checks into a field rule.
    pub fn compile(self) -> (rule: FieldRule<V, L>)
        ensures
            rule.property() == self.property(),
            rule.checks() == self.checks(),
            forall|value: &V| #[trigger] rule.errors_for(value) == self.errors_for(value),
            forall|value: &V| #[trigger] rule.answers(value) == self.answers(value),
    {
        FieldRule { property_name: self.property_name, checks: self.checks, value: PhantomData }
    }

    /// Compiles the checks into a function from a value to its errors. The
    /// function accepts every value; it runs every check, in attachment order
    /// and without stopping at a failure, and what it returns depends on the
    /// value alone.
    pub fn build(self) -> (rule: impl Fn(&V) -> Vec<ValidationError>)
        ensures
            forall|value: &V| call_requires(rule, (value,)),
            forall|value: &V, errors: Vec<ValidationError>|
                call_ensures(rule, (value,), errors) ==> errors_view(errors@) == self.errors_for(
                    value,
                ) && self.answers(value),
            forall|value: &V, first: Vec<ValidationError>, second: Vec<ValidationError>|
                call_ensures(rule, (value,), first) && call_ensures(rule, (value,), second)
                    ==> errors_view(first@) == errors_view(second@),
    {
        let compiled = self.compile();
        move |value: &V| -> (errors: Vec<ValidationError>)
            ensures
                errors_view(errors@) == compiled.errors_for(value),
                compiled.answers(value),
            { compiled.apply(value) }
    }
}

} // verus!
