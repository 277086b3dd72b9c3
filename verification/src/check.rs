//! Checks: each reads one value and reports at most one message.
use crate::error::errors_view;
use crate::error::ErrorView;
use crate::error::lemma_errors_view_push;
use crate::error::ValidationError;
use crate::pattern::finds_match;
use crate::pattern::fits;
use crate::text::append_decimal;
use crate::text::append_signed_decimal;
use crate::text::blank;
use crate::text::byte_len;
use crate::text::bytes_in;
use crate::text::decimal;
use crate::text::is_blank;
use crate::text::signed_decimal;
use crate::text::StringLike;
use crate::traits::Numeric;
use crate::traits::OptionLike;
use vstd::prelude::*;

verus! {

/// The text of an optional message.
pub open spec fn message_view(message: Option<String>) -> Option<Seq<char>> {
    match message {
        Some(m) => Some(m@),
        None => None,
    }
}

/// The text of a message that a caller may have given.
pub open spec fn custom_text<M: StringLike>(message: Option<M>) -> Option<Seq<char>> {
    match message {
        Some(m) => Some(m.text()),
        None => None,
    }
}

/// The caller's message where there is one, the default otherwise.
pub open spec fn or_default(custom: Option<Seq<char>>, default: Seq<char>) -> Seq<char> {
    match custom {
        Some(m) => m,
        None => default,
    }
}

/// What a check reports: the message where the value failed, nothing where it
/// passed.
pub open spec fn verdict_of(failed: bool, message: Seq<char>) -> Option<Seq<char>> {
    if failed {
        Some(message)
    } else {
        None
    }
}

/// One check over values of type `V`: a function from the value to the message
/// of its failure, if it fails.
pub trait Check<V> {
    /// What the check reports of `value`.
    spec fn verdict(&self, value: &V) -> Option<Seq<char>>;

    /// Whether the closures that the check calls have an answer on `value`.
    /// A run shows it, and with it a caller reads the verdict off the
    /// closures' own contracts. It holds of every value where the check calls
    /// no closure.
    spec fn answers(&self, value: &V) -> bool;

    /// Runs the check on `value`.
    fn check(&self, value: &V) -> (message: Option<String>)
        ensures
            message_view(message) == self.verdict(value),
            self.answers(value),
    ;
}

/// What one check adds to the errors of a field: an error with its message
/// where it failed, nothing where it passed.
pub open spec fn failure(property: Seq<char>, verdict: Option<Seq<char>>) -> Seq<ErrorView> {
    match verdict {
        Some(message) => seq![ErrorView { property, message }],
        None => Seq::empty(),
    }
}

/// The errors of one field: an error for each check that failed, in the order
/// of the checks.
pub open spec fn failures(property: Seq<char>, verdicts: Seq<Option<Seq<char>>>) -> Seq<
    ErrorView,
>
    decreases verdicts.len(),
{
    if verdicts.len() == 0 {
        Seq::empty()
    } else {
        failures(property, verdicts.drop_last()) + failure(property, verdicts.last())
    }
}

/// One more check adds its failure after the errors of the checks before it.
pub proof fn lemma_failures_push(
    property: Seq<char>,
    verdicts: Seq<Option<Seq<char>>>,
    verdict: Option<Seq<char>>,
)
    ensures
        failures(property, verdicts.push(verdict)) == failures(property, verdicts) + failure(
            property,
            verdict,
        ),
{
    assert(verdicts.push(verdict).drop_last() =~= verdicts);
}

/// The checks of one field, in the order in which they were attached.
pub trait CheckList<V> {
    /// What each check reports of `value`, in the order of the checks.
    spec fn verdicts(&self, value: &V) -> Seq<Option<Seq<char>>>;

    /// Whether the closures that the checks call have an answer on `value`.
    spec fn answers(&self, value: &V) -> bool;

    /// Runs every check on `value` and adds an error of `property` for each
    /// that fails, in the order of the checks.
    fn run(&self, value: &V, property: &str, errors: &mut Vec<ValidationError>)
        ensures
            errors_view(final(errors)@) == errors_view(old(errors)@) + failures(
                property@,
                self.verdicts(value),
            ),
            self.answers(value),
    ;
}

/// No check.
pub struct NoChecks;

impl<V> CheckList<V> for NoChecks {
    open spec fn verdicts(&self, value: &V) -> Seq<Option<Seq<char>>> {
        Seq::empty()
    }

    open spec fn answers(&self, value: &V) -> bool {
        true
    }

    fn run(&self, value: &V, property: &str, errors: &mut Vec<ValidationError>) {
        assert(errors_view(errors@) + Seq::<ErrorView>::empty() =~= errors_view(errors@));
    }
}

/// The checks of `earlier`, then `last`.
pub struct Checks<L, C> {
    pub earlier: L,
    pub last: C,
}

impl<V, L: CheckList<V>, C: Check<V>> CheckList<V> for Checks<L, C> {
    open spec fn verdicts(&self, value: &V) -> Seq<Option<Seq<char>>> {
        self.earlier.verdicts(value).push(self.last.verdict(value))
    }

    open spec fn answers(&self, value: &V) -> bool {
        self.earlier.answers(value) && self.last.answers(value)
    }

    fn run(&self, value: &V, property: &str, errors: &mut Vec<ValidationError>) {
        self.earlier.run(value, property, errors);
        let ghost before = errors@;
        proof {
            lemma_failures_push(
                property@,
                self.earlier.verdicts(value),
                self.last.verdict(value),
            );
        }
        match self.last.check(value) {
            Some(message) => {
                let error = ValidationError { property: String::from_str(property), message };
                proof {
                    lemma_errors_view_push(before, error);
                }
                errors.push(error);
            },
            None => {},
        }
        assert(errors_view(errors@) =~= errors_view(old(errors)@) + failures(
            property@,
            self.verdicts(value),
        ));
    }
}

/// The report of a check that has decided: `message` where the value failed.
pub fn report(failed: bool, message: &str) -> (reported: Option<String>)
    ensures
        message_view(reported) == verdict_of(failed, message@),
{
    if failed {
        Some(String::from_str(message))
    } else {
        None
    }
}

/// The caller's message where there is one, the default otherwise.
pub fn chosen<M: StringLike>(message: Option<M>, default: &str) -> (text: String)
    ensures
        text@ == or_default(custom_text(message), default@),
{
    match message {
        Some(m) => String::from_str(m.as_text()),
        None => String::from_str(default),
    }
}

/// The caller's message, kept for the time of a failure.
pub fn kept<M: StringLike>(message: Option<M>) -> (text: Option<String>)
    ensures
        message_view(text) == custom_text(message),
{
    match message {
        Some(m) => Some(String::from_str(m.as_text())),
        None => None,
    }
}

/// Fails on text that is empty once trimmed.
pub struct NotEmpty {
    pub message: String,
}

impl<V: StringLike> Check<V> for NotEmpty {
    open spec fn verdict(&self, value: &V) -> Option<Seq<char>> {
        verdict_of(is_blank(value.text()), self.message@)
    }

    open spec fn answers(&self, value: &V) -> bool {
        true
    }

    fn check(&self, value: &V) -> (message: Option<String>) {
        report(blank(value.as_text()), self.message.as_str())
    }
}

/// The default message of a text shorter than `min` bytes.
pub open spec fn at_least_text(min: nat) -> Seq<char> {
    "must be at least "@ + decimal(min) + " characters long"@
}

/// The default message of a text longer than `max` bytes.
pub open spec fn at_most_text(max: nat) -> Seq<char> {
    "must be at most "@ + decimal(max) + " characters long"@
}

/// Fails on text of fewer than `min` bytes. The length is that of the whole
/// text: nothing is trimmed.
pub struct MinLength {
    pub min: usize,
    pub message: Option<String>,
}

impl<V: StringLike> Check<V> for MinLength {
    open spec fn verdict(&self, value: &V) -> Option<Seq<char>> {
        verdict_of(
            byte_len(value.text()) < self.min,
            or_default(message_view(self.message), at_least_text(self.min as nat)),
        )
    }

    open spec fn answers(&self, value: &V) -> bool {
        true
    }

    fn check(&self, value: &V) -> (message: Option<String>) {
        if bytes_in(value.as_text()) < self.min {
            match &self.message {
                Some(m) => Some(m.clone()),
                None => {
                    let mut text = String::from_str("must be at least ");
                    append_decimal(&mut text, self.min as u64);
                    text.append(" characters long");
                    Some(text)
                },
            }
        } else {
            None
        }
    }
}

/// Fails on text of more than `max` bytes. The length is that of the whole
/// text: nothing is trimmed.
pub struct MaxLength {
    pub max: usize,
    pub message: Option<String>,
}

impl<V: StringLike> Check<V> for MaxLength {
    open spec fn verdict(&self, value: &V) -> Option<Seq<char>> {
        verdict_of(
            byte_len(value.text()) > self.max,
            or_default(message_view(self.message), at_most_text(self.max as nat)),
        )
    }

    open spec fn answers(&self, value: &V) -> bool {
        true
    }

    fn check(&self, value: &V) -> (message: Option<String>) {
        if bytes_in(value.as_text()) > self.max {
            match &self.message {
                Some(m) => Some(m.clone()),
                None => {
                    let mut text = String::from_str("must be at most ");
                    append_decimal(&mut text, self.max as u64);
                    text.append(" characters long");
                    Some(text)
                },
            }
        } else {
            None
        }
    }
}

/// The pattern of an email address: a local part of ASCII letters, digits and
/// `._%+-`, an `@`, a domain with at least one dot, and a last label of two or
/// more ASCII letters.
pub const EMAIL_PATTERN: &'static str = "^[a-zA-Z0-9._%+-]+@[a-zA-Z0-9.-]+\\.[a-zA-Z]{2,}$";

/// Whether the text has the shape of an email address: the email pattern finds
/// a match in it.
pub open spec fn is_email(text: Seq<char>) -> bool {
    fits(EMAIL_PATTERN@, text)
}

/// Fails on text that does not have the shape of an email address.
pub struct Email {
    pub message: String,
}

impl<V: StringLike> Check<V> for Email {
    open spec fn verdict(&self, value: &V) -> Option<Seq<char>> {
        verdict_of(!is_email(value.text()), self.message@)
    }

    open spec fn answers(&self, value: &V) -> bool {
        true
    }

    fn check(&self, value: &V) -> (message: Option<String>) {
        report(!finds_match(EMAIL_PATTERN, value.as_text()), self.message.as_str())
    }
}

/// Fails on a value that is absent.
pub struct NotNull {
    pub message: String,
}

impl<V: OptionLike> Check<V> for NotNull {
    open spec fn verdict(&self, value: &V) -> Option<Seq<char>> {
        verdict_of(value.absent(), self.message@)
    }

    open spec fn answers(&self, value: &V) -> bool {
        true
    }

    fn check(&self, value: &V) -> (message: Option<String>) {
        report(value.is_none(), self.message.as_str())
    }
}

/// A default message that ends in a bound: the words, then the bound in
/// decimal digits.
pub open spec fn bound_text(words: Seq<char>, bound: int) -> Seq<char> {
    words + signed_decimal(bound)
}

/// The default message of a value outside the range from `min` to `max`.
pub open spec fn between_text(min: int, max: int) -> Seq<char> {
    "must be between "@ + signed_decimal(min) + " and "@ + signed_decimal(max)
}

/// The message of a failed comparison: the caller's where there is one, else
/// the words followed by the bound.
fn bound_message(custom: &Option<String>, words: &str, bound: i64) -> (message: Option<String>)
    ensures
        message_view(message) == Some(
            or_default(message_view(*custom), bound_text(words@, bound as int)),
        ),
{
    match custom {
        Some(m) => Some(m.clone()),
        None => {
            let mut text = String::from_str(words);
            append_signed_decimal(&mut text, bound);
            Some(text)
        },
    }
}

/// Fails on a number that is not greater than `min`.
pub struct GreaterThan {
    pub min: i64,
    pub message: Option<String>,
}

impl<V: Numeric> Check<V> for GreaterThan {
    open spec fn verdict(&self, value: &V) -> Option<Seq<char>> {
        verdict_of(
            value.number() <= self.min,
            or_default(
                message_view(self.message),
                bound_text("must be greater than "@, self.min as int),
            ),
        )
    }

    open spec fn answers(&self, value: &V) -> bool {
        true
    }

    fn check(&self, value: &V) -> (message: Option<String>) {
        if value.to_i128() <= self.min as i128 {
            bound_message(&self.message, "must be greater than ", self.min)
        } else {
            None
        }
    }
}

/// Fails on a number that is less than `min`.
pub struct GreaterThanOrEqual {
    pub min: i64,
    pub message: Option<String>,
}

impl<V: Numeric> Check<V> for GreaterThanOrEqual {
    open spec fn verdict(&self, value: &V) -> Option<Seq<char>> {
        verdict_of(
            value.number() < self.min,
            or_default(
                message_view(self.message),
                bound_text("must be greater than or equal to "@, self.min as int),
            ),
        )
    }

    open spec fn answers(&self, value: &V) -> bool {
        true
    }

    fn check(&self, value: &V) -> (message: Option<String>) {
        if value.to_i128() < self.min as i128 {
            bound_message(&self.message, "must be greater than or equal to ", self.min)
        } else {
            None
        }
    }
}

/// Fails on a number that is not less than `max`.
pub struct LessThan {
    pub max: i64,
    pub message: Option<String>,
}

impl<V: Numeric> Check<V> for LessThan {
    open spec fn verdict(&self, value: &V) -> Option<Seq<char>> {
        verdict_of(
            value.number() >= self.max,
            or_default(
                message_view(self.message),
                bound_text("must be less than "@, self.max as int),
            ),
        )
    }

    open spec fn answers(&self, value: &V) -> bool {
        true
    }

    fn check(&self, value: &V) -> (message: Option<String>) {
        if value.to_i128() >= self.max as i128 {
            bound_message(&self.message, "must be less than ", self.max)
        } else {
            None
        }
    }
}

/// Fails on a number that is greater than `max`.
pub struct LessThanOrEqual {
    pub max: i64,
    pub message: Option<String>,
}

impl<V: Numeric> Check<V> for LessThanOrEqual {
    open spec fn verdict(&self, value: &V) -> Option<Seq<char>> {
        verdict_of(
            value.number() > self.max,
            or_default(
                message_view(self.message),
                bound_text("must be less than or equal to "@, self.max as int),
            ),
        )
    }

    open spec fn answers(&self, value: &V) -> bool {
        true
    }

    fn check(&self, value: &V) -> (message: Option<String>) {
        if value.to_i128() > self.max as i128 {
            bound_message(&self.message, "must be less than or equal to ", self.max)
        } else {
            None
        }
    }
}

/// Fails on a number that is less than `min` or greater than `max`.
pub struct InclusiveBetween {
    pub min: i64,
    pub max: i64,
    pub message: Option<String>,
}

impl<V: Numeric> Check<V> for InclusiveBetween {
    open spec fn verdict(&self, value: &V) -> Option<Seq<char>> {
        verdict_of(
            value.number() < self.min || value.number() > self.max,
            or_default(
                message_view(self.message),
                between_text(self.min as int, self.max as int),
            ),
        )
    }

    open spec fn answers(&self, value: &V) -> bool {
        true
    }

    fn check(&self, value: &V) -> (message: Option<String>) {
        let number = value.to_i128();
        if number < self.min as i128 || number > self.max as i128 {
            match &self.message {
                Some(m) => Some(m.clone()),
                None => {
                    let mut text = String::from_str("must be between ");
                    append_signed_decimal(&mut text, self.min);
                    text.append(" and ");
                    append_signed_decimal(&mut text, self.max);
                    Some(text)
                },
            }
        } else {
            None
        }
    }
}

} // verus!
