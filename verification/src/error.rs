//! Validation failures and the ordered result that collects them.
use crate::text::same_text;
use crate::text::StringLike;
use vstd::prelude::*;

verus! {

/// What one failure says: the field it is about and the message.
pub struct ErrorView {
    pub property: Seq<char>,
    pub message: Seq<char>,
}

/// One validation failure: a field name and a message.
#[derive(Debug)]
pub struct ValidationError {
    pub property: String,
    pub message: String,
}

impl View for ValidationError {
    type V = ErrorView;

    open spec fn view(&self) -> ErrorView {
        ErrorView { property: self.property@, message: self.message@ }
    }
}

/// The failures that a sequence of errors stands for, in the same order.
pub open spec fn errors_view(errors: Seq<ValidationError>) -> Seq<ErrorView> {
    Seq::new(errors.len(), |i: int| errors[i]@)
}

/// Viewing a sequence with one more error adds that error's view at the end.
pub proof fn lemma_errors_view_push(errors: Seq<ValidationError>, error: ValidationError)
    ensures
        errors_view(errors.push(error)) == errors_view(errors).push(error@),
{
    assert(errors_view(errors.push(error)) =~= errors_view(errors).push(error@));
}

/// Viewing two sequences one after the other joins their views.
pub proof fn lemma_errors_view_add(a: Seq<ValidationError>, b: Seq<ValidationError>)
    ensures
        errors_view(a + b) == errors_view(a) + errors_view(b),
{
    assert(errors_view(a + b) =~= errors_view(a) + errors_view(b));
}

impl Clone for ValidationError {
    fn clone(&self) -> (copy: Self)
        ensures
            copy@ == self@,
    {
        ValidationError { property: self.property.clone(), message: self.message.clone() }
    }
}

impl PartialEq for ValidationError {
    fn eq(&self, other: &Self) -> (equal: bool) {
        self.property == other.property && self.message == other.message
    }
}

impl Eq for ValidationError {

}

impl vstd::std_specs::cmp::PartialEqSpecImpl for ValidationError {
    open spec fn obeys_eq_spec() -> bool {
        true
    }

    open spec fn eq_spec(&self, other: &Self) -> bool {
        self.property@ == other.property@ && self.message@ == other.message@
    }
}

impl ValidationError {
    /// A failure of `property` with `message`.
    pub fn new<P: StringLike, M: StringLike>(property: P, message: M) -> (error: Self)
        ensures
            error@ == (ErrorView { property: property.text(), message: message.text() }),
    {
        ValidationError {
            property: String::from_str(property.as_text()),
            message: String::from_str(message.as_text()),
        }
    }

    /// The failure as one line of text: the field, a colon and a space, the message.
    pub fn to_string(&self) -> (line: String)
        ensures
            line@ == self@.property + ": "@ + self@.message,
    {
        let mut line = self.property.clone();
        line.append(": ");
        line.append(self.message.as_str());
        line
    }
}

/// The message of the earliest failure of `property`, if there is one.
pub open spec fn first_message(errors: Seq<ErrorView>, property: Seq<char>) -> Option<Seq<char>>
    decreases errors.len(),
{
    if errors.len() == 0 {
        None
    } else if errors[0].property == property {
        Some(errors[0].message)
    } else {
        first_message(errors.drop_first(), property)
    }
}

/// Past a prefix that holds no failure of `property`, the earliest failure is
/// the earliest one of the rest.
pub proof fn lemma_first_message_skip(errors: Seq<ErrorView>, property: Seq<char>, n: int)
    requires
        0 <= n <= errors.len(),
        forall|k: int| 0 <= k < n ==> errors[k].property != property,
    ensures
        first_message(errors, property) == first_message(errors.skip(n), property),
    decreases n,
{
    if n == 0 {
        assert(errors.skip(0) =~= errors);
    } else {
        let rest = errors.drop_first();
        assert forall|k: int| 0 <= k < n - 1 implies rest[k].property != property by {
            assert(rest[k] == errors[k + 1]);
        }
        lemma_first_message_skip(rest, property, n - 1);
        assert(rest.skip(n - 1) =~= errors.skip(n));
    }
}

/// The outcome of one validation run: the failures in the order in which they
/// were added. The run passed when there is none.
#[derive(Debug)]
pub struct ValidationResult {
    errors: Vec<ValidationError>,
}

impl View for ValidationResult {
    type V = Seq<ErrorView>;

    closed spec fn view(&self) -> Seq<ErrorView> {
        errors_view(self.errors@)
    }
}

impl Clone for ValidationResult {
    fn clone(&self) -> (copy: Self)
        ensures
            copy@ == self@,
    {
        let mut errors: Vec<ValidationError> = Vec::new();
        let mut i: usize = 0;
        while i < self.errors.len()
            invariant
                i <= self.errors@.len(),
                errors@.len() == i,
                forall|k: int| 0 <= k < i ==> errors@[k]@ == self.errors@[k]@,
            decreases self.errors@.len() - i,
        {
            errors.push(self.errors[i].clone());
            i = i + 1;
        }
        assert(errors_view(errors@) =~= errors_view(self.errors@));
        ValidationResult { errors }
    }
}

impl PartialEq for ValidationResult {
    fn eq(&self, other: &Self) -> (equal: bool) {
        if self.errors.len() != other.errors.len() {
            assert(self@.len() != other@.len());
            return false;
        }
        let mut i: usize = 0;
        while i < self.errors.len()
            invariant
                self.errors@.len() == other.errors@.len(),
                i <= self.errors@.len(),
                forall|k: int| 0 <= k < i ==> self@[k] == other@[k],
            decreases self.errors@.len() - i,
        {
            if self.errors[i] != other.errors[i] {
                assert(self@[i as int] != other@[i as int]);
                return false;
            }
            assert(self@[i as int] == other@[i as int]);
            i = i + 1;
        }
        assert(self@ =~= other@);
        true
    }
}

impl Eq for ValidationResult {

}

impl vstd::std_specs::cmp::PartialEqSpecImpl for ValidationResult {
    open spec fn obeys_eq_spec() -> bool {
        true
    }

    open spec fn eq_spec(&self, other: &Self) -> bool {
        self@ == other@
    }
}

impl ValidationResult {
    /// A result without failures.
    pub fn new() -> (result: Self)
        ensures
            result@ == Seq::<ErrorView>::empty(),
    {
        let result = ValidationResult { errors: Vec::new() };
        assert(result@ =~= Seq::<ErrorView>::empty());
        result
    }

    /// Adds one failure at the end.
    pub fn add_error(&mut self, error: ValidationError)
        ensures
            final(self)@ == old(self)@.push(error@),
    {
        proof {
            lemma_errors_view_push(self.errors@, error);
        }
        self.errors.push(error);
    }

    /// Adds failures at the end, in their order.
    pub fn add_errors(&mut self, errors: Vec<ValidationError>)
        ensures
            final(self)@ == old(self)@ + errors_view(errors@),
    {
        let mut errors = errors;
        proof {
            lemma_errors_view_add(self.errors@, errors@);
        }
        self.errors.append(&mut errors);
    }

    /// Whether the run passed: there is no failure.
    pub fn is_valid(&self) -> (valid: bool)
        ensures
            valid == (self@.len() == 0),
    {
        self.errors.is_empty()
    }

    /// The failures, in the order in which they were added.
    pub fn errors(&self) -> (errors: &[ValidationError])
        ensures
            errors_view(errors@) == self@,
    {
        self.errors.as_slice()
    }

    /// The message of the earliest failure of `property`, if there is one.
    pub fn first_error_for(&self, property: &str) -> (message: Option<&str>)
        ensures
            match message {
                Some(m) => first_message(self@, property@) == Some(m@),
                None => first_message(self@, property@) is None,
            },
    {
        let mut i: usize = 0;
        while i < self.errors.len()
            invariant
                i <= self.errors@.len(),
                forall|k: int| 0 <= k < i ==> self@[k].property != property@,
            decreases self.errors@.len() - i,
        {
            if same_text(self.errors[i].property.as_str(), property) {
                proof {
                    lemma_first_message_skip(self@, property@, i as int);
                }
                return Some(self.errors[i].message.as_str());
            }
            i = i + 1;
        }
        proof {
            lemma_first_message_skip(self@, property@, i as int);
        }
        None
    }
}

impl Default for ValidationResult {
    fn default() -> (result: Self)
        ensures
            result@ == Seq::<ErrorView>::empty(),
    {
        ValidationResult::new()
    }
}

} // verus!
