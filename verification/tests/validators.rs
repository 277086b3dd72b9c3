use fluentval::validate;
use fluentval::RuleBuilder;
use fluentval::ValidationError;
use fluentval::ValidationResult;
use fluentval::Validator;
use fluentval::ValidatorBuilder;

struct Contact {
    name: String,
    age: i32,
    phone_number: String,
    alt_phone_number: String,
}

fn contact(name: &str, age: i32, phone: &str, alt: &str) -> Contact {
    Contact {
        name: name.to_string(),
        age,
        phone_number: phone.to_string(),
        alt_phone_number: alt.to_string(),
    }
}

fn pairs(result: &ValidationResult) -> Vec<(&str, &str)> {
    result.errors().iter().map(|e| (e.property.as_str(), e.message.as_str())).collect()
}

#[test]
fn a_validator_without_rules_passes_every_record() {
    let validator = ValidatorBuilder::<Contact>::new().build();
    for record in [contact("", -1, "", ""), contact("x", 200, "1", "1")] {
        let result = validate(&record, &validator);
        assert!(result.is_valid());
        assert!(result.errors().is_empty());
    }
}

#[test]
fn a_validator_reports_the_same_on_each_run() {
    let validator = ValidatorBuilder::<Contact>::new()
        .rule_for("name", |c| &c.name, RuleBuilder::for_property("name").not_empty(None::<String>))
        .must("age", |c| &c.age, |_, age| *age >= 0, "must not be negative")
        .build();
    let record = contact(" ", -3, "1", "2");
    assert_eq!(validate(&record, &validator), validate(&record, &validator));
    assert_eq!(validate(&record, &validator).errors().len(), 2);
}

#[test]
fn two_phone_numbers_must_differ() {
    let validator = ValidatorBuilder::<Contact>::new()
        .must(
            "altPhoneNumber",
            |c| &c.alt_phone_number,
            |record, alt| alt != &record.phone_number,
            "must differ",
        )
        .build();
    let same = contact("n", 1, "1234567890", "1234567890");
    assert_eq!(pairs(&validate(&same, &validator)), vec![("altPhoneNumber", "must differ")]);
    let other = contact("n", 1, "1234567890", "0000000000");
    assert!(validate(&other, &validator).is_valid());
}

#[test]
fn two_failing_fields_are_both_reported() {
    let validator = ValidatorBuilder::<Contact>::new()
        .rule_for(
            "name",
            |c| &c.name,
            RuleBuilder::for_property("name").not_empty(None::<String>).min_length(5, None::<String>),
        )
        .rule_for(
            "age",
            |c| &c.age,
            RuleBuilder::for_property("age").greater_than_or_equal(18, None::<String>),
        )
        .build();
    let result = validate(&contact("", 15, "", ""), &validator);
    assert_eq!(
        pairs(&result),
        vec![
            ("name", "must not be empty"),
            ("name", "must be at least 5 characters long"),
            ("age", "must be greater than or equal to 18"),
        ]
    );
    let grouped = result.errors_by_property();
    assert_eq!(grouped.len(), 2);
    assert_eq!(grouped.get("name").unwrap().len(), 2);
    assert_eq!(grouped.get("age").unwrap().len(), 1);
}

#[test]
fn rules_run_in_attachment_order() {
    let validator = ValidatorBuilder::<Contact>::new()
        .must("second", |c| &c.age, |_, _| false, "cross before")
        .rule_for("x", |c| &c.name, RuleBuilder::for_property("first").must(|_: &String| false, "field"))
        .must("third", |c| &c.name, |_, _| false, "cross after")
        .build();
    let result = validate(&contact("n", 1, "", ""), &validator);
    assert_eq!(
        pairs(&result),
        vec![("second", "cross before"), ("first", "field"), ("third", "cross after")]
    );
}

#[test]
fn errors_carry_the_name_of_the_rule_builder() {
    let validator = ValidatorBuilder::<Contact>::new()
        .rule_for(
            "declaredHere",
            |c| &c.name,
            RuleBuilder::for_property("declaredThere").not_empty(None::<String>),
        )
        .build();
    let result = validate(&contact("", 1, "", ""), &validator);
    assert_eq!(pairs(&result), vec![("declaredThere", "must not be empty")]);
    assert_eq!(result.first_error_for("declaredHere"), None);
    assert_eq!(result.first_error_for("declaredThere"), Some("must not be empty"));
}

#[test]
fn a_cross_field_check_sees_the_record_as_it_is() {
    let validator = ValidatorBuilder::<Contact>::new()
        .must(
            "altPhoneNumber",
            |c| &c.alt_phone_number,
            |record, alt| alt != &record.phone_number,
            "must differ",
        )
        .build();
    let mut record = contact("first", 1, "111", "111");
    assert!(!validate(&record, &validator).is_valid());
    record.name = "second".to_string();
    record.age = 99;
    assert_eq!(pairs(&validate(&record, &validator)), vec![("altPhoneNumber", "must differ")]);
    record.phone_number = "222".to_string();
    assert!(validate(&record, &validator).is_valid());
    record.alt_phone_number = "222".to_string();
    assert!(!validate(&record, &validator).is_valid());
}

#[test]
fn one_validator_serves_many_records() {
    let validator = ValidatorBuilder::<Contact>::new()
        .rule_for("age", |c| &c.age, RuleBuilder::for_property("age").inclusive_between(0, 150, None::<String>))
        .build();
    let ages = [-1, 0, 75, 150, 151];
    let valid: Vec<bool> =
        ages.iter().map(|age| validate(&contact("n", *age, "", ""), &validator).is_valid()).collect();
    assert_eq!(valid, vec![false, true, true, true, false]);
}

struct Refuses;

impl Validator<i32> for Refuses {
    fn validate(&self, instance: &i32) -> ValidationResult {
        let mut result = ValidationResult::new();
        result.add_error(ValidationError::new("value", format!("{} refused", instance)));
        result
    }
}

#[test]
fn validate_takes_any_validator() {
    let own = Refuses;
    assert_eq!(pairs(&validate(&7, &own)), vec![("value", "7 refused")]);
    let built = ValidatorBuilder::<i32>::new()
        .rule_for("v", |v| v, RuleBuilder::for_property("value").greater_than(0, Some("not positive")))
        .build();
    let many: Vec<&dyn Validator<i32>> = vec![&own, &built];
    let counts: Vec<usize> = many.iter().map(|v| validate(&-1, *v).errors().len()).collect();
    assert_eq!(counts, vec![1, 1]);
    let counts: Vec<usize> = many.iter().map(|v| validate(&1, *v).errors().len()).collect();
    assert_eq!(counts, vec![1, 0]);
}

#[test]
fn the_default_builder_is_empty() {
    let validator = ValidatorBuilder::<i32>::default().build();
    assert!(validate(&0, &validator).is_valid());
    assert!(ValidationResult::default().is_valid());
}
