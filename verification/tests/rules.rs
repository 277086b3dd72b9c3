use fluentval::pattern::finds_match;
use fluentval::RuleBuilder;
use fluentval::ValidationError;

fn messages(errors: &[ValidationError]) -> Vec<&str> {
    errors.iter().map(|e| e.message.as_str()).collect()
}

#[test]
fn a_rule_without_checks_passes_every_value() {
    let text = RuleBuilder::<String>::for_property("name").build();
    for value in ["", " ", "anything", "\u{0}"] {
        assert!(text(&value.to_string()).is_empty());
    }
    let number = RuleBuilder::<i64>::for_property("n").build();
    for value in [i64::MIN, -1, 0, 1, i64::MAX] {
        assert!(number(&value).is_empty());
    }
}

#[test]
fn a_rule_reports_the_same_on_each_run() {
    let rule = RuleBuilder::<String>::for_property("name")
        .not_empty(None::<String>)
        .min_length(3, None::<String>)
        .email(None::<String>)
        .must(|s: &String| s.starts_with('x'), "must start with x")
        .build();
    for value in ["", "ab", "x@y.zz", "long but no email"] {
        let value = value.to_string();
        assert_eq!(rule(&value), rule(&value));
    }
}

#[test]
fn errors_stand_in_attachment_order() {
    let rule = RuleBuilder::<String>::for_property("f")
        .must(|_: &String| false, "A")
        .must(|_: &String| false, "B")
        .build();
    assert_eq!(messages(&rule(&"v".to_string())), vec!["A", "B"]);
    let reversed = RuleBuilder::<String>::for_property("f")
        .must(|_: &String| false, "B")
        .must(|_: &String| false, "A")
        .build();
    assert_eq!(messages(&reversed(&"v".to_string())), vec!["B", "A"]);
}

#[test]
fn a_failure_does_not_stop_later_checks() {
    let rule = RuleBuilder::<String>::for_property("f")
        .not_empty(None::<String>)
        .must(|s: &String| s.len() > 100, "too short")
        .rule(|_: &String| None)
        .email(Some("no email"))
        .build();
    assert_eq!(messages(&rule(&"".to_string())), vec!["must not be empty", "too short", "no email"]);
}

#[test]
fn every_error_carries_the_name_of_the_builder() {
    let rule = RuleBuilder::<String>::for_property("firstName")
        .not_empty(None::<String>)
        .min_length(2, None::<String>)
        .build();
    let errors = rule(&"".to_string());
    assert_eq!(errors.len(), 2);
    assert!(errors.iter().all(|e| e.property == "firstName"));
}

#[test]
fn a_name_under_three_checks() {
    let rule = RuleBuilder::<String>::for_property("name")
        .not_empty(None::<String>)
        .min_length(2, None::<String>)
        .max_length(50, None::<String>)
        .build();
    let errors = rule(&"".to_string());
    assert_eq!(
        errors,
        vec![
            ValidationError::new("name", "must not be empty"),
            ValidationError::new("name", "must be at least 2 characters long"),
        ]
    );
    assert!(rule(&"Jo".to_string()).is_empty());
}

#[test]
fn an_age_between_two_bounds() {
    let rule = RuleBuilder::<i32>::for_property("age")
        .greater_than_or_equal(18, None::<String>)
        .less_than_or_equal(120, None::<String>)
        .build();
    assert_eq!(rule(&15), vec![ValidationError::new("age", "must be greater than or equal to 18")]);
    assert_eq!(rule(&130), vec![ValidationError::new("age", "must be less than or equal to 120")]);
    assert!(rule(&30).is_empty());
}

#[test]
fn an_email_with_the_default_message() {
    let rule = RuleBuilder::<String>::for_property("email").email(None::<String>).build();
    assert_eq!(
        rule(&"invalid-email".to_string()),
        vec![ValidationError::new("email", "must be a valid email address")]
    );
    assert!(rule(&"a@b.co".to_string()).is_empty());
}

#[test]
fn email_shapes() {
    let rule = RuleBuilder::<String>::for_property("email").email(None::<String>).build();
    for good in ["a@b.co", "user.name+tag@sub.domain.org", "A_1%x-y@d-1.example.COM", "a@b.c.de"] {
        assert!(rule(&good.to_string()).is_empty(), "{}", good);
    }
    for bad in [
        "", "a@b.c", "a@b", "@b.co", "a@.co1", "a b@c.de", "a@b.co ", " a@b.co", "a@b.co\n",
        "a@@b.co", "a@b.c0", "é@b.co", "a@b_c.de",
    ] {
        assert_eq!(rule(&bad.to_string()).len(), 1, "{:?}", bad);
    }
}

#[test]
fn finds_match_compiles_and_searches() {
    assert!(finds_match("^a+$", "aaa"));
    assert!(!finds_match("^a+$", "aab"));
    assert!(finds_match("b", "aab"));
    assert!(!finds_match("b", ""));
    assert!(finds_match("", ""));
}

#[test]
fn a_pattern_that_does_not_compile_fits_nothing() {
    assert!(!finds_match("(", "("));
    assert!(!finds_match("a{2,1}", "aa"));
    assert!(!finds_match("[", ""));
}

#[test]
fn not_empty_trims_and_length_does_not() {
    let rule = RuleBuilder::<String>::for_property("f")
        .not_empty(None::<String>)
        .min_length(3, None::<String>)
        .max_length(3, None::<String>)
        .build();
    assert_eq!(messages(&rule(&"   ".to_string())), vec!["must not be empty"]);
    assert_eq!(messages(&rule(&" a ".to_string())), Vec::<&str>::new());
    assert_eq!(messages(&rule(&"  a  ".to_string())), vec!["must be at most 3 characters long"]);
    assert_eq!(messages(&rule(&"\u{2003}".to_string())), vec!["must not be empty"]);
    assert_eq!(
        messages(&rule(&"\t".to_string())),
        vec!["must not be empty", "must be at least 3 characters long"]
    );
}

#[test]
fn not_empty_counts_only_white_space_as_blank() {
    let rule = RuleBuilder::<String>::for_property("f").not_empty(None::<String>).build();
    for blank in ["", " ", "\n", "\r\n\t ", "\u{00A0}", "\u{1680}\u{2028}\u{2029}\u{202F}\u{205F}\u{3000}", "\u{0085}"] {
        assert_eq!(rule(&blank.to_string()).len(), 1, "{:?}", blank);
    }
    for filled in ["a", " a", "\u{200B}", "\u{180E}", "\u{FEFF}", "\u{0}", "_"] {
        assert!(rule(&filled.to_string()).is_empty(), "{:?}", filled);
    }
}

#[test]
fn length_is_counted_in_bytes() {
    let rule = RuleBuilder::<String>::for_property("f")
        .min_length(2, None::<String>)
        .max_length(2, None::<String>)
        .build();
    assert!(rule(&"é".to_string()).is_empty());
    assert_eq!(messages(&rule(&"aé".to_string())), vec!["must be at most 2 characters long"]);
    assert_eq!(messages(&rule(&"a".to_string())), vec!["must be at least 2 characters long"]);
}

#[test]
fn length_attaches_the_minimum_then_the_maximum() {
    let rule = RuleBuilder::<String>::for_property("f")
        .length(3, 1, Some("short"), Some("long".to_string()))
        .build();
    assert_eq!(messages(&rule(&"ab".to_string())), vec!["short", "long"]);
    let defaults = RuleBuilder::<String>::for_property("f")
        .length(3, 1, None::<String>, None::<String>)
        .build();
    assert_eq!(
        messages(&defaults(&"ab".to_string())),
        vec!["must be at least 3 characters long", "must be at most 1 characters long"]
    );
    let mixed = RuleBuilder::<String>::for_property("f")
        .length(3, 1, None::<String>, Some("long"))
        .build();
    assert_eq!(messages(&mixed(&"ab".to_string())), vec!["must be at least 3 characters long", "long"]);
}

#[test]
fn length_bounds_at_the_limits() {
    let rule = RuleBuilder::<String>::for_property("f")
        .min_length(0, None::<String>)
        .max_length(usize::MAX, None::<String>)
        .build();
    assert!(rule(&"".to_string()).is_empty());
    assert!(rule(&"abc".to_string()).is_empty());
    let none = RuleBuilder::<String>::for_property("f").max_length(0, None::<String>).build();
    assert!(none(&"".to_string()).is_empty());
    assert_eq!(messages(&none(&" ".to_string())), vec!["must be at most 0 characters long"]);
    let all = RuleBuilder::<String>::for_property("f").min_length(1234567, None::<String>).build();
    assert_eq!(messages(&all(&"x".to_string())), vec!["must be at least 1234567 characters long"]);
}

#[test]
fn text_checks_read_string_slices_too() {
    let rule = RuleBuilder::<&str>::for_property("f")
        .not_empty(None::<&str>)
        .min_length(2, None::<&str>)
        .email(None::<&str>)
        .build();
    assert_eq!(rule(&"").len(), 3);
    assert!(rule(&"a@b.co").is_empty());
}

#[test]
fn default_messages_embed_the_bound() {
    let value: i64 = 0;
    let gt = RuleBuilder::<i64>::for_property("n").greater_than(18, None::<String>).build();
    assert_eq!(messages(&gt(&value)), vec!["must be greater than 18"]);
    let gte = RuleBuilder::<i64>::for_property("n").greater_than_or_equal(1, None::<String>).build();
    assert_eq!(messages(&gte(&value)), vec!["must be greater than or equal to 1"]);
    let lt = RuleBuilder::<i64>::for_property("n").less_than(-5, None::<String>).build();
    assert_eq!(messages(&lt(&value)), vec!["must be less than -5"]);
    let lte = RuleBuilder::<i64>::for_property("n").less_than_or_equal(-120, None::<String>).build();
    assert_eq!(messages(&lte(&value)), vec!["must be less than or equal to -120"]);
    let between = RuleBuilder::<i64>::for_property("n").inclusive_between(-10, -1, None::<String>).build();
    assert_eq!(messages(&between(&value)), vec!["must be between -10 and -1"]);
    let wide = RuleBuilder::<i64>::for_property("n")
        .inclusive_between(i64::MIN, -1, None::<String>)
        .greater_than(i64::MAX, None::<String>)
        .build();
    assert_eq!(
        messages(&wide(&value)),
        vec!["must be between -9223372036854775808 and -1", "must be greater than 9223372036854775807"]
    );
}

#[test]
fn comparisons_at_the_bound() {
    let gt = RuleBuilder::<i32>::for_property("n").greater_than(0, None::<String>).build();
    assert_eq!((gt(&-1).len(), gt(&0).len(), gt(&1).len()), (1, 1, 0));
    let gte = RuleBuilder::<i32>::for_property("n").greater_than_or_equal(0, None::<String>).build();
    assert_eq!((gte(&-1).len(), gte(&0).len(), gte(&1).len()), (1, 0, 0));
    let lt = RuleBuilder::<i32>::for_property("n").less_than(0, None::<String>).build();
    assert_eq!((lt(&-1).len(), lt(&0).len(), lt(&1).len()), (0, 1, 1));
    let lte = RuleBuilder::<i32>::for_property("n").less_than_or_equal(0, None::<String>).build();
    assert_eq!((lte(&-1).len(), lte(&0).len(), lte(&1).len()), (0, 0, 1));
    let between = RuleBuilder::<i32>::for_property("n").inclusive_between(-1, 1, None::<String>).build();
    assert_eq!(
        (between(&-2).len(), between(&-1).len(), between(&0).len(), between(&1).len(), between(&2).len()),
        (1, 0, 0, 0, 1)
    );
    let empty_range = RuleBuilder::<i32>::for_property("n").inclusive_between(1, -1, None::<String>).build();
    assert_eq!((empty_range(&-1).len(), empty_range(&0).len(), empty_range(&1).len()), (1, 1, 1));
}

#[test]
fn comparisons_are_exact_over_the_whole_range() {
    let top = RuleBuilder::<u64>::for_property("n").less_than_or_equal(i64::MAX, None::<String>).build();
    assert!(top(&(i64::MAX as u64)).is_empty());
    assert_eq!(top(&(i64::MAX as u64 + 1)).len(), 1);
    assert_eq!(top(&u64::MAX).len(), 1);
    let near = RuleBuilder::<i64>::for_property("n").greater_than(9007199254740992, None::<String>).build();
    assert_eq!(near(&9007199254740992).len(), 1);
    assert!(near(&9007199254740993).is_empty());
    let bottom = RuleBuilder::<i64>::for_property("n").greater_than_or_equal(i64::MIN, None::<String>).build();
    assert!(bottom(&i64::MIN).is_empty());
    let small = RuleBuilder::<u8>::for_property("n").greater_than(-1, None::<String>).build();
    assert!(small(&0).is_empty());
    let narrow = RuleBuilder::<i8>::for_property("n").less_than(-128, None::<String>).build();
    assert_eq!(narrow(&-128).len(), 1);
}

#[test]
fn every_integer_type_is_numeric() {
    assert!(RuleBuilder::<i8>::for_property("n").greater_than(1, None::<String>).build()(&2).is_empty());
    assert!(RuleBuilder::<i16>::for_property("n").greater_than(1, None::<String>).build()(&2).is_empty());
    assert!(RuleBuilder::<i32>::for_property("n").greater_than(1, None::<String>).build()(&2).is_empty());
    assert!(RuleBuilder::<i64>::for_property("n").greater_than(1, None::<String>).build()(&2).is_empty());
    assert!(RuleBuilder::<u8>::for_property("n").greater_than(1, None::<String>).build()(&2).is_empty());
    assert!(RuleBuilder::<u16>::for_property("n").greater_than(1, None::<String>).build()(&2).is_empty());
    assert!(RuleBuilder::<u32>::for_property("n").greater_than(1, None::<String>).build()(&2).is_empty());
    assert!(RuleBuilder::<u64>::for_property("n").greater_than(1, None::<String>).build()(&2).is_empty());
}

#[test]
fn not_null_fails_on_absence_alone() {
    let rule = RuleBuilder::<Option<i32>>::for_property("n").not_null(None::<String>).build();
    assert_eq!(rule(&None), vec![ValidationError::new("n", "must not be null")]);
    assert!(rule(&Some(0)).is_empty());
    let text = RuleBuilder::<Option<String>>::for_property("t").not_null(Some("missing")).build();
    assert_eq!(messages(&text(&None)), vec!["missing"]);
    assert!(text(&Some(String::new())).is_empty());
}

#[test]
fn must_fails_where_the_predicate_does_not_hold() {
    let rule = RuleBuilder::<i32>::for_property("n").must(|n: &i32| n % 2 == 0, "must be even").build();
    assert_eq!(rule(&3), vec![ValidationError::new("n", "must be even")]);
    assert!(rule(&4).is_empty());
}

#[test]
fn a_custom_rule_gives_its_own_message() {
    let rule = RuleBuilder::<i32>::for_property("n")
        .rule(|n: &i32| if *n < 0 { Some(format!("{} is negative", n)) } else { None })
        .build();
    assert_eq!(rule(&-7), vec![ValidationError::new("n", "-7 is negative")]);
    assert!(rule(&7).is_empty());
}

#[test]
fn a_custom_message_replaces_the_default_only() {
    let rule = RuleBuilder::<i32>::for_property("n")
        .greater_than(0, Some("first"))
        .greater_than(0, None::<String>)
        .build();
    assert_eq!(messages(&rule(&0)), vec!["first", "must be greater than 0"]);
    assert!(rule(&1).is_empty());
}

#[test]
fn a_compiled_rule_can_be_kept_and_applied() {
    let rule = RuleBuilder::<String>::for_property("name").not_empty(None::<String>).compile();
    assert_eq!(rule.apply(&" ".to_string()), vec![ValidationError::new("name", "must not be empty")]);
    assert!(rule.apply(&"x".to_string()).is_empty());
    assert_eq!(rule.apply(&"".to_string()), rule.apply(&"".to_string()));
}

#[test]
fn the_email_pattern_is_the_documented_one() {
    assert_eq!(fluentval::check::EMAIL_PATTERN, r"^[a-zA-Z0-9._%+-]+@[a-zA-Z0-9.-]+\.[a-zA-Z]{2,}$");
    assert!(finds_match(fluentval::check::EMAIL_PATTERN, "a@b.co"));
    assert!(!finds_match(fluentval::check::EMAIL_PATTERN, "a@b.c"));
}
