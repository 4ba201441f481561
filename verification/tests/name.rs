use floretta::name::{decompose, recompose, NameGen, NameSet};

#[test]
fn test_no_number() {
    let mut names = NameSet::new();
    let output = names.insert("foo");
    assert_eq!(output, "foo");
}

#[test]
fn test_duplicates() {
    let mut names = NameSet::new();
    let output1 = names.insert("foo");
    let output2 = names.insert("foo");
    let output3 = names.insert("foo");
    assert_eq!(output1, "foo");
    assert_eq!(output2, "foo_0");
    assert_eq!(output3, "foo_1");
}

#[test]
fn test_base() {
    let mut names = NameSet::new();
    let output1 = names.insert("foo_1");
    let output2 = names.insert("foo");
    assert_eq!(output1, "foo_1");
    assert_eq!(output2, "foo");
}

#[test]
fn test_gap() {
    let mut names = NameSet::new();
    let output1 = names.insert("foo");
    let output2 = names.insert("foo_3");
    let output3 = names.insert("foo_5");
    let output4 = names.insert("foo");
    let output5 = names.insert("foo");
    assert_eq!(output1, "foo");
    assert_eq!(output2, "foo_3");
    assert_eq!(output3, "foo_5");
    assert_eq!(output4, "foo_0");
    assert_eq!(output5, "foo_1");
}

#[test]
fn test_big_number() {
    let mut names = NameSet::new();
    let input = format!("foo_{}", u64::from(u32::MAX) + 1);
    let output1 = names.insert(&input);
    let output2 = names.insert(&input);
    assert_eq!(output1, "foo_4294967296");
    assert_eq!(output2, "foo_4294967296_0");
}

#[test]
fn test_number_borrowed() {
    let mut names = NameSet::new();
    assert_eq!(names.insert("foo_1"), "foo_1");
}

#[test]
fn names_stay_unique_after_a_gap_is_filled() {
    let mut names = NameSet::new();
    let mut seen = Vec::new();
    for name in ["foo", "foo_3", "foo", "foo", "foo", "foo_2", "foo_4", "foo"] {
        let output = names.insert(name);
        assert!(!seen.contains(&output), "{output} was given twice");
        seen.push(output);
    }
    assert_eq!(seen, ["foo", "foo_3", "foo_0", "foo_1", "foo_2", "foo_4", "foo_5", "foo_6"]);
}

#[test]
fn decompose_splits_at_the_last_underscore_before_digits() {
    assert_eq!(decompose("foo"), ("foo", None));
    assert_eq!(decompose("foo_12"), ("foo", Some(12)));
    assert_eq!(decompose("foo_007"), ("foo", Some(7)));
    assert_eq!(decompose("a_b_3"), ("a_b", Some(3)));
    assert_eq!(decompose("_5"), ("", Some(5)));
    assert_eq!(decompose("foo_"), ("foo_", None));
    assert_eq!(decompose("foo5"), ("foo5", None));
    assert_eq!(decompose("42"), ("42", None));
    assert_eq!(decompose("foo_4294967295"), ("foo", Some(u32::MAX)));
    assert_eq!(decompose("foo_4294967296"), ("foo_4294967296", None));
    assert_eq!(decompose("λ_x_2"), ("λ_x", Some(2)));
}

#[test]
fn recompose_writes_the_number_in_base_ten() {
    assert_eq!(recompose("foo", 0), "foo_0");
    assert_eq!(recompose("foo", 10), "foo_10");
    assert_eq!(recompose("", 4294967295), "_4294967295");
    assert_eq!(decompose(&recompose("a_1", 205)), ("a_1", Some(205)));
}

#[test]
fn generated_names_avoid_the_names_of_the_source() {
    let mut names = NameSet::new();
    names.insert("f");
    names.insert("f_bwd");
    names.insert("g");
    let mut names: NameGen = names.done();
    assert_eq!(names.insert("f_bwd"), "f_bwd_0");
    assert_eq!(names.insert("g_bwd"), "g_bwd");
    assert_eq!(names.insert("f_bwd"), "f_bwd_1");
    assert_eq!(names.insert("f_bwd_1"), "f_bwd_2");
    assert_eq!(names.insert("f_bwd_7"), "f_bwd_7");
}
