//! Canonical naming and pointer escaping.

use genir::naming::CanonicalName;
use genir::pointer::escape_pointer_segment;

#[test]
fn test_canonical_name() {
    let name = CanonicalName::from_string("my-test-name");
    assert_eq!(name.snake, "my_test_name");
    assert_eq!(name.pascal, "MyTestName");
    assert_eq!(name.camel, "myTestName");
    assert_eq!(name.kebab, "my-test-name");
    assert_eq!(name.upper, "MY_TEST_NAME");
}

#[test]
fn lib_test_canonical_name() {
    let name = CanonicalName::from_string("my-test-name");
    assert_eq!(name.snake, "my_test_name");
    assert_eq!(name.pascal, "MyTestName");
    assert_eq!(name.camel, "myTestName");
    assert_eq!(name.kebab, "my-test-name");
    assert_eq!(name.upper, "MY_TEST_NAME");
}

#[test]
fn test_canonical_name_edge_cases() {
    let test_cases = vec![
        ("HTTPClient", "httpclient", "Httpclient", "httpclient"),
        ("API", "api", "Api", "api"),
        ("XMLParser", "xmlparser", "Xmlparser", "xmlparser"),
        ("user_id", "user_id", "UserId", "userId"),
        (
            "kebab-case-name",
            "kebab_case_name",
            "KebabCaseName",
            "kebabCaseName",
        ),
        (
            "camelCaseName",
            "camel_case_name",
            "CamelCaseName",
            "camelCaseName",
        ),
        ("UPPER_SNAKE", "upper_snake", "UpperSnake", "upperSnake"),
        ("123number", "123number", "123number", "123number"),
    ];

    for (input, expected_snake, expected_pascal, expected_camel) in test_cases {
        let name = CanonicalName::from_string(input);
        assert_eq!(
            name.snake, expected_snake,
            "Snake case failed for input: {}",
            input
        );
        assert_eq!(
            name.pascal, expected_pascal,
            "Pascal case failed for input: {}",
            input
        );
        assert_eq!(
            name.camel, expected_camel,
            "Camel case failed for input: {}",
            input
        );
    }
}

#[test]
fn lib_test_canonical_name_edge_cases() {
    let test_cases = vec![
        ("HTTPClient", "httpclient", "Httpclient", "httpclient"),
        ("API", "api", "Api", "api"),
        ("XMLParser", "xmlparser", "Xmlparser", "xmlparser"),
        ("user_id", "user_id", "UserId", "userId"),
        (
            "kebab-case-name",
            "kebab_case_name",
            "KebabCaseName",
            "kebabCaseName",
        ),
        (
            "camelCaseName",
            "camel_case_name",
            "CamelCaseName",
            "camelCaseName",
        ),
        ("UPPER_SNAKE", "upper_snake", "UpperSnake", "upperSnake"),
        ("123number", "123number", "123number", "123number"),
    ];

    for (input, expected_snake, expected_pascal, expected_camel) in test_cases {
        let name = CanonicalName::from_string(input);
        assert_eq!(
            name.snake, expected_snake,
            "Snake case failed for input: {}",
            input
        );
        assert_eq!(
            name.pascal, expected_pascal,
            "Pascal case failed for input: {}",
            input
        );
        assert_eq!(
            name.camel, expected_camel,
            "Camel case failed for input: {}",
            input
        );
    }
}

#[test]
fn test_canonical_name_empty_and_whitespace() {
    let empty = CanonicalName::from_string("");
    assert_eq!(empty.snake, "");
    assert_eq!(empty.pascal, "");
    assert_eq!(empty.camel, "");
    assert_eq!(empty.upper, "");
    assert_eq!(empty.canonical, "");

    let spaced = CanonicalName::from_string("Test API");
    assert_eq!(spaced.canonical, "Test API");
    assert_eq!(spaced.snake, "test_api");
    assert_eq!(spaced.pascal, "TestApi");
    assert_eq!(spaced.upper, "TEST_API");

    let multi = CanonicalName::from_string("a--b__c");
    assert_eq!(multi.snake, "a_b_c");
    assert_eq!(multi.pascal, "ABC");
}

#[test]
fn test_escape_segment() {
    assert_eq!(escape_pointer_segment("pets"), "pets");
    assert_eq!(escape_pointer_segment("/pets"), "~1pets");
    assert_eq!(escape_pointer_segment("a~b"), "a~0b");
    assert_eq!(escape_pointer_segment("a/b~c"), "a~1b~0c");
}

#[test]
fn test_escape_segment_empty_and_runs() {
    assert_eq!(escape_pointer_segment(""), "");
    assert_eq!(escape_pointer_segment("~~"), "~0~0");
    assert_eq!(escape_pointer_segment("//"), "~1~1");
    assert_eq!(escape_pointer_segment("~1"), "~01");
}
