use warehouse::tools::{generate_random_alphanum, split_into_parts};

#[test]
fn test_split_into_parts() {
    let test_cases = vec![
        ("tictactoe", 3, "tic-tac-toe"),
        ("abcdefghijk", 4, "abcd-efgh-ijk"),
    ];

    for test_case in test_cases {
        let got = split_into_parts(test_case.0.to_string(), test_case.1);
        assert_eq!(got, test_case.2)
    }
}

#[test]
fn test_generate_random_alphanum_returns_str() {
    let test_cases = vec![2, 5, 6, 0, 30];

    for test_case in test_cases {
        let got = generate_random_alphanum(test_case);
        assert_eq!(got.unwrap().len(), test_case);
    }
}

#[test]
fn test_generate_random_alphanum_returns_err() {
    let test_cases = vec![31, 32, 40];

    for test_case in test_cases {
        let got = generate_random_alphanum(test_case);
        assert!(got.is_err());
        assert_eq!(
            got.unwrap_err().description().as_str(),
            "size must not be greater than 30"
        );
    }
}

#[test]
fn generated_alphanum_is_alphanumeric() {
    let got = generate_random_alphanum(30).unwrap();
    assert!(got.chars().all(|c| c.is_ascii_alphanumeric()));
}

#[test]
fn split_into_parts_leaves_short_strings_whole() {
    assert_eq!(split_into_parts("abc".to_string(), 4), "abc");
    assert_eq!(split_into_parts("".to_string(), 4), "");
    assert_eq!(split_into_parts("abcd".to_string(), 4), "abcd");
    assert_eq!(split_into_parts("abcde".to_string(), 4), "abcd-e");
}
