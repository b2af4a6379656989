use scsl_core::launch::{shell_join, shell_quote, split_args};

#[test]
fn split_reads_back_joined_values() {
    let values = vec![
        "plain".to_string(),
        "with space".to_string(),
        "it's".to_string(),
        "\"double\"".to_string(),
    ];
    assert_eq!(split_args(&shell_join(values.clone())), values);
}

#[test]
fn split_reads_back_one_quoted_value() {
    assert_eq!(split_args(&shell_quote("a 'b' c")), vec!["a 'b' c".to_string()]);
    assert_eq!(split_args(&shell_quote("")), Vec::<String>::new());
}
