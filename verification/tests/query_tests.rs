use pin_gate::query::{extract_args, Args};

fn pairs(list: &[(&str, &str)]) -> Vec<(String, String)> {
    list.iter().map(|(k, v)| (k.to_string(), v.to_string())).collect()
}

#[test]
fn args_get_finds_a_value_by_name() {
    let args = Args::from_pairs(pairs(&[("arg", "QmXYZ"), ("recursive", "true")]));
    assert_eq!(args.get("arg"), Some(&"QmXYZ".to_string()));
    assert_eq!(args.get("recursive"), Some(&"true".to_string()));
    assert_eq!(args.get("other"), None);
}

#[test]
fn args_last_value_wins() {
    let args = Args::from_pairs(pairs(&[("arg", "first"), ("x", "1"), ("arg", "second")]));
    assert_eq!(args.get("arg"), Some(&"second".to_string()));
    assert_eq!(args.get("x"), Some(&"1".to_string()));
}

#[test]
fn args_of_nothing_are_empty() {
    assert_eq!(Args::from_pairs(Vec::new()).get("arg"), None);
    assert_eq!(extract_args(None).get("arg"), None);
    assert_eq!(extract_args(Some("")).get("arg"), None);
}

#[test]
fn extract_args_reads_the_query() {
    let args = extract_args(Some("arg=QmXYZ&recursive=true"));
    assert_eq!(args.get("arg"), Some(&"QmXYZ".to_string()));
    assert_eq!(args.get("recursive"), Some(&"true".to_string()));
    assert_eq!(args.get("ARG"), None);
}

#[test]
fn extract_args_decodes_percent_and_plus() {
    let args = extract_args(Some("arg=a%2Fb+c&%61rg2=%25"));
    assert_eq!(args.get("arg"), Some(&"a/b c".to_string()));
    assert_eq!(args.get("arg2"), Some(&"%".to_string()));
}

#[test]
fn extract_args_keeps_the_last_of_duplicates() {
    let args = extract_args(Some("arg=one&arg=two&arg=three"));
    assert_eq!(args.get("arg"), Some(&"three".to_string()));
}

#[test]
fn extract_args_takes_a_name_without_value_as_empty() {
    let args = extract_args(Some("arg&x=1&&y="));
    assert_eq!(args.get("arg"), Some(&String::new()));
    assert_eq!(args.get("y"), Some(&String::new()));
    assert_eq!(args.get(""), None);
}
