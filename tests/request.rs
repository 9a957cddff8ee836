use nostreq::message::{compact_filters, format_request, subscription_id};
use nostreq::{assemble, assemble_request, split_groups, FilterOption, GroupOptions};

fn strings(items: &[&str]) -> Vec<String> {
    items.iter().map(|s| s.to_string()).collect()
}

fn group(options: Vec<FilterOption>) -> GroupOptions {
    GroupOptions { subscription_id: None, options }
}

fn is_uuid_v4(s: &str) -> bool {
    let b = s.as_bytes();
    b.len() == 36
        && b.iter().enumerate().all(|(i, c)| {
            if i == 8 || i == 13 || i == 18 || i == 23 {
                *c == b'-'
            } else {
                c.is_ascii_digit() || (b'a'..=b'f').contains(c)
            }
        })
        && b[14] == b'4'
        && b"89ab".contains(&b[19])
}

#[test]
fn split_without_tokens_gives_one_group() {
    let groups = split_groups(&vec![], &"--or".to_string(), &"prog".to_string());
    assert_eq!(groups, vec![strings(&["prog"])]);
}

#[test]
fn split_at_separator() {
    let tokens = strings(&["--ids", "x", "--or", "--authors", "y"]);
    let groups = split_groups(&tokens, &"--or".to_string(), &"prog".to_string());
    assert_eq!(
        groups,
        vec![strings(&["prog", "--ids", "x"]), strings(&["prog", "--authors", "y"])]
    );
}

#[test]
fn split_separator_alone_gives_two_empty_groups() {
    let groups = split_groups(&strings(&["--or"]), &"--or".to_string(), &"prog".to_string());
    assert_eq!(groups, vec![strings(&["prog"]), strings(&["prog"])]);
}

#[test]
fn split_trailing_separator_gives_trailing_empty_group() {
    let tokens = strings(&["--kinds", "1", "--or"]);
    let groups = split_groups(&tokens, &"--or".to_string(), &"p".to_string());
    assert_eq!(groups, vec![strings(&["p", "--kinds", "1"]), strings(&["p"])]);
}

#[test]
fn no_options_give_single_empty_filter() {
    let line = assemble_request(&"sub".to_string(), vec![group(vec![])]);
    assert_eq!(line, r#"["REQ","sub",{}]"#);
}

#[test]
fn no_groups_give_single_empty_filter() {
    let line = assemble_request(&"sub".to_string(), vec![]);
    assert_eq!(line, r#"["REQ","sub",{}]"#);
}

#[test]
fn generated_id_is_a_random_uuid() {
    let line = assemble(vec![group(vec![])]);
    assert!(line.starts_with(r#"["REQ",""#));
    assert!(line.ends_with(r#"",{}]"#));
    let id = &line[8..line.len() - 5];
    assert!(is_uuid_v4(id), "{}", id);
}

#[test]
fn two_groups_in_order() {
    let line = assemble_request(
        &"s".to_string(),
        vec![
            group(vec![FilterOption::Ids(strings(&["x"]))]),
            group(vec![FilterOption::Authors(strings(&["y"]))]),
        ],
    );
    assert_eq!(line, r#"["REQ","s",{"ids":["x"]},{"authors":["y"]}]"#);
}

#[test]
fn explicit_id_is_used_verbatim() {
    let groups = vec![GroupOptions {
        subscription_id: Some("fixed123".to_string()),
        options: vec![FilterOption::Ids(strings(&["x"]))],
    }];
    assert_eq!(assemble(groups), r#"["REQ","fixed123",{"ids":["x"]}]"#);
}

#[test]
fn only_first_group_id_counts() {
    let groups = vec![
        group(vec![FilterOption::Kinds(vec![1])]),
        GroupOptions { subscription_id: Some("late".to_string()), options: vec![] },
    ];
    let id = subscription_id(&groups);
    assert_ne!(id, "late");
    assert!(is_uuid_v4(&id));
}

#[test]
fn separator_alone_compacts_to_one_empty_filter() {
    let groups = split_groups(&strings(&["--or"]), &"--or".to_string(), &"prog".to_string());
    assert_eq!(groups.len(), 2);
    let line = assemble_request(&"s".to_string(), vec![group(vec![]), group(vec![])]);
    assert_eq!(line, r#"["REQ","s",{}]"#);
}

#[test]
fn empty_groups_are_dropped_between_others() {
    let line = assemble_request(
        &"s".to_string(),
        vec![
            group(vec![]),
            group(vec![FilterOption::Limit(1)]),
            group(vec![]),
            group(vec![FilterOption::Since(2)]),
        ],
    );
    assert_eq!(line, r#"["REQ","s",{"limit":1},{"since":2}]"#);
}

#[test]
fn compact_keeps_non_empty_filters() {
    assert_eq!(compact_filters(strings(&["{}", "{\"a\":1}", "{}"])), strings(&["{\"a\":1}"]));
    assert_eq!(compact_filters(strings(&["{}", "{}"])), strings(&["{}"]));
    assert_eq!(compact_filters(vec![]), strings(&["{}"]));
}

#[test]
fn request_id_is_json_escaped() {
    let line = format_request(&"a\"b".to_string(), strings(&["{}"]));
    assert_eq!(line, r#"["REQ","a\"b",{}]"#);
}
