use nostreq::{request_from_cli, FilterOption, Request};

fn strings(items: &[&str]) -> Vec<String> {
    items.iter().map(|s| s.to_string()).collect()
}

#[test]
fn empty_filter_is_empty_object() {
    let mut r = Request::new();
    assert_eq!(r.to_json(), "{}");
}

#[test]
fn no_options_give_empty_object() {
    let mut r = request_from_cli(vec![]);
    assert_eq!(r.to_json(), "{}");
}

#[test]
fn kinds_keep_order() {
    let mut r = request_from_cli(vec![FilterOption::Kinds(vec![1, 2, 3])]);
    assert_eq!(r.to_json(), r#"{"kinds":[1,2,3]}"#);
}

#[test]
fn kinds_keep_duplicates() {
    let mut r = request_from_cli(vec![FilterOption::Kinds(vec![1, 1])]);
    assert_eq!(r.to_json(), r#"{"kinds":[1,1]}"#);
}

#[test]
fn since_last_occurrence_wins() {
    let mut r = request_from_cli(vec![FilterOption::Since(100), FilterOption::Since(200)]);
    assert_eq!(r.to_json(), r#"{"since":200}"#);
}

#[test]
fn until_and_limit_overwrite() {
    let mut r = request_from_cli(vec![
        FilterOption::Until(5),
        FilterOption::Limit(10),
        FilterOption::Until(7),
        FilterOption::Limit(0),
    ]);
    assert_eq!(r.to_json(), r#"{"until":7,"limit":0}"#);
}

#[test]
fn ids_accumulate_over_occurrences() {
    let mut r = request_from_cli(vec![
        FilterOption::Ids(strings(&["a"])),
        FilterOption::Ids(strings(&["b"])),
    ]);
    assert_eq!(r.to_json(), r#"{"ids":["a","b"]}"#);
}

#[test]
fn empty_list_occurrence_leaves_field_absent() {
    let mut r = request_from_cli(vec![FilterOption::Ids(vec![]), FilterOption::Kinds(vec![])]);
    assert_eq!(r.to_json(), "{}");
}

#[test]
fn all_fields_in_fixed_order_with_renamed_tags() {
    let mut r = request_from_cli(vec![
        FilterOption::Limit(3),
        FilterOption::PTags(strings(&["p1"])),
        FilterOption::Since(1),
        FilterOption::ETags(strings(&["e1", "e2"])),
        FilterOption::Until(4294967295),
        FilterOption::Kinds(vec![0, 40]),
        FilterOption::Authors(strings(&["au"])),
        FilterOption::Ids(strings(&["x"])),
    ]);
    assert_eq!(
        r.to_json(),
        r##"{"ids":["x"],"authors":["au"],"kinds":[0,40],"#e":["e1","e2"],"#p":["p1"],"since":1,"until":4294967295,"limit":3}"##
    );
}

#[test]
fn builders_match_fold() {
    let mut r = Request::new();
    r.id("a".to_string()).ids(strings(&["b", "c"])).author("d".to_string());
    r.kind(7).etag("e".to_string()).ptag("f".to_string()).since(9).since(10);
    assert_eq!(
        r.to_json(),
        r##"{"ids":["a","b","c"],"authors":["d"],"kinds":[7],"#e":["e"],"#p":["f"],"since":10}"##
    );
}

#[test]
fn builder_with_empty_list_makes_field_present() {
    let mut r = Request::new();
    r.authors(vec![]).etags(vec![]).ptags(vec![]).kinds(vec![]);
    assert_eq!(r.to_json(), r##"{"authors":[],"kinds":[],"#e":[],"#p":[]}"##);
}

#[test]
fn strings_are_json_escaped() {
    let mut r = Request::new();
    r.id("a\"b\\c".to_string());
    assert_eq!(r.to_json(), r#"{"ids":["a\"b\\c"]}"#);
}

#[test]
fn serialising_twice_is_identical() {
    let mut r = request_from_cli(vec![
        FilterOption::Authors(strings(&["k1", "k2"])),
        FilterOption::Kinds(vec![3]),
        FilterOption::Limit(20),
    ]);
    let first = r.to_json();
    let second = r.to_json();
    assert_eq!(first, second);
    assert_eq!(first, r#"{"authors":["k1","k2"],"kinds":[3],"limit":20}"#);
}
