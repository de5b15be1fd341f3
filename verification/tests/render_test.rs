use templatize::Field;
use templatize::replace_all_str;
use templatize::template::Template;

#[test]
fn replace_all_exact_values() {
    assert_eq!(replace_all_str("a%X%b", "%X%", "1"), "a1b");
    assert_eq!(replace_all_str("%X%%X%", "%X%", "1"), "11");
    assert_eq!(replace_all_str("no placeholder", "%X%", "1"), "no placeholder");
    assert_eq!(replace_all_str("", "%X%", "1"), "");
}

#[test]
fn replace_all_never_overlaps() {
    assert_eq!(replace_all_str("aaa", "aa", "b"), "ba");
}

#[test]
fn replacement_is_not_rescanned_within_one_pass() {
    assert_eq!(replace_all_str("%X%", "%X%", "%X%%X%"), "%X%%X%");
}

#[test]
fn single_placeholder_round_trip() {
    let t = Template::new("t.txt", "src", None, "%NAME%");
    let fields = vec![Field::new("NAME", "value")];
    let job = t.evaluate(&fields).expect("unit should render");
    assert_eq!(job.text, "value");
}

#[test]
fn cumulative_substitution_hazard() {
    let t = Template::new("t.txt", "src", None, "%A%");
    let fields = vec![Field::new("A", "%B%"), Field::new("B", "x")];
    let job = t.evaluate(&fields).expect("unit should render");
    assert_eq!(job.text, "x");
}

#[test]
fn missing_placeholder_left_unchanged() {
    let t = Template::new("t.txt", "src", None, "keep %UNKNOWN% here");
    let fields = vec![Field::new("OTHER", "x")];
    let job = t.evaluate(&fields).expect("unit should render");
    assert_eq!(job.text, "keep %UNKNOWN% here");
}

#[test]
fn empty_content_unit_is_a_no_op() {
    let t = Template::new("t.txt", "src", None, "");
    let fields = vec![Field::new("NAME", "value")];
    assert!(t.evaluate(&fields).is_none());
}

#[test]
fn unit_paths_are_resolved() {
    let t = Template::new("file.txt", "tpl", Some("out"), "body");
    let job = t.evaluate(&[]).expect("unit should render");
    assert_eq!(job.source_path, "tpl/file.txt");
    assert_eq!(job.dest_dir, "out");
    assert_eq!(job.dest_path, "out/file.txt");
    assert_eq!(job.text, "body");
}

#[test]
fn from_path_splits_at_last_slash() {
    let t = Template::from_path("a/b/c.txt", "body");
    let job = t.evaluate(&[]).expect("unit should render");
    assert_eq!(job.source_path, "a/b/c.txt");
}

#[test]
fn from_path_without_slash_has_empty_dir() {
    let t = Template::from_path("c.txt", "body");
    let job = t.evaluate(&[]).expect("unit should render");
    assert_eq!(job.source_path, "/c.txt");
}

#[test]
fn from_discovered_regenerates_in_place() {
    let t = Template::from_discovered("a/b/c.txt", "body %X%");
    let fields = vec![Field::new("X", "y")];
    let job = t.evaluate(&fields).expect("unit should render");
    assert_eq!(job.source_path, "a/b/c.txt");
    assert_eq!(job.dest_dir, "a/b");
    assert_eq!(job.dest_path, "a/b/c.txt");
    assert_eq!(job.text, "body y");
}
