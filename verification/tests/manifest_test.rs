use templatize::Evaluator;
use templatize::Field;
use templatize::evaluator::ManifestError;
use templatize::template::Template as LibTemplate;
use templatize::templates::Template;
use templatize::templates::TemplateList;

#[test]
fn evaluator_new_holds_given_units() {
    let t = LibTemplate::new("a.txt", "tpl", Some("out"), "hi %X%");
    let eval = Evaluator::new(vec![t]);
    assert_eq!(eval.template_count(), 1);
    let jobs = eval.evaluate(&[Field::new("X", "y")]);
    assert_eq!(jobs.len(), 1);
    assert_eq!(jobs[0].text, "hi y");
    assert_eq!(jobs[0].dest_path, "out/a.txt");
}

#[test]
fn evaluator_manifest_defaults_and_units() {
    let manifest = "{\
        \"default_relative_dir\": \"tpl\",\
        \"default_dest_dir\": \"out\",\
        \"templates\": [\
            {\"file_name\": \"a.txt\"},\
            {\"file_name\": \"b.txt\", \"dest_dir\": \"own\", \"alt_dest_name\": \"renamed.txt\"}\
        ]\
    }";
    let mut eval = Evaluator::from_json(manifest).expect("manifest should load");
    assert_eq!(eval.template_count(), 2);
    assert!(eval.scan_root().is_none());
    assert_eq!(eval.source_path_at(0), "tpl/a.txt");
    eval.resolve_at(0, "hello %WHO%");
    eval.resolve_at(1, "%WHO%!");
    let fields = vec![Field::new("WHO", "world")];
    let jobs = eval.evaluate(&fields);
    assert_eq!(jobs.len(), 2);
    assert_eq!(jobs[0].text, "hello world");
    assert_eq!(jobs[0].source_path, "tpl/a.txt");
    assert_eq!(jobs[0].dest_dir, "out");
    assert_eq!(jobs[0].dest_path, "out/a.txt");
    assert_eq!(jobs[1].text, "world!");
    assert_eq!(jobs[1].dest_dir, "own");
    assert_eq!(jobs[1].dest_path, "own/renamed.txt");
}

#[test]
fn evaluator_files_alias_and_scan_root() {
    let manifest = "{\"default_relative_dir\": \"tpl\", \"files\": []}";
    let eval = Evaluator::from_json(manifest).expect("manifest should load");
    assert_eq!(eval.template_count(), 0);
    assert_eq!(eval.scan_root().as_deref(), Some("tpl"));

    let manifest = "{\"files\": [{\"file_name\": \"a.txt\"}]}";
    let eval = Evaluator::from_json(manifest).expect("manifest should load");
    assert_eq!(eval.template_count(), 1);
    assert!(eval.scan_root().is_none());
}

#[test]
fn evaluator_manifest_parse_error() {
    match Evaluator::from_json("{ not json") {
        Err(ManifestError::Parse(msg)) => assert!(!msg.is_empty()),
        _ => panic!("malformed text must be a parse error"),
    }
}

#[test]
fn evaluator_manifest_structure_errors() {
    assert!(matches!(Evaluator::from_json("[1]"), Err(ManifestError::Structure)));
    assert!(matches!(
        Evaluator::from_json("{\"templates\": [{}]}"),
        Err(ManifestError::Structure)
    ));
    assert!(matches!(
        Evaluator::from_json("{\"templates\": 5}"),
        Err(ManifestError::Structure)
    ));
    assert!(matches!(
        Evaluator::from_json("{\"default_dest_dir\": 5}"),
        Err(ManifestError::Structure)
    ));
}

#[test]
fn evaluator_skips_empty_units() {
    let manifest = "{\"templates\": [{\"file_name\": \"a.txt\"}]}";
    let eval = Evaluator::from_json(manifest).expect("manifest should load");
    let jobs = eval.evaluate(&[]);
    assert_eq!(jobs.len(), 0);
}

#[test]
fn evaluator_mixed_units_keep_order_and_skip_empty() {
    let manifest = "{\"templates\": [\
        {\"file_name\": \"a.txt\"},\
        {\"file_name\": \"b.txt\"},\
        {\"file_name\": \"c.txt\"}\
    ]}";
    let mut eval = Evaluator::from_json(manifest).expect("manifest should load");
    eval.resolve_at(0, "first");
    eval.resolve_at(1, "");
    eval.resolve_at(2, "third");
    let jobs = eval.evaluate(&[]);
    assert_eq!(jobs.len(), 2);
    assert_eq!(jobs[0].text, "first");
    assert_eq!(jobs[1].text, "third");
}

#[test]
fn evaluator_unit_directories_win_over_defaults() {
    let manifest = "{\
        \"default_relative_dir\": \"tpl\",\
        \"default_dest_dir\": \"out\",\
        \"templates\": [{\"file_name\": \"b.txt\", \"relative_dir\": \"own_tpl\"}]\
    }";
    let mut eval = Evaluator::from_json(manifest).expect("manifest should load");
    assert_eq!(eval.source_path_at(0), "own_tpl/b.txt");
    eval.resolve_at(0, "body");
    let jobs = eval.evaluate(&[]);
    assert_eq!(jobs[0].source_path, "own_tpl/b.txt");
    assert_eq!(jobs[0].dest_dir, "out");
}

#[test]
fn template_list_manifest_and_env_mode() {
    let manifest = "{\
        \"parent\": \"tpl\",\
        \"templates\": [\
            {\"src\": \"a.txt\", \"dest\": \"out\"},\
            {\"src\": \"b.txt\", \"dest\": \"out\", \"eval_as_env\": true}\
        ]\
    }";
    let list = TemplateList::from_json(manifest).expect("manifest should load");
    assert_eq!(list.template_count(), 2);
    assert_eq!(list.parent_dir(), "tpl");
    assert_eq!(list.source_path_at(1), "tpl/b.txt");

    let fields = vec![("WHO".to_string(), "WHO_VAR".to_string())];
    let env = vec![("WHO_VAR".to_string(), "from env".to_string())];
    let contents = vec![Some("hi %WHO%".to_string()), Some("hi %WHO%".to_string())];
    let jobs = list.evaluate(&fields, &env, &contents).expect("all units should render");
    assert_eq!(jobs.len(), 2);
    assert_eq!(jobs[0].text, "hi WHO_VAR");
    assert_eq!(jobs[1].text, "hi from env");
    assert_eq!(jobs[1].source_path, "tpl/b.txt");
    assert_eq!(jobs[1].dest_path, "out/b.txt");
}

#[test]
fn template_env_mode_falls_back_to_literal_value() {
    let t = Template::new("a.txt", "out");
    let fields = vec![("WHO".to_string(), "WHO_VAR".to_string())];
    let env: Vec<(String, String)> = vec![];
    let job = t.evaluate(&fields, "tpl", &env, "hi %WHO%");
    assert_eq!(job.text, "hi WHO_VAR");
}

#[test]
fn template_list_missing_source_stops_the_batch() {
    let list = TemplateList::new("tpl", &["tpl/a.txt".to_string(), "tpl/b.txt".to_string()]);
    let contents = vec![Some("x".to_string()), None];
    match list.evaluate(&[], &[], &contents) {
        Err(k) => assert_eq!(k, 1),
        Ok(_) => panic!("a missing source must stop the batch"),
    }
}

#[test]
fn template_list_new_mirrors_containing_directory() {
    let list = TemplateList::new("tpl", &["tpl/a.txt".to_string(), "tpl/sub/b.txt".to_string()]);
    assert_eq!(list.template_count(), 2);
    assert_eq!(list.parent_dir(), "tpl");
    let contents = vec![Some("x".to_string()), Some("y".to_string())];
    let jobs = list.evaluate(&[], &[], &contents).expect("all units should render");
    assert_eq!(jobs[0].dest_dir, "tpl");
    assert_eq!(jobs[0].dest_path, "tpl/a.txt");
    assert_eq!(jobs[1].dest_dir, "tpl/sub");
    assert_eq!(jobs[1].dest_path, "tpl/sub/b.txt");
}

#[test]
fn evaluator_from_discovered_mirrors_directories() {
    let files = vec![
        ("tree/a.txt".to_string(), "hi %X%".to_string()),
        ("tree/sub/b.txt".to_string(), "bye %X%".to_string()),
    ];
    let eval = Evaluator::from_discovered(&files);
    assert_eq!(eval.template_count(), 2);
    let jobs = eval.evaluate(&[Field::new("X", "y")]);
    assert_eq!(jobs.len(), 2);
    assert_eq!(jobs[0].source_path, "tree/a.txt");
    assert_eq!(jobs[0].dest_dir, "tree");
    assert_eq!(jobs[0].dest_path, "tree/a.txt");
    assert_eq!(jobs[0].text, "hi y");
    assert_eq!(jobs[1].source_path, "tree/sub/b.txt");
    assert_eq!(jobs[1].dest_dir, "tree/sub");
    assert_eq!(jobs[1].dest_path, "tree/sub/b.txt");
    assert_eq!(jobs[1].text, "bye y");
}

#[test]
fn template_list_manifest_requires_parent() {
    assert!(matches!(
        TemplateList::from_json("{\"templates\": []}"),
        Err(ManifestError::Structure)
    ));
    assert!(matches!(
        TemplateList::from_json("{\"parent\": \"tpl\"}"),
        Err(ManifestError::Structure)
    ));
    assert!(matches!(TemplateList::from_json("not json"), Err(ManifestError::Parse(_))));
}
