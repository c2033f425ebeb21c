use meta_project::json::{Json, Member};
use meta_project::manifest::{
    find_manifest, manifest_candidates, parse_manifest, parse_manifest_text, projects_from_json,
    FileContent, FileProbe, ManifestFormat, ParseError, ProjectRecord,
};

fn record(path: &str, repo: Option<&str>, tags: &[&str]) -> ProjectRecord {
    ProjectRecord {
        path: path.to_string(),
        repo: repo.map(|r| r.to_string()),
        tags: tags.iter().map(|t| t.to_string()).collect(),
    }
}

fn parsed(text: &str) -> Vec<ProjectRecord> {
    match parse_manifest_text(text) {
        Ok(records) => records,
        Err(error) => panic!("the manifest should parse: {:?}", error),
    }
}

#[test]
fn plain_string_entry_is_a_remote() {
    let records = parsed("{\"projects\": {\"alpha\": \"https://x/a.git\"}}");
    assert_eq!(records, vec![record("alpha", Some("https://x/a.git"), &[])]);
}

#[test]
fn structured_entry_gives_repo_and_tags() {
    let records = parsed(
        "{\"projects\": {\"core\": {\"repo\": \"git@h:core.git\", \"tags\": [\"lib\", \"rust\"]}}}",
    );
    assert_eq!(records, vec![record("core", Some("git@h:core.git"), &["lib", "rust"])]);
}

#[test]
fn structured_entry_may_lack_repo_and_tags() {
    let records = parsed("{\"projects\": {\"docs\": {}, \"notes\": {\"tags\": [\"text\"]}}}");
    assert_eq!(records, vec![record("docs", None, &[]), record("notes", None, &["text"])]);
}

#[test]
fn repo_that_is_no_string_counts_as_absent() {
    let records = parsed("{\"projects\": {\"a\": {\"repo\": 5, \"tags\": \"x\"}}}");
    assert_eq!(records, vec![record("a", None, &[])]);
}

#[test]
fn tags_keep_only_their_strings() {
    let records = parsed("{\"projects\": {\"a\": {\"tags\": [\"x\", 1, null, \"y\", [\"z\"]]}}}");
    assert_eq!(records, vec![record("a", None, &["x", "y"])]);
}

#[test]
fn entries_of_other_kinds_are_skipped() {
    let records = parsed(
        "{\"projects\": {\"a\": 1, \"b\": \"u\", \"c\": null, \"d\": [\"u\"], \"e\": true, \"f\": \"v\"}}",
    );
    assert_eq!(records, vec![record("b", Some("u"), &[]), record("f", Some("v"), &[])]);
}

#[test]
fn entries_keep_document_order() {
    let records = parsed("{\"projects\": {\"zeta\": \"u1\", \"alpha\": \"u2\", \"mid\": \"u3\"}}");
    let paths: Vec<&str> = records.iter().map(|r| r.path.as_str()).collect();
    assert_eq!(paths, vec!["zeta", "alpha", "mid"]);
}

#[test]
fn entries_with_invalid_paths_are_skipped() {
    let records = parsed(
        "{\"projects\": {\"\": \"u0\", \"../out\": \"u1\", \"ok\": \"u2\", \"a/../b\": \"u3\"}}",
    );
    assert_eq!(records, vec![record("ok", Some("u2"), &[])]);
}

#[test]
fn a_key_that_is_written_twice_declares_one_project() {
    let records = parsed("{\"projects\": {\"a\": \"first\", \"b\": \"u\", \"a\": \"second\"}}");
    assert_eq!(records, vec![record("a", Some("second"), &[]), record("b", Some("u"), &[])]);
}

#[test]
fn empty_mapping_declares_nothing() {
    assert_eq!(parsed("{\"projects\": {}}"), vec![]);
}

#[test]
fn other_members_of_the_manifest_are_ignored() {
    let records = parsed("{\"ignore\": [\"x\"], \"projects\": {\"a\": \"u\"}, \"extra\": 1}");
    assert_eq!(records, vec![record("a", Some("u"), &[])]);
}

#[test]
fn text_that_is_not_json_is_a_format_error() {
    assert!(matches!(parse_manifest_text("{\"projects\": "), Err(ParseError::Format(_))));
    assert!(matches!(parse_manifest_text(""), Err(ParseError::Format(_))));
    assert!(matches!(parse_manifest_text("projects"), Err(ParseError::Format(_))));
}

#[test]
fn syntax_error_carries_the_parsers_account() {
    match parse_manifest_text("{\"projects\": {\"a\" \"u\"}}") {
        Err(ParseError::Format(cause)) => {
            assert!(cause.contains("line 1"), "cause was {:?}", cause);
        }
        other => panic!("expected a format error, got {:?}", other),
    }
}

#[test]
fn missing_projects_key_is_a_format_error() {
    assert_eq!(
        parse_manifest_text("{\"name\": \"x\"}"),
        Err(ParseError::Format("No 'projects' key in .meta".to_string()))
    );
}

#[test]
fn projects_that_is_no_mapping_is_a_format_error() {
    for text in ["{\"projects\": [\"a\"]}", "{\"projects\": \"a\"}", "{\"projects\": null}", "[1]", "3"] {
        assert_eq!(
            parse_manifest_text(text),
            Err(ParseError::Format("No 'projects' key in .meta".to_string())),
            "for {}",
            text
        );
    }
}

#[test]
fn unreadable_file_is_an_io_error() {
    let content = FileContent::Unreadable("permission denied".to_string());
    assert_eq!(
        parse_manifest(&content, ManifestFormat::Json),
        Err(ParseError::Io("permission denied".to_string()))
    );
}

#[test]
fn readable_file_is_parsed_by_its_format() {
    let content = FileContent::Text("{\"projects\": {\"a\": \"u\"}}".to_string());
    assert_eq!(
        parse_manifest(&content, ManifestFormat::Json),
        Ok(vec![record("a", Some("u"), &[])])
    );
}

#[test]
fn records_from_a_document_built_by_hand() {
    let doc = Json::object(vec![Member::new(
        "projects",
        Json::object(vec![
            Member::new("one", Json::text("u1")),
            Member::new("skip", Json::Null),
            Member::new(
                "two",
                Json::object(vec![
                    Member::new("tags", Json::array(vec![Json::text("t")])),
                    Member::new("repo", Json::text("u2")),
                ]),
            ),
        ]),
    )]);
    assert_eq!(
        projects_from_json(&doc),
        Ok(vec![record("one", Some("u1"), &[]), record("two", Some("u2"), &["t"])])
    );
}

#[test]
fn document_that_is_no_object_declares_no_projects() {
    assert_eq!(
        projects_from_json(&Json::array(vec![])),
        Err(ParseError::Format("No 'projects' key in .meta".to_string()))
    );
}

#[test]
fn document_lookup_takes_the_first_member_of_a_key() {
    let doc = Json::object(vec![
        Member::new("k", Json::text("first")),
        Member::new("k", Json::text("second")),
    ]);
    assert_eq!(doc.get("k"), Some(&Json::text("first")));
    assert_eq!(doc.get("other"), None);
    assert_eq!(Json::Null.get("k"), None);
}

#[test]
fn document_accessors_tell_the_kinds_apart() {
    assert_eq!(Json::text("t").as_text(), Some(&"t".to_string()));
    assert_eq!(Json::Bool(true).as_text(), None);
    assert_eq!(Json::array(vec![Json::Null]).as_array(), Some(&vec![Json::Null]));
    assert_eq!(Json::text("t").as_array(), None);
    assert!(Json::object(vec![]).as_object().is_some());
    assert!(Json::array(vec![]).as_object().is_none());
}

#[test]
fn record_constructor_checks_the_path() {
    assert_eq!(
        ProjectRecord::new("a/b".to_string(), None, vec!["t".to_string()]),
        Some(record("a/b", None, &["t"]))
    );
    assert_eq!(ProjectRecord::new("".to_string(), None, vec![]), None);
    assert_eq!(ProjectRecord::new("a/..".to_string(), Some("u".to_string()), vec![]), None);
}

#[test]
fn record_clone_is_equal() {
    let first = record("a", Some("u"), &["x", "y"]);
    assert_eq!(first.clone(), first);
}

#[test]
fn the_one_candidate_is_the_meta_file() {
    let table = manifest_candidates();
    assert_eq!(table.len(), 1);
    assert_eq!(table[0].file_name, ".meta");
    assert_eq!(table[0].format, ManifestFormat::Json);
}

#[test]
fn manifest_is_found_by_its_name() {
    let files = vec![
        FileProbe { name: "README.md".to_string(), content: FileContent::Text("x".to_string()) },
        FileProbe { name: ".meta".to_string(), content: FileContent::Text("{}".to_string()) },
    ];
    assert_eq!(
        find_manifest("/work", &files),
        Some(("/work/.meta".to_string(), ManifestFormat::Json))
    );
}

#[test]
fn directory_without_candidate_has_no_manifest() {
    let files = vec![FileProbe {
        name: "meta".to_string(),
        content: FileContent::Text("{}".to_string()),
    }];
    assert_eq!(find_manifest("/work", &files), None);
    assert_eq!(find_manifest("/work", &vec![]), None);
}
