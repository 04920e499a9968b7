use painful_testing::admin::check_mapping;
use painful_testing::painless::{DocError, DocRole, FileRead};
use painful_testing::DocRef;

#[test]
fn raw_text_resolves_unchanged() {
    let doc = DocRef::Raw("{\"count\": 1}".to_string());
    let r = doc.resolve_with(FileRead::Missing);
    assert!(matches!(r, Ok(ref t) if t == "{\"count\": 1}"));
}

#[test]
fn raw_empty_text_resolves_unchanged() {
    let doc = DocRef::Raw(String::new());
    assert!(matches!(doc.resolve_with(FileRead::Content("x".to_string())), Ok(ref t) if t.is_empty()));
}

#[test]
fn existing_file_resolves_to_its_content() {
    let doc = DocRef::Filepath("state.json".to_string());
    let r = doc.resolve_with(FileRead::Content("{\"a\":[1,2]}\n".to_string()));
    assert!(matches!(r, Ok(ref t) if t == "{\"a\":[1,2]}\n"));
}

#[test]
fn missing_file_is_not_found() {
    let doc = DocRef::Filepath("nowhere/state.json".to_string());
    let r = doc.resolve_with(FileRead::Missing);
    assert!(matches!(r, Err(DocError::NotFound(ref p)) if p == "nowhere/state.json"));
}

#[test]
fn unreadable_file_is_io_error() {
    let doc = DocRef::Filepath("dir".to_string());
    let r = doc.resolve_with(FileRead::Failed("is a directory".to_string()));
    assert!(matches!(r, Err(DocError::IoError(ref m)) if m == "is a directory"));
}

#[test]
fn invalid_mapping_is_rejected() {
    let r = check_mapping(&"{\"mappings\": {\"properties\": ".to_string());
    assert!(matches!(r, Err(DocError::InvalidDocument(DocRole::Mapping))));
}

#[test]
fn mapping_that_is_not_an_object_is_rejected() {
    let r = check_mapping(&"[1, 2]".to_string());
    assert!(matches!(r, Err(DocError::InvalidDocument(DocRole::Mapping))));
}

#[test]
fn object_mapping_is_accepted() {
    let r = check_mapping(&"{\"mappings\": {\"properties\": {\"count\": {\"type\": \"long\"}}}}".to_string());
    match r {
        Ok(doc) => {
            let members = doc.members.expect("an object");
            assert_eq!(members.len(), 1);
            assert_eq!(members[0].0, "mappings");
            assert_eq!(members[0].1, "{\"properties\":{\"count\":{\"type\":\"long\"}}}");
        }
        Err(_) => panic!("mapping refused"),
    }
}
