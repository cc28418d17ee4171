use reference_tool::cli::{
    filter_by_categories, has_category, network_root, required_arxiv_id, UsageError,
};
use reference_tool::models::Reference;

fn reference(title: &str, categories: &[&str]) -> Reference {
    Reference {
        title: title.to_string(),
        authors: vec![],
        arxiv_id: None,
        inspire_id: None,
        categories: categories.iter().map(|c| c.to_string()).collect(),
        year: None,
    }
}

fn titles(references: &Vec<Reference>) -> Vec<String> {
    references.iter().map(|r| r.title.clone()).collect()
}

#[test]
fn the_identifier_of_the_command_comes_first() {
    assert_eq!(
        required_arxiv_id(Some("local".to_string()), Some("global".to_string())),
        Ok("local".to_string())
    );
    assert_eq!(required_arxiv_id(None, Some("global".to_string())), Ok("global".to_string()));
    assert_eq!(required_arxiv_id(Some("local".to_string()), None), Ok("local".to_string()));
    assert_eq!(required_arxiv_id(None, None), Err(UsageError::MissingArxivId));
}

#[test]
fn a_network_build_needs_its_flag() {
    assert_eq!(network_root(Some("a".to_string()), None, true), Ok("a".to_string()));
    assert_eq!(network_root(None, Some("g".to_string()), true), Ok("g".to_string()));
    assert_eq!(
        network_root(Some("a".to_string()), None, false),
        Err(UsageError::BuildNetworkRequired)
    );
    assert_eq!(network_root(None, None, false), Err(UsageError::MissingArxivId));
    assert_eq!(network_root(None, None, true), Err(UsageError::MissingArxivId));
}

#[test]
fn usage_errors_in_words() {
    assert_eq!(UsageError::MissingArxivId.to_string(), "ArXiv ID is required");
    assert_eq!(
        UsageError::BuildNetworkRequired.to_string(),
        "--build-network flag is required for network command"
    );
}

#[test]
fn references_are_filtered_by_category() {
    let references = vec![
        reference("a", &["hep-th"]),
        reference("b", &["hep-ex", "hep-ph"]),
        reference("c", &[]),
        reference("d", &["gr-qc"]),
        reference("e", &["hep-ph"]),
    ];
    let wanted = Some(vec!["hep-ph".to_string(), "hep-th".to_string()]);
    assert_eq!(titles(&filter_by_categories(references, wanted)), vec!["a", "b", "e"]);
}

#[test]
fn without_a_filter_every_reference_passes() {
    let references = vec![reference("a", &["hep-th"]), reference("c", &[])];
    assert_eq!(titles(&filter_by_categories(references, None)), vec!["a", "c"]);
}

#[test]
fn an_empty_filter_passes_nothing() {
    let references = vec![reference("a", &["hep-th"]), reference("c", &[])];
    assert!(filter_by_categories(references, Some(vec![])).is_empty());
}

#[test]
fn categories_are_compared_whole() {
    let r = reference("a", &["hep-th"]);
    assert!(has_category(&r, &vec!["hep-th".to_string()]));
    assert!(!has_category(&r, &vec!["hep".to_string(), "hep-th ".to_string()]));
    assert!(!has_category(&r, &vec![]));
    assert!(!has_category(&reference("b", &[]), &vec!["hep-th".to_string()]));
}

#[test]
fn a_kept_reference_keeps_its_fields() {
    let full = Reference {
        title: "T".to_string(),
        authors: vec!["A".to_string()],
        arxiv_id: Some("1".to_string()),
        inspire_id: Some("2".to_string()),
        categories: vec!["x".to_string()],
        year: Some(3),
    };
    let kept = filter_by_categories(vec![full], Some(vec!["x".to_string()]));
    assert_eq!(kept.len(), 1);
    assert_eq!(kept[0].title, "T");
    assert_eq!(kept[0].authors, vec!["A"]);
    assert_eq!(kept[0].arxiv_id, Some("1".to_string()));
    assert_eq!(kept[0].inspire_id, Some("2".to_string()));
    assert_eq!(kept[0].categories, vec!["x"]);
    assert_eq!(kept[0].year, Some(3));
}
