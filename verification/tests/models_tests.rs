use reference_tool::models::{Paper, Reference};

fn reference(title: &str, authors: &[&str], year: Option<u32>) -> Reference {
    Reference {
        title: title.to_string(),
        authors: authors.iter().map(|a| a.to_string()).collect(),
        arxiv_id: None,
        inspire_id: None,
        categories: vec![],
        year,
    }
}

#[test]
fn test_paper_creation() {
    let paper = Paper {
        id: "123456".to_string(),
        title: "Test Paper".to_string(),
        authors: vec!["John Doe".to_string(), "Jane Smith".to_string()],
        arxiv_id: Some("2301.12345".to_string()),
        categories: vec!["hep-th".to_string(), "hep-ph".to_string()],
        year: Some(2023),
    };

    assert_eq!(paper.id, "123456");
    assert_eq!(paper.title, "Test Paper");
    assert_eq!(paper.authors.len(), 2);
    assert_eq!(paper.arxiv_id, Some("2301.12345".to_string()));
    assert_eq!(paper.categories.len(), 2);
    assert_eq!(paper.year, Some(2023));
}

#[test]
fn test_reference_to_bibtex() {
    let reference = Reference {
        title: "A Study of Quantum Field Theory".to_string(),
        authors: vec!["John Doe".to_string(), "Jane Smith".to_string()],
        arxiv_id: Some("2301.12345".to_string()),
        inspire_id: Some("789012".to_string()),
        categories: vec!["hep-th".to_string()],
        year: Some(2023),
    };

    let bibtex = reference.to_bibtex();

    assert!(bibtex.contains("@article{"));
    assert!(bibtex.contains("title = {A Study of Quantum Field Theory}"));
    assert!(bibtex.contains("author = {John Doe and Jane Smith}"));
    assert!(bibtex.contains("year = {2023}"));
    assert!(bibtex.contains("eprint = {2301.12345}"));
    assert!(bibtex.contains("archivePrefix = {arXiv}"));
    assert!(bibtex.contains("primaryClass = {hep-th}"));
}

#[test]
fn test_reference_to_bibtex_minimal() {
    let reference = Reference {
        title: "Minimal Reference".to_string(),
        authors: vec![],
        arxiv_id: None,
        inspire_id: None,
        categories: vec![],
        year: None,
    };

    let bibtex = reference.to_bibtex();

    assert!(bibtex.contains("@article{"));
    assert!(bibtex.contains("title = {Minimal Reference}"));
    assert!(!bibtex.contains("author ="));
    assert!(!bibtex.contains("year ="));
    assert!(!bibtex.contains("eprint ="));
}

#[test]
fn test_generate_bibtex_key() {
    let reference = Reference {
        title: "Quantum Field Theory in Curved Spacetime".to_string(),
        authors: vec!["John von Doe".to_string()],
        arxiv_id: None,
        inspire_id: None,
        categories: vec![],
        year: Some(2023),
    };

    let key = reference.generate_bibtex_key();
    assert!(key.contains("Doe"));
    assert!(key.contains("2023"));
    assert!(key.contains("Quantum"));
    assert!(key.chars().all(|c| c.is_alphanumeric()));
}

#[test]
fn test_generate_bibtex_key_no_author() {
    let reference = Reference {
        title: "Anonymous Paper".to_string(),
        authors: vec![],
        arxiv_id: None,
        inspire_id: None,
        categories: vec![],
        year: Some(2023),
    };

    let key = reference.generate_bibtex_key();
    assert!(key.contains("Unknown"));
    assert!(key.contains("2023"));
    assert!(key.contains("Anonymous"));
}

#[test]
fn bibtex_key_is_exact() {
    let r = reference("Quantum Field Theory in Curved Spacetime", &["John von Doe"], Some(2023));
    assert_eq!(r.generate_bibtex_key(), "Doe2023QuantumField");
}

#[test]
fn bibtex_key_without_author_or_year() {
    let r = reference("Anonymous Paper", &[], None);
    assert_eq!(r.generate_bibtex_key(), "UnknownYYYYAnonymousPaper");
}

#[test]
fn bibtex_key_with_blank_author_name() {
    let r = reference("One", &["   ", "Jane Roe"], Some(7));
    assert_eq!(r.generate_bibtex_key(), "Unknown7One");
}

#[test]
fn bibtex_key_drops_what_is_not_alphanumeric() {
    let r = reference("  Spin-1/2 (and more): a study ", &["J. O'Neil-Smith"], Some(1987));
    assert_eq!(r.generate_bibtex_key(), "ONeilSmith1987Spin12and");
}

#[test]
fn bibtex_key_keeps_letters_beyond_ascii() {
    let r = reference("Über Gravitation", &["Erwin Schrödinger"], Some(1926));
    assert_eq!(r.generate_bibtex_key(), "Schrödinger1926ÜberGravitation");
}

#[test]
fn bibtex_key_with_empty_title() {
    let r = reference("", &["A B"], Some(0));
    assert_eq!(r.generate_bibtex_key(), "B0");
}

#[test]
fn bibtex_entry_is_exact() {
    let r = Reference {
        title: "T".to_string(),
        authors: vec!["Albert Einstein".to_string(), "Niels Bohr".to_string()],
        arxiv_id: Some("quant-ph/9901001".to_string()),
        inspire_id: None,
        categories: vec!["quant-ph".to_string()],
        year: Some(1999),
    };
    assert_eq!(
        r.to_bibtex(),
        "@article{Einstein1999T,\n  title = {T},\n  author = {Albert Einstein and Niels Bohr},\n  year = {1999},\n  eprint = {quant-ph/9901001},\n  archivePrefix = {arXiv},\n  primaryClass = {quant-ph},\n}\n"
    );
}

#[test]
fn bibtex_rendering_of_two_authors() {
    let r = Reference {
        title: "T".to_string(),
        authors: vec!["Albert Einstein".to_string(), "Niels Bohr".to_string()],
        arxiv_id: Some("quant-ph/9901001".to_string()),
        inspire_id: None,
        categories: vec!["quant-ph".to_string()],
        year: Some(1999),
    };
    let bibtex = r.to_bibtex();
    assert!(bibtex.contains("title = {T}"));
    assert!(bibtex.contains("author = {Albert Einstein and Niels Bohr}"));
    assert!(bibtex.contains("year = {1999}"));
    assert!(bibtex.contains("eprint = {quant-ph/9901001}"));
    assert!(bibtex.contains("archivePrefix = {arXiv}"));
    assert!(bibtex.contains("primaryClass = {quant-ph}"));
    let first_line = bibtex.lines().next().unwrap();
    assert_eq!(first_line, "@article{Einstein1999T,");
}

#[test]
fn bibtex_entry_minimal_is_exact() {
    let r = reference("Minimal Reference", &[], None);
    assert_eq!(
        r.to_bibtex(),
        "@article{UnknownYYYYMinimalReference,\n  title = {Minimal Reference},\n}\n"
    );
}

#[test]
fn bibtex_entry_leaves_out_an_empty_author_line() {
    let r = reference("X", &[""], None);
    assert_eq!(r.to_bibtex(), "@article{UnknownYYYYX,\n  title = {X},\n}\n");
}

#[test]
fn bibtex_entry_names_the_first_category_only() {
    let mut r = reference("X", &[], None);
    r.categories = vec!["hep-th".to_string(), "hep-ph".to_string()];
    assert_eq!(
        r.to_bibtex(),
        "@article{UnknownYYYYX,\n  title = {X},\n  primaryClass = {hep-th},\n}\n"
    );
}

#[test]
fn reference_with_identifier_becomes_a_paper() {
    let r = Reference {
        title: "Resolved".to_string(),
        authors: vec!["A".to_string()],
        arxiv_id: Some("1234.5678".to_string()),
        inspire_id: Some("42".to_string()),
        categories: vec!["hep-ex".to_string()],
        year: Some(2001),
    };
    let p = r.to_paper().unwrap();
    assert_eq!(p.id, "42");
    assert_eq!(p.title, "Resolved");
    assert_eq!(p.authors, vec!["A"]);
    assert_eq!(p.arxiv_id, Some("1234.5678".to_string()));
    assert_eq!(p.categories, vec!["hep-ex"]);
    assert_eq!(p.year, Some(2001));
}

#[test]
fn reference_without_identifier_becomes_no_paper() {
    let r = reference("Unresolved", &["A"], Some(2001));
    assert!(r.to_paper().is_none());
}

#[test]
fn clones_keep_every_field() {
    let p = Paper {
        id: "1".to_string(),
        title: "T".to_string(),
        authors: vec!["A".to_string(), "B".to_string()],
        arxiv_id: Some("x".to_string()),
        categories: vec!["c".to_string()],
        year: Some(5),
    };
    let q = p.clone();
    assert_eq!(q.id, p.id);
    assert_eq!(q.title, p.title);
    assert_eq!(q.authors, p.authors);
    assert_eq!(q.arxiv_id, p.arxiv_id);
    assert_eq!(q.categories, p.categories);
    assert_eq!(q.year, p.year);
    let r = Reference {
        title: "T".to_string(),
        authors: vec!["A".to_string()],
        arxiv_id: None,
        inspire_id: Some("9".to_string()),
        categories: vec![],
        year: None,
    };
    let s = r.clone();
    assert_eq!(s.title, r.title);
    assert_eq!(s.authors, r.authors);
    assert_eq!(s.arxiv_id, r.arxiv_id);
    assert_eq!(s.inspire_id, r.inspire_id);
    assert_eq!(s.categories, r.categories);
    assert_eq!(s.year, r.year);
}
