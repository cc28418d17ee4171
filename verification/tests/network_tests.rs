use reference_tool::models::Paper;
use reference_tool::network::CitationNetwork;

fn create_test_paper(id: &str, title: &str, arxiv_id: Option<&str>) -> Paper {
    Paper {
        id: id.to_string(),
        title: title.to_string(),
        authors: vec!["Test Author".to_string()],
        arxiv_id: arxiv_id.map(|s| s.to_string()),
        categories: vec!["hep-th".to_string()],
        year: Some(2023),
    }
}

fn ids(v: &[&str]) -> Vec<String> {
    v.iter().map(|s| s.to_string()).collect()
}

fn edges(list: &Vec<(String, Vec<String>)>, key: &str) -> Option<Vec<String>> {
    list.iter().find(|(k, _)| k == key).map(|(_, v)| v.clone())
}

fn is_consistent(network: &CitationNetwork) -> bool {
    let form = network.to_serializable_form();
    let forward = form.citations.iter().all(|(u, list)| {
        list.iter().all(|v| match edges(&form.reverse_citations, v) {
            Some(back) => back.contains(u),
            None => false,
        })
    });
    let backward = form.reverse_citations.iter().all(|(v, list)| {
        list.iter().all(|u| match edges(&form.citations, u) {
            Some(out) => out.contains(v),
            None => false,
        })
    });
    forward && backward
}

#[test]
fn test_new_network() {
    let network = CitationNetwork::new();
    assert!(network.papers.is_empty());
    assert!(network.citations.is_empty());
    assert!(network.reverse_citations.is_empty());
}

#[test]
fn test_add_paper() {
    let mut network = CitationNetwork::new();
    let paper = create_test_paper("123", "Test Paper", Some("2301.12345"));

    network.add_paper(paper.clone());

    assert_eq!(network.papers.len(), 1);
    assert!(network.papers.contains_key("123"));
    assert_eq!(network.papers.get("123").unwrap().title, "Test Paper");
}

#[test]
fn test_get_all_papers() {
    let mut network = CitationNetwork::new();
    let paper1 = create_test_paper("123", "Paper 1", Some("2301.12345"));
    let paper2 = create_test_paper("456", "Paper 2", Some("2301.67890"));

    network.add_paper(paper1);
    network.add_paper(paper2);

    let all_papers = network.get_all_papers();
    assert_eq!(all_papers.len(), 2);

    let titles: Vec<&String> = all_papers.iter().map(|p| &p.title).collect();
    assert!(titles.contains(&&"Paper 1".to_string()));
    assert!(titles.contains(&&"Paper 2".to_string()));
}

#[test]
fn papers_come_in_the_order_of_first_insertion() {
    let mut network = CitationNetwork::new();
    network.add_paper(create_test_paper("b", "B", None));
    network.add_paper(create_test_paper("a", "A", None));
    network.add_paper(create_test_paper("c", "C", None));
    network.add_paper(create_test_paper("a", "A again", None));
    let titles: Vec<String> = network.get_all_papers().iter().map(|p| p.title.clone()).collect();
    assert_eq!(titles, vec!["B", "A again", "C"]);
    assert_eq!(network.paper_count(), 3);
}

#[test]
fn add_paper_twice_keeps_the_count_and_the_second_paper() {
    let mut network = CitationNetwork::new();
    network.add_paper(create_test_paper("7", "First", Some("1")));
    assert_eq!(network.papers.len(), 1);
    network.add_paper(create_test_paper("7", "Second", None));
    assert_eq!(network.papers.len(), 1);
    assert_eq!(network.paper_count(), 1);
    let stored = network.papers.get("7").unwrap();
    assert_eq!(stored.title, "Second");
    assert_eq!(stored.arxiv_id, None);
}

#[test]
fn add_paper_touches_no_edge() {
    let mut network = CitationNetwork::new();
    network.add_citation("1", "2");
    network.add_paper(create_test_paper("1", "One", None));
    assert_eq!(network.citations.len(), 1);
    assert_eq!(network.reverse_citations.len(), 1);
    assert_eq!(network.citations.get("1").unwrap(), &ids(&["2"]));
}

#[test]
fn add_citation_appends_in_both_directions() {
    let mut network = CitationNetwork::new();
    network.add_citation("1", "2");
    network.add_citation("1", "3");
    network.add_citation("4", "2");
    assert_eq!(network.citations.get("1").unwrap(), &ids(&["2", "3"]));
    assert_eq!(network.citations.get("4").unwrap(), &ids(&["2"]));
    assert!(network.citations.get("2").is_none());
    assert_eq!(network.reverse_citations.get("2").unwrap(), &ids(&["1", "4"]));
    assert_eq!(network.reverse_citations.get("3").unwrap(), &ids(&["1"]));
    assert!(is_consistent(&network));
}

#[test]
fn add_citation_keeps_duplicates() {
    let mut network = CitationNetwork::new();
    network.add_citation("1", "2");
    network.add_citation("1", "2");
    assert_eq!(network.citations.get("1").unwrap(), &ids(&["2", "2"]));
    assert_eq!(network.reverse_citations.get("2").unwrap(), &ids(&["1", "1"]));
    assert_eq!(network.get_stats().total_citations, 2);
}

#[test]
fn add_citations_sets_the_list_and_credits_each_target() {
    let mut network = CitationNetwork::new();
    network.add_citations("r", ids(&["a", "b", "a"]));
    assert_eq!(network.citations.get("r").unwrap(), &ids(&["a", "b", "a"]));
    assert_eq!(network.reverse_citations.get("a").unwrap(), &ids(&["r", "r"]));
    assert_eq!(network.reverse_citations.get("b").unwrap(), &ids(&["r"]));
    assert!(is_consistent(&network));
}

#[test]
fn add_citations_replaces_the_list_but_appends_to_reverse_lists() {
    let mut network = CitationNetwork::new();
    network.add_citations("r", ids(&["a"]));
    network.add_citations("r", ids(&["b"]));
    assert_eq!(network.citations.get("r").unwrap(), &ids(&["b"]));
    assert_eq!(network.reverse_citations.get("a").unwrap(), &ids(&["r"]));
    assert_eq!(network.reverse_citations.get("b").unwrap(), &ids(&["r"]));
    assert_eq!(network.citations.len(), 1);
}

#[test]
fn add_citations_with_an_empty_list_records_the_key() {
    let mut network = CitationNetwork::new();
    network.add_citations("r", vec![]);
    assert!(network.citations.contains_key("r"));
    assert_eq!(network.citations.get("r").unwrap().len(), 0);
    assert!(network.reverse_citations.is_empty());
    let stats = network.get_stats();
    assert_eq!(stats.total_citations, 0);
    assert_eq!(stats.papers_with_references, 0);
    assert_eq!(stats.papers_being_cited, 0);
    assert!(is_consistent(&network));
}

#[test]
fn stats_count_edges_and_nonempty_lists() {
    let mut network = CitationNetwork::new();
    network.add_paper(create_test_paper("1", "One", None));
    network.add_paper(create_test_paper("2", "Two", None));
    network.add_paper(create_test_paper("3", "Three", None));
    network.add_citations("1", ids(&["2", "3"]));
    network.add_citations("2", ids(&["3"]));
    network.add_citations("3", vec![]);
    let stats = network.get_stats();
    assert_eq!(stats.total_papers, 3);
    assert_eq!(stats.total_citations, 3);
    assert_eq!(stats.papers_with_references, 2);
    assert_eq!(stats.papers_being_cited, 2);
    let form = network.to_serializable_form();
    let sum: usize = form.citations.iter().map(|(_, v)| v.len()).sum();
    assert_eq!(stats.total_citations, sum as u128);
}

#[test]
fn stats_of_the_empty_network() {
    let stats = CitationNetwork::new().get_stats();
    assert_eq!(stats.total_papers, 0);
    assert_eq!(stats.total_citations, 0);
    assert_eq!(stats.papers_with_references, 0);
    assert_eq!(stats.papers_being_cited, 0);
}

#[test]
fn citing_and_cited_papers_skip_unknown_identifiers() {
    let mut network = CitationNetwork::new();
    network.add_paper(create_test_paper("1", "One", None));
    network.add_paper(create_test_paper("3", "Three", None));
    network.add_citations("1", ids(&["2", "3", "4"]));
    network.add_citation("5", "3");
    let cited: Vec<String> = network.get_cited_papers("1").iter().map(|p| p.id.clone()).collect();
    assert_eq!(cited, vec!["3"]);
    let citing: Vec<String> = network.get_citing_papers("3").iter().map(|p| p.id.clone()).collect();
    assert_eq!(citing, vec!["1"]);
    assert!(network.get_cited_papers("none").is_empty());
    assert!(network.get_citing_papers("none").is_empty());
    assert!(network.get_citing_papers("1").is_empty());
}

#[test]
fn cited_papers_follow_the_edge_list_with_repeats() {
    let mut network = CitationNetwork::new();
    network.add_paper(create_test_paper("a", "A", None));
    network.add_paper(create_test_paper("b", "B", None));
    network.add_citations("r", ids(&["b", "a", "b"]));
    let cited: Vec<String> = network.get_cited_papers("r").iter().map(|p| p.title.clone()).collect();
    assert_eq!(cited, vec!["B", "A", "B"]);
}

#[test]
fn serializable_form_is_verbatim() {
    let mut network = CitationNetwork::new();
    network.add_paper(create_test_paper("1", "One", Some("x.1")));
    network.add_paper(create_test_paper("2", "Two", None));
    network.add_citations("1", ids(&["2", "9"]));
    let form = network.to_serializable_form();
    assert_eq!(form.papers.len(), 2);
    assert_eq!(form.papers[0].0, "1");
    assert_eq!(form.papers[0].1.title, "One");
    assert_eq!(form.papers[0].1.arxiv_id, Some("x.1".to_string()));
    assert_eq!(form.papers[1].0, "2");
    assert_eq!(form.papers[1].1.title, "Two");
    assert_eq!(form.citations, vec![("1".to_string(), ids(&["2", "9"]))]);
    assert_eq!(
        form.reverse_citations,
        vec![("2".to_string(), ids(&["1"])), ("9".to_string(), ids(&["1"]))]
    );
}

#[test]
fn many_papers_are_found_again() {
    let mut network = CitationNetwork::new();
    for i in 0..500 {
        network.add_paper(create_test_paper(&format!("id{}", i), &format!("Paper {}", i), None));
    }
    assert_eq!(network.paper_count(), 500);
    for i in 0..500 {
        assert_eq!(network.papers.get(&format!("id{}", i)).unwrap().title, format!("Paper {}", i));
    }
    assert!(!network.papers.contains_key("id500"));
}
