use openwiki::page_ranking::{top_page_summaries, PageMatch, PAGE_SUMMARY_LIMIT};

fn hit(id: &str, title: &str, summary: Option<&str>) -> PageMatch {
    PageMatch {
        id: id.to_string(),
        title: title.to_string(),
        summary: summary.map(|s| s.to_string()),
    }
}

#[test]
fn pages_ranked_by_hits_then_title() {
    let terms = vec![
        vec![hit("p1", "Beta", None), hit("p2", "Alpha", Some("a"))],
        vec![hit("p1", "Beta", Some("b")), hit("p3", "Gamma", Some("g"))],
        vec![hit("p3", "Gamma", Some("g")), hit("p4", "Aardvark", None)],
    ];
    let r = top_page_summaries(&terms);
    let ids: Vec<&str> = r.iter().map(|p| p.id.as_str()).collect();
    // p1 and p3 have two hits (Beta < Gamma); p4 and p2 one each (Aardvark < Alpha).
    assert_eq!(ids, vec!["p1", "p3", "p4", "p2"]);
    assert_eq!(r[0].hits, 2);
    // A page found first without a summary takes the summary of a later hit.
    assert_eq!(r[0].summary, "b");
    assert_eq!(r[2].summary, "");
}

#[test]
fn at_most_twelve_pages() {
    let terms: Vec<Vec<PageMatch>> = (0..20)
        .map(|i| vec![hit(&format!("p{i:02}"), &format!("T{i:02}"), None)])
        .collect();
    let r = top_page_summaries(&terms);
    assert_eq!(r.len(), PAGE_SUMMARY_LIMIT);
    assert_eq!(r[0].title, "T00");
    assert_eq!(r[11].title, "T11");
    assert!(top_page_summaries(&Vec::new()).is_empty());
}
