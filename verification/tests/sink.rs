use nomifun_crawl::model::{CrawlError, CrawlJob, CrawlJobId, CrawlSink, JobStatus, UserId};
use nomifun_crawl::sink::{
    document_path, id_suffix, path_for_slug, receipt, render_document, slugify, write_request,
    yaml_scalar, IngestPage, IngestReceipt,
};
use url::Url;

fn job(n: u64) -> CrawlJobId {
    CrawlJobId::from_text(&format!("019a8f3e-7c10-7d42-9b1e-{:012x}", 0x5b6a_7c8d_0000 + n))
}

/// Sixty-four hex digits that differ from URL to URL.
fn fingerprint_for(url: &str) -> String {
    let mut out = String::new();
    let mut state: u64 = 0xcbf2_9ce4_8422_2325;
    for round in 0..4u8 {
        state ^= u64::from(round);
        for byte in url.bytes() {
            state = (state ^ u64::from(byte)).wrapping_mul(0x0000_0100_0000_01b3);
        }
        out.push_str(&format!("{state:016x}"));
    }
    out
}

/// Host and path with dashes for everything else.
fn slug_for_url(url: &Url) -> String {
    format!("{}{}", url.host_str().unwrap_or(""), url.path())
        .chars()
        .map(|ch| if ch.is_ascii_alphanumeric() { ch } else { '-' })
        .collect()
}

fn page(url: &str) -> IngestPage {
    IngestPage {
        url: url.into(),
        url_fingerprint: fingerprint_for(url),
        claim_generation: 3,
        content_hash: "c".repeat(64),
        title: None,
        markdown: "body".into(),
    }
}

fn stored_job(kb: Option<&str>) -> CrawlJob<(), ()> {
    CrawlJob {
        job_id: job(1),
        user_id: UserId { raw: "u1".into() },
        name: "Docs".into(),
        seeds: vec![],
        scope: (),
        max_depth: 3,
        max_urls: 10,
        render_mode: (),
        concurrency: 1,
        per_host_concurrency: 1,
        delay_ms: 0,
        respect_robots: true,
        user_agent: None,
        sink: CrawlSink { knowledge_base_id: kb.map(String::from) },
        status: JobStatus::Draft,
        error_detail: None,
        started_at: None,
        finished_at: None,
        created_at: 0,
        updated_at: 0,
    }
}

#[test]
fn path_groups_by_job_and_slugs_the_url() {
    let job_id = job(1);
    let url = "https://example.com/docs/intro";
    let path = document_path(&job_id, "My Site Crawl", url, &fingerprint_for(url), slug_for_url);
    assert!(path.starts_with(&format!("crawl/my-site-crawl-{}/", id_suffix(&job_id))), "{path}");
    assert!(path.ends_with(".md"), "{path}");
    assert!(path.contains(&fingerprint_for(url)), "{path}");
}

#[test]
fn url_variants_that_used_to_share_a_slug_get_distinct_paths() {
    let job_id = job(1);
    for (a, b) in [
        ("https://example.com/page?a=1", "https://example.com/page?a=2"),
        ("https://example.com:8443/page", "https://example.com:9443/page"),
        ("http://example.com/page", "https://example.com/page"),
        ("https://example.com/a+b", "https://example.com/a-b"),
    ] {
        assert_ne!(
            document_path(&job_id, "j", a, &fingerprint_for(a), slug_for_url),
            document_path(&job_id, "j", b, &fingerprint_for(b), slug_for_url),
            "{a} and {b} must not collide"
        );
    }
}

#[test]
fn same_named_jobs_do_not_share_a_directory() {
    let url = "https://example.com/a";
    let url_fingerprint = fingerprint_for(url);
    let a = document_path(&job(1), "Docs", url, &url_fingerprint, slug_for_url);
    let b = document_path(&job(2), "Docs", url, &url_fingerprint, slug_for_url);
    assert_ne!(a, b);
}

#[test]
fn unparseable_url_still_yields_a_path() {
    let job_id = job(1);
    let url_fingerprint = "a".repeat(64);
    assert_eq!(
        document_path(&job_id, "j", "not a url", &url_fingerprint, slug_for_url),
        format!("crawl/j-{}/page-{url_fingerprint}.md", id_suffix(&job_id))
    );
}

#[test]
fn job_name_of_only_symbols_falls_back() {
    let job_id = job(1);
    let url = "https://e.com/x";
    let path = document_path(&job_id, "!!!", url, &fingerprint_for(url), slug_for_url);
    assert_eq!(path.split('/').nth(1), Some(format!("job-{}", id_suffix(&job_id)).as_str()));
}

#[test]
fn front_matter_escapes_quotes_and_newlines() {
    let job_id = job(1);
    let mut page = page("https://e.com/x");
    page.title = Some("A \"quoted\"\ntitle".into());
    let doc = render_document(&job_id, &page);
    assert!(doc.contains(r#"title: "A \"quoted\" title""#), "{doc}");
    assert!(doc.contains("source_url: \"https://e.com/x\""));
    assert!(doc.contains("managed_by: nomifun-crawl"), "{doc}");
    assert!(
        doc.contains(&format!("managed_key: {}:{}", job_id.as_str(), page.url_fingerprint)),
        "{doc}"
    );
    assert!(doc.contains("managed_generation: 3"), "{doc}");
}

#[test]
fn missing_title_falls_back_to_the_url() {
    let doc = render_document(&job(1), &page("https://e.com/x"));
    assert!(doc.contains(r#"title: "https://e.com/x""#), "{doc}");
}

#[test]
fn whole_document_is_written_out() {
    let page = IngestPage {
        url: "https://e.com/x".into(),
        url_fingerprint: "f1".into(),
        claim_generation: -7,
        content_hash: "h1".into(),
        title: Some("T".into()),
        markdown: "\n\u{2003}# Head\n\ntext \u{3000}\r\n".into(),
    };
    assert_eq!(
        render_document(&CrawlJobId::from_text("j1"), &page),
        concat_lines(&[
            "---",
            "title: \"T\"",
            "source_url: \"https://e.com/x\"",
            "source: nomifun-crawl",
            "managed_by: nomifun-crawl",
            "managed_key: j1:f1",
            "managed_generation: -7",
            "crawl_job_id: j1",
            "url_fingerprint: f1",
            "content_hash: h1",
            "---",
            "",
            "# Head",
            "",
            "text",
        ])
    );
}

fn concat_lines(lines: &[&str]) -> String {
    lines.iter().map(|line| format!("{line}\n")).collect()
}

#[test]
fn url_that_parses_is_slugged_by_the_caller() {
    let path = document_path(
        &CrawlJobId::from_text("abcdefghij"),
        "n",
        "HTTPS://Example.COM:443/a/../b",
        "fp",
        |url: &Url| url.as_str().to_string(),
    );
    assert_eq!(path, "crawl/n-cdefghij/https://example.com/b-fp.md");
}

#[test]
fn readable_part_is_cut_and_trimmed() {
    let id = CrawlJobId::from_text("12345678");
    let long = format!("--{}", "a".repeat(60));
    assert_eq!(
        path_for_slug(&id, "n", &long, "fp"),
        format!("crawl/n-12345678/{}-fp.md", "a".repeat(46))
    );
    assert_eq!(path_for_slug(&id, "n", "----", "fp"), "crawl/n-12345678/page-fp.md");
    assert_eq!(path_for_slug(&id, "n", "", "fp"), "crawl/n-12345678/page-fp.md");
    assert_eq!(path_for_slug(&id, "n", "-\u{e9}t\u{e9}-", "fp"), "crawl/n-12345678/\u{e9}t\u{e9}-fp.md");
}

#[test]
fn id_suffix_is_the_tail() {
    assert_eq!(id_suffix(&CrawlJobId::from_text("019a8f3e-7c10-7d42-9b1e-5b6a7c8d9e0f")), "7c8d9e0f");
    assert_eq!(id_suffix(&CrawlJobId::from_text("short")), "short");
    assert_eq!(id_suffix(&CrawlJobId::from_text("")), "");
    assert_eq!(id_suffix(&CrawlJobId::from_text("x12345678")), "12345678");
}

#[test]
fn id_suffix_keeps_characters_whole() {
    // Eight bytes from the end lie inside the first character.
    assert_eq!(id_suffix(&CrawlJobId::from_text("\u{e9}1234567")), "\u{e9}1234567");
    assert_eq!(id_suffix(&CrawlJobId::from_text("ab\u{e9}123456")), "\u{e9}123456");
}

#[test]
fn slug_folds_and_shortens() {
    assert_eq!(slugify("My Site Crawl"), "my-site-crawl");
    assert_eq!(slugify("  --A__b!!"), "a-b");
    assert_eq!(slugify(""), "job");
    assert_eq!(slugify("\u{e9}\u{e8}"), "job");
    assert_eq!(slugify(&"x".repeat(100)), "x".repeat(60));
    assert_eq!(slugify(&format!("{} tail", "x".repeat(59))), "x".repeat(59));
    assert_eq!(slugify(&format!("{} tail", "x".repeat(58))), format!("{}-t", "x".repeat(58)));
}

#[test]
fn slug_is_clean_on_mixed_names() {
    for name in ["a--b", "-a-", "\u{df}A\u{df}", "1.2.3", "UPPER lower", "...", "a\u{0}b"] {
        let slug = slugify(name);
        assert!(!slug.is_empty() && slug.len() <= 60);
        assert!(!slug.starts_with('-') && !slug.ends_with('-') && !slug.contains("--"));
        assert!(slug.chars().all(|ch| ch.is_ascii_lowercase() || ch.is_ascii_digit() || ch == '-'));
    }
}

#[test]
fn scalar_reads_back() {
    assert_eq!(yaml_scalar("plain"), "\"plain\"");
    assert_eq!(yaml_scalar(""), "\"\"");
    assert_eq!(yaml_scalar("a\\\"b"), "\"a\\\\\\\"b\"");
    assert_eq!(yaml_scalar("a\r\nb"), "\"a  b\"");
    // A JSON string is a double-quoted YAML scalar.
    for value in ["a \"b\" \\ c", "\\", "\"", "\\\"", "tail\\", "no breaks"] {
        let read: String = serde_json::from_str(&yaml_scalar(value)).unwrap();
        assert_eq!(read, value);
    }
}

#[test]
fn paths_lie_below_the_root() {
    let path = path_for_slug(&job(1), "snapshots", "snapshots", "fp");
    assert!(path.starts_with("crawl/") && path.ends_with(".md"));
}

#[test]
fn job_without_target_drops_the_page() {
    let request = write_request(
        &stored_job(None),
        &page("https://e.com/x"),
        |_raw: &str| -> Result<String, String> { panic!("no id to parse") },
        slug_for_url,
    );
    assert!(matches!(request, Ok(None)));
}

#[test]
fn bad_target_is_rejected() {
    let request = write_request(
        &stored_job(Some("??")),
        &page("https://e.com/x"),
        |raw: &str| -> Result<String, String> { Err(format!("bad id {raw}")) },
        slug_for_url,
    );
    match request {
        Err(CrawlError::UrlRejected(text)) => {
            assert_eq!(text, "invalid knowledge base id: bad id ??");
        }
        other => panic!("{other:?}"),
    }
}

#[test]
fn page_is_kept_under_its_key() {
    let job = stored_job(Some("kb1"));
    let page = page("https://e.com/x");
    let request = write_request(
        &job,
        &page,
        |raw: &str| -> Result<String, String> { Ok(raw.to_uppercase()) },
        slug_for_url,
    )
    .unwrap()
    .unwrap();
    assert_eq!(request.kb_id, "KB1");
    assert_eq!(
        request.rel_path,
        document_path(&job.job_id, "Docs", &page.url, &page.url_fingerprint, slug_for_url)
    );
    assert_eq!(request.namespace, "crawl");
    assert_eq!(request.producer, "nomifun-crawl");
    assert_eq!(
        request.document_key,
        format!("{}:{}", job.job_id.as_str(), page.url_fingerprint)
    );
    assert_eq!(request.generation, 3);
    assert_eq!(request.content, render_document(&job.job_id, &page));
    let kept = receipt(request.rel_path.clone());
    assert_eq!(kept, IngestReceipt { rel_path: request.rel_path });
}

#[test]
fn slug_of_a_slug_is_kept() {
    for name in ["My Site Crawl", "!!!", "a--b", &"x y ".repeat(40)] {
        let slug = slugify(name);
        assert_eq!(slugify(&slug), slug);
    }
}

#[test]
fn documents_of_one_job_have_distinct_keys() {
    let job = stored_job(Some("kb1"));
    let key = |url: &str| {
        write_request(
            &job,
            &page(url),
            |raw: &str| -> Result<String, String> { Ok(raw.to_string()) },
            slug_for_url,
        )
        .unwrap()
        .unwrap()
        .document_key
    };
    assert_ne!(key("https://e.com/x"), key("https://e.com/y"));
    assert_eq!(key("https://e.com/x"), key("https://e.com/x"));
}

#[test]
fn title_and_url_cannot_add_or_end_a_line_of_front_matter() {
    let page = IngestPage {
        url: "https://e.com/\n---\nsource: me".into(),
        url_fingerprint: "f".into(),
        claim_generation: -3,
        content_hash: "h".into(),
        title: Some("T\"\n---\r\nmanaged_by: me".into()),
        markdown: "  # Body\n".into(),
    };
    let document = render_document(&CrawlJobId::from_text("j1"), &page);
    let lines: Vec<&str> = document.split('\n').collect();
    assert_eq!(
        lines[..11].to_vec(),
        vec![
            "---",
            "title: \"T\\\" ---  managed_by: me\"",
            "source_url: \"https://e.com/ --- source: me\"",
            "source: nomifun-crawl",
            "managed_by: nomifun-crawl",
            "managed_key: j1:f",
            "managed_generation: -3",
            "crawl_job_id: j1",
            "url_fingerprint: f",
            "content_hash: h",
            "---",
        ]
    );
    assert_eq!(lines[11..].to_vec(), vec!["", "# Body", ""]);
}

#[test]
fn carriage_return_in_a_hash_adds_no_line() {
    let page = IngestPage {
        url: "https://e.com/x".into(),
        url_fingerprint: "f".into(),
        claim_generation: 1,
        content_hash: "h\r---".into(),
        title: None,
        markdown: "one\ntwo".into(),
    };
    let document = render_document(&CrawlJobId::from_text("j1"), &page);
    let lines: Vec<&str> = document.split('\n').collect();
    assert_eq!(
        lines[8..].to_vec(),
        vec!["url_fingerprint: f", "content_hash: h\r---", "---", "", "one", "two", ""]
    );
}

#[test]
fn fingerprints_of_one_length_never_meet() {
    let a = path_for_slug(&CrawlJobId::from_text("j1"), "a-b", "x", "c1");
    let b = path_for_slug(&CrawlJobId::from_text("b-j1"), "a", "x", "c2");
    assert_eq!(a, "crawl/a-b-j1/x-c1.md");
    assert_eq!(b, "crawl/a-b-j1/x-c2.md");
}
