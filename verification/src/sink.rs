//! Where crawled pages land: the path and the text of the document that keeps a
//! page in the knowledge base.
use url::Url;
use vstd::prelude::*;
use vstd::utf8::{decode_utf8, encode_utf8, is_char_boundary};

use crate::model::{CrawlError, CrawlJob, CrawlJobId};
use crate::text::{
    alphanumeric, characters, decimal, decimal_text, is_alphanumeric, joined, lower, prefix, to_lower,
    trim, trimmed, Margin,
};

verus! {

/// Root directory (inside the base) that the crawler owns. Snapshots of URL
/// sources have a directory of their own, so the two never share one.
pub const CRAWL_REL_DIR: &'static str = "crawl";

/// How much of the job id is folded into the directory name.
pub const JOB_ID_SUFFIX_LEN: usize = 8;

/// Longest slug of a job name.
pub const SLUG_LEN: usize = 60;

/// Longest readable part of a file name.
pub const READABLE_LEN: usize = 48;

/// A page that was crawled.
#[derive(Debug, Clone)]
pub struct IngestPage {
    pub url: String,
    pub url_fingerprint: String,
    pub claim_generation: i64,
    pub content_hash: String,
    pub title: Option<String>,
    pub markdown: String,
}

/// Result of persisting one page.
#[derive(Debug, Clone, PartialEq, Eq)]
pub struct IngestReceipt {
    pub rel_path: String,
}

/// The name of a job as words: runs of ASCII letters and digits, in lower case,
/// with one dash for whatever lies between two of them or behind the last.
pub open spec fn words(name: Seq<char>) -> Seq<char>
    decreases name.len(),
{
    if name.len() == 0 {
        Seq::empty()
    } else {
        let front = words(name.drop_last());
        if is_alphanumeric(name.last()) {
            front.push(lower(name.last()))
        } else if front.len() > 0 && front.last() != '-' {
            front.push('-')
        } else {
            front
        }
    }
}

/// At most `limit` characters from the front.
pub open spec fn shortened(text: Seq<char>, limit: nat) -> Seq<char> {
    text.take(if text.len() < limit { text.len() as int } else { limit as int })
}

/// The text, or a stand-in where it is empty.
pub open spec fn or_else(text: Seq<char>, stand_in: Seq<char>) -> Seq<char> {
    if text.len() == 0 {
        stand_in
    } else {
        text
    }
}

/// A job's name as part of a directory name.
pub open spec fn slug(name: Seq<char>) -> Seq<char> {
    or_else(trimmed(shortened(words(name), SLUG_LEN as nat), Margin::Dashes), "job"@)
}

/// Whether `front` is where `whole` begins.
pub open spec fn begins_with(whole: Seq<char>, front: Seq<char>) -> bool {
    front.len() <= whole.len() && whole.take(front.len() as int) == front
}

proof fn words_grow(name: Seq<char>, i: int)
    requires
        0 <= i <= name.len(),
    ensures
        begins_with(words(name), words(name.take(i))),
    decreases name.len(),
{
    if i == name.len() {
        assert(name.take(i) == name);
        assert(words(name).take(words(name).len() as int) == words(name));
    } else {
        let front = name.drop_last();
        words_grow(front, i);
        assert(front.take(i) == name.take(i));
        let n = words(name.take(i)).len() as int;
        assert(words(name).take(n) =~= words(front).take(n));
    }
}

/// The part of a job's name that goes into its directory's name.
pub fn slugify(value: &str) -> (r: String)
    ensures
        r@ == slug(value@),
{
    let chars = characters(value);
    let mut out = String::new();
    let mut len: usize = 0;
    let mut last_dash = false;
    let mut i: usize = 0;
    while i < chars.len() && len < SLUG_LEN
        invariant
            0 <= i <= chars@.len(),
            len == out@.len(),
            len <= SLUG_LEN,
            out@ == words(chars@.take(i as int)),
            last_dash == (out@.len() > 0 && out@.last() == '-'),
        decreases chars@.len() - i,
    {
        let ch = chars[i];
        assert(chars@.take(i + 1).drop_last() == chars@.take(i as int));
        if alphanumeric(ch) {
            out.push(to_lower(ch));
            len += 1;
            last_dash = false;
        } else if !last_dash && len > 0 {
            out.push('-');
            len += 1;
            last_dash = true;
        }
        i += 1;
    }
    proof {
        words_grow(chars@, i as int);
        if i == chars@.len() {
            assert(chars@.take(i as int) == chars@);
        }
        assert(out@ =~= shortened(words(value@), SLUG_LEN as nat));
    }
    let trimmed_out = trim(out.as_str(), Margin::Dashes);
    if trimmed_out.as_str().is_empty() {
        "job".to_string()
    } else {
        trimmed_out
    }
}

/// The end of a job id: its last bytes, where they are whole characters, and
/// else all of it.
pub open spec fn id_tail(id: Seq<char>) -> Seq<char> {
    let bytes = encode_utf8(id);
    let cut = if bytes.len() < JOB_ID_SUFFIX_LEN {
        0
    } else {
        bytes.len() - JOB_ID_SUFFIX_LEN
    };
    if is_char_boundary(bytes, cut) {
        decode_utf8(bytes.skip(cut))
    } else {
        id
    }
}

/// The *tail* of the job id. The head of an id holds the time at which it was
/// made, so jobs created in the same minute share it; the tail is random.
pub fn id_suffix(job_id: &CrawlJobId) -> (r: &str)
    ensures
        r@ == id_tail(job_id@),
{
    let raw = job_id.as_str();
    let len: usize = raw.as_bytes().len();
    let cut: usize = if len < JOB_ID_SUFFIX_LEN {
        0
    } else {
        len - JOB_ID_SUFFIX_LEN
    };
    if raw.is_char_boundary(cut) {
        let (_, tail) = raw.split_at(cut);
        proof {
            vstd::utf8::encode_utf8_decode_utf8(tail@);
            assert(encode_utf8(tail@) =~= encode_utf8(job_id@).skip(cut as int));
        }
        tail
    } else {
        raw
    }
}

/// A page's slug as part of a file name.
pub open spec fn readable(slug: Seq<char>) -> Seq<char> {
    or_else(trimmed(shortened(slug, READABLE_LEN as nat), Margin::Dashes), "page"@)
}

/// The directory of a job, below the crawler's root.
pub open spec fn job_directory(job_id: Seq<char>, job_name: Seq<char>) -> Seq<char> {
    slug(job_name) + "-"@ + id_tail(job_id)
}

/// The name of the file that keeps a page.
pub open spec fn file_name(page_slug: Seq<char>, fingerprint: Seq<char>) -> Seq<char> {
    readable(page_slug) + "-"@ + fingerprint + ".md"@
}

/// The path of the document that keeps a page.
pub open spec fn page_path(
    job_id: Seq<char>,
    job_name: Seq<char>,
    page_slug: Seq<char>,
    fingerprint: Seq<char>,
) -> Seq<char> {
    CRAWL_REL_DIR@ + "/"@ + job_directory(job_id, job_name) + "/"@ + file_name(
        page_slug,
        fingerprint,
    )
}

/// `crawl/{job}-{id8}/{readable-url}-{full-fingerprint}.md`, with the slug of
/// the page's URL in hand.
pub fn path_for_slug(
    job_id: &CrawlJobId,
    job_name: &str,
    page_slug: &str,
    url_fingerprint: &str,
) -> (r: String)
    ensures
        r@ == page_path(job_id@, job_name@, page_slug@, url_fingerprint@),
{
    let short = prefix(page_slug, READABLE_LEN);
    let bare = trim(short.as_str(), Margin::Dashes);
    let mut name = if bare.as_str().is_empty() {
        "page".to_string()
    } else {
        bare
    };
    name.append("-");
    name.append(url_fingerprint);
    name.append(".md");
    let mut directory = slugify(job_name);
    directory.append("-");
    directory.append(id_suffix(job_id));
    let mut path = joined(CRAWL_REL_DIR, "/");
    path.append(directory.as_str());
    path.append("/");
    path.append(name.as_str());
    path
}

/// A URL that was parsed. It is carried and never looked into.
#[verifier::external_type_specification]
#[verifier::external_body]
pub struct ExUrl(Url);

/// What a text reads as a URL, if it is one.
pub uninterp spec fn parsed_url(text: Seq<char>) -> Option<Url>;

/// `Url::parse`: the text as an absolute URL, or nothing where it is none.
#[verifier::external_body]
fn parse_url(text: &str) -> (r: Option<Url>)
    ensures
        r == parsed_url(text@),
{
    Url::parse(text).ok()
}

/// Whether `page_slug` is what the file name of the page at `url` may start
/// from: what `slug_for_url` makes of the URL, or `page` where the text is none.
pub open spec fn names_page<F: Fn(&Url) -> String>(
    slug_for_url: F,
    url: Seq<char>,
    page_slug: Seq<char>,
) -> bool {
    match parsed_url(url) {
        Some(parsed) => exists|made: String|
            #![trigger call_ensures(slug_for_url, (&parsed,), made)]
            call_ensures(slug_for_url, (&parsed,), made) && made@ == page_slug,
        None => page_slug == "page"@,
    }
}

/// The text that the readable part of a page's file name is cut from.
pub fn page_slug<F: Fn(&Url) -> String>(url: &str, slug_for_url: F) -> (r: String)
    requires
        forall|parsed: &Url| call_requires(slug_for_url, (parsed,)),
    ensures
        names_page(slug_for_url, url@, r@),
{
    match parse_url(url) {
        Some(parsed) => slug_for_url(&parsed),
        None => "page".to_string(),
    }
}

/// `crawl/{job}-{id8}/{readable-url}-{full-fingerprint}.md`.
///
/// The readable part is only decoration. The full fingerprint is the identity,
/// so query strings, ports and long common path prefixes cannot collapse onto
/// one file.
pub fn document_path<F: Fn(&Url) -> String>(
    job_id: &CrawlJobId,
    job_name: &str,
    url: &str,
    url_fingerprint: &str,
    slug_for_url: F,
) -> (r: String)
    requires
        forall|parsed: &Url| call_requires(slug_for_url, (parsed,)),
    ensures
        exists|page_slug: Seq<char>|
            #![trigger names_page(slug_for_url, url@, page_slug)]
            names_page(slug_for_url, url@, page_slug) && r@ == page_path(
                job_id@,
                job_name@,
                page_slug,
                url_fingerprint@,
            ),
{
    let slug = page_slug(url, slug_for_url);
    path_for_slug(job_id, job_name, slug.as_str(), url_fingerprint)
}

/// A line break becomes a blank.
pub open spec fn blanked(ch: char) -> char {
    if ch == '\n' || ch == '\r' {
        ' '
    } else {
        ch
    }
}

/// The value on one line.
pub open spec fn on_one_line(value: Seq<char>) -> Seq<char> {
    value.map_values(|ch: char| blanked(ch))
}

/// A character inside double quotes.
pub open spec fn escaped_char(ch: char) -> Seq<char> {
    if ch == '\\' || ch == '"' {
        seq!['\\', ch]
    } else {
        seq![ch]
    }
}

/// A text inside double quotes.
pub open spec fn escaped(text: Seq<char>) -> Seq<char>
    decreases text.len(),
{
    if text.len() == 0 {
        Seq::empty()
    } else {
        escaped(text.drop_last()) + escaped_char(text.last())
    }
}

/// A value as a double-quoted YAML scalar.
pub open spec fn quoted(value: Seq<char>) -> Seq<char> {
    seq!['"'] + escaped(on_one_line(value)) + seq!['"']
}

/// Quote anything that YAML would otherwise reinterpret.
pub fn yaml_scalar(value: &str) -> (r: String)
    ensures
        r@ == quoted(value@),
{
    let chars = characters(value);
    let mut out = String::new();
    out.push('"');
    let ghost line = on_one_line(value@);
    let mut i: usize = 0;
    while i < chars.len()
        invariant
            0 <= i <= chars@.len(),
            line == on_one_line(chars@),
            out@ == seq!['"'] + escaped(line.take(i as int)),
        decreases chars@.len() - i,
    {
        let ch = chars[i];
        assert(line.take(i + 1).drop_last() == line.take(i as int));
        assert(line.take(i + 1).last() == blanked(ch));
        if ch == '\n' || ch == '\r' {
            out.push(' ');
        } else {
            if ch == '\\' || ch == '"' {
                out.push('\\');
            }
            out.push(ch);
        }
        assert(out@ =~= seq!['"'] + (escaped(line.take(i as int)) + escaped_char(blanked(ch))));
        i += 1;
    }
    assert(line.take(i as int) == line);
    out.push('"');
    assert(out@ =~= quoted(value@));
    out
}

/// A document with one more line of front matter.
pub open spec fn with_field(document: Seq<char>, name: Seq<char>, value: Seq<char>) -> Seq<char> {
    document + name + ": "@ + value + "\n"@
}

/// What tells two documents of the crawler apart.
pub open spec fn document_key(job_id: Seq<char>, fingerprint: Seq<char>) -> Seq<char> {
    job_id + ":"@ + fingerprint
}

/// The page's title, or its URL where it has none.
pub open spec fn page_title(page: IngestPage) -> Seq<char> {
    match page.title {
        Some(title) => title@,
        None => page.url@,
    }
}

/// The front matter of the document that keeps a page.
pub open spec fn front_matter(job_id: Seq<char>, page: IngestPage) -> Seq<char> {
    let top = "---\n"@;
    let titled = with_field(top, "title"@, quoted(page_title(page)));
    let located = with_field(titled, "source_url"@, quoted(page.url@));
    let sourced = with_field(located, "source"@, "nomifun-crawl"@);
    let managed = with_field(sourced, "managed_by"@, "nomifun-crawl"@);
    let keyed = with_field(
        managed,
        "managed_key"@,
        document_key(job_id, page.url_fingerprint@),
    );
    let dated = with_field(keyed, "managed_generation"@, decimal(page.claim_generation as int));
    let owned = with_field(dated, "crawl_job_id"@, job_id);
    let marked = with_field(owned, "url_fingerprint"@, page.url_fingerprint@);
    with_field(marked, "content_hash"@, page.content_hash@)
}

/// The text of the document that keeps a page.
pub open spec fn document_text(job_id: Seq<char>, page: IngestPage) -> Seq<char> {
    front_matter(job_id, page) + "---\n\n"@ + trimmed(page.markdown@, Margin::WhiteSpace) + "\n"@
}

fn push_field(document: &mut String, name: &str, value: &str)
    ensures
        final(document)@ == with_field(old(document)@, name@, value@),
{
    document.append(name);
    document.append(": ");
    document.append(value);
    document.append("\n");
}

fn key_text(job_id: &CrawlJobId, url_fingerprint: &str) -> (r: String)
    ensures
        r@ == document_key(job_id@, url_fingerprint@),
{
    let mut key = joined(job_id.as_str(), ":");
    key.append(url_fingerprint);
    key
}

/// The document that keeps a page. Front matter carries provenance so readers
/// can tell where the text came from without opening the crawl UI.
pub fn render_document(job_id: &CrawlJobId, page: &IngestPage) -> (r: String)
    ensures
        r@ == document_text(job_id@, *page),
{
    let title = match &page.title {
        Some(title) => yaml_scalar(title.as_str()),
        None => yaml_scalar(page.url.as_str()),
    };
    let mut out = "---\n".to_string();
    push_field(&mut out, "title", title.as_str());
    push_field(&mut out, "source_url", yaml_scalar(page.url.as_str()).as_str());
    push_field(&mut out, "source", "nomifun-crawl");
    push_field(&mut out, "managed_by", "nomifun-crawl");
    let key = key_text(job_id, page.url_fingerprint.as_str());
    push_field(&mut out, "managed_key", key.as_str());
    push_field(&mut out, "managed_generation", decimal_text(page.claim_generation).as_str());
    push_field(&mut out, "crawl_job_id", job_id.as_str());
    push_field(&mut out, "url_fingerprint", page.url_fingerprint.as_str());
    push_field(&mut out, "content_hash", page.content_hash.as_str());
    out.append("---\n\n");
    out.append(trim(page.markdown.as_str(), Margin::WhiteSpace).as_str());
    out.append("\n");
    out
}

/// A request to the knowledge base `K` to keep a document in place of the one
/// that it has under the same key.
#[derive(Debug, Clone)]
pub struct ManagedDocumentWriteRequest<K> {
    pub kb_id: K,
    pub rel_path: String,
    pub namespace: String,
    pub producer: String,
    pub document_key: String,
    pub generation: i64,
    pub content: String,
}

/// Whether the request is the one that keeps the page of the job, in the base
/// `kb_id` and at a path with the given readable part.
pub open spec fn keeps_page<S, R, K>(
    request: ManagedDocumentWriteRequest<K>,
    job: CrawlJob<S, R>,
    page: IngestPage,
    kb_id: K,
    page_slug: Seq<char>,
) -> bool {
    &&& request.kb_id == kb_id
    &&& request.rel_path@ == page_path(
        job.job_id@,
        job.name@,
        page_slug,
        page.url_fingerprint@,
    )
    &&& request.namespace@ == CRAWL_REL_DIR@
    &&& request.producer@ == "nomifun-crawl"@
    &&& request.document_key@ == document_key(job.job_id@, page.url_fingerprint@)
    &&& request.generation == page.claim_generation
    &&& request.content@ == document_text(job.job_id@, page)
}

/// The request that keeps a page of the job, with the id of the target and the
/// slug of the page's URL in hand.
pub fn request_for_slug<S, R, K>(
    job: &CrawlJob<S, R>,
    page: &IngestPage,
    kb_id: K,
    page_slug: &str,
) -> (r: ManagedDocumentWriteRequest<K>)
    ensures
        keeps_page(r, *job, *page, kb_id, page_slug@),
{
    ManagedDocumentWriteRequest {
        kb_id,
        rel_path: path_for_slug(
            &job.job_id,
            job.name.as_str(),
            page_slug,
            page.url_fingerprint.as_str(),
        ),
        namespace: CRAWL_REL_DIR.to_string(),
        producer: "nomifun-crawl".to_string(),
        document_key: key_text(&job.job_id, page.url_fingerprint.as_str()),
        generation: page.claim_generation,
        content: render_document(&job.job_id, page),
    }
}

/// What persisting a page of the job asks of the knowledge base. `Ok(None)`
/// means that the job has no configured target and the content is intentionally
/// dropped. `parse_kb_id` reads the id of the target or says why it is none.
pub fn write_request<S, R, K, P: Fn(&str) -> Result<K, String>, F: Fn(&Url) -> String>(
    job: &CrawlJob<S, R>,
    page: &IngestPage,
    parse_kb_id: P,
    slug_for_url: F,
) -> (r: Result<Option<ManagedDocumentWriteRequest<K>>, CrawlError>)
    requires
        forall|raw: &str| call_requires(parse_kb_id, (raw,)),
        forall|parsed: &Url| call_requires(slug_for_url, (parsed,)),
    ensures
        (r matches Ok(None)) <==> job.sink.knowledge_base_id is None,
        r matches Ok(Some(request)) ==> exists|raw: &str, kb_id: K, page_slug: Seq<char>|
            #![trigger call_ensures(parse_kb_id, (raw,), Ok(kb_id)), names_page(slug_for_url, page.url@, page_slug)]
            {
                &&& raw@ == job.sink.knowledge_base_id->0@
                &&& call_ensures(parse_kb_id, (raw,), Ok(kb_id))
                &&& names_page(slug_for_url, page.url@, page_slug)
                &&& keeps_page(request, *job, *page, kb_id, page_slug)
            },
        r matches Err(error) ==> exists|raw: &str, reason: String|
            #![trigger call_ensures(parse_kb_id, (raw,), Err(reason))]
            {
                &&& raw@ == job.sink.knowledge_base_id->0@
                &&& call_ensures(parse_kb_id, (raw,), Err(reason))
                &&& error matches CrawlError::UrlRejected(text) && text@
                    == "invalid knowledge base id: "@ + reason@
            },
{
    match &job.sink.knowledge_base_id {
        Some(raw) => match parse_kb_id(raw.as_str()) {
            Ok(kb_id) => {
                let slug = page_slug(page.url.as_str(), slug_for_url);
                Ok(Some(request_for_slug(job, page, kb_id, slug.as_str())))
            },
            Err(reason) => {
                let text = joined("invalid knowledge base id: ", reason.as_str());
                Err(CrawlError::UrlRejected(text))
            },
        },
        None => Ok(None),
    }
}

/// The receipt for a page that was persisted: where the knowledge base says that
/// the document ended up.
pub fn receipt(final_rel_path: String) -> (r: IngestReceipt)
    ensures
        r.rel_path == final_rel_path,
{
    IngestReceipt { rel_path: final_rel_path }
}

} // verus!
