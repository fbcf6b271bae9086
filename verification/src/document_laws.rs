//! What holds of the front matter of every document, line by line.
use url::Url;
use vstd::prelude::*;

use crate::model::{CrawlError, CrawlJob, CrawlJobId};
use crate::naming_laws::{is_path_of, is_slug_of, page_path_is_put_together};
use crate::sink::{
    document_key, document_text, front_matter, id_suffix, keeps_page, names_page, page_title,
    path_for_slug, quoted, receipt, render_document, request_for_slug, slugify, with_field, write_request,
    yaml_scalar, IngestPage, IngestReceipt, ManagedDocumentWriteRequest,
};
use crate::sink_laws::{quoted_value_reads_back, quoted_value_stays_on_its_line, unescaped};
use crate::text::{decimal, decimal_text, digits, trim, trimmed, Margin};
use crate::text_laws::text_without_margin_is_kept;

verus! {

/// The lines of a text. What stands behind the last line break is a line too.
pub open spec fn lines(text: Seq<char>) -> Seq<Seq<char>>
    decreases text.len(),
{
    if text.len() == 0 {
        seq![Seq::empty()]
    } else {
        let front = lines(text.drop_last());
        if text.last() == '\n' {
            front.push(Seq::empty())
        } else {
            front.drop_last().push(front.last().push(text.last()))
        }
    }
}

/// A text that does not reach into another line.
pub open spec fn is_unbroken(text: Seq<char>) -> bool {
    forall|i: int| 0 <= i < text.len() ==> #[trigger] text[i] != '\n'
}

/// A text without a line break of any kind.
pub open spec fn is_one_line(text: Seq<char>) -> bool {
    forall|i: int| 0 <= i < text.len() ==> #[trigger] text[i] != '\n' && text[i] != '\r'
}

/// A line of front matter.
pub open spec fn field(name: Seq<char>, value: Seq<char>) -> Seq<char> {
    name + ": "@ + value
}

/// The lines that stand before the text of a page, from fence to fence.
pub open spec fn front_lines(job_id: Seq<char>, page: IngestPage) -> Seq<Seq<char>> {
    seq![
        "---"@,
        field("title"@, quoted(
            match page.title {
                Some(title) => title@,
                None => page.url@,
            },
        )),
        field("source_url"@, quoted(page.url@)),
        field("source"@, "nomifun-crawl"@),
        field("managed_by"@, "nomifun-crawl"@),
        field("managed_key"@, job_id + ":"@ + page.url_fingerprint@),
        field("managed_generation"@, decimal(page.claim_generation as int)),
        field("crawl_job_id"@, job_id),
        field("url_fingerprint"@, page.url_fingerprint@),
        field("content_hash"@, page.content_hash@),
        "---"@,
    ]
}

proof fn there_is_a_line(text: Seq<char>)
    ensures
        lines(text).len() > 0,
    decreases text.len(),
{
    if text.len() > 0 {
        there_is_a_line(text.drop_last());
    }
}

proof fn last_line_grows(text: Seq<char>, more: Seq<char>)
    requires
        is_unbroken(more),
    ensures
        lines(text + more) == lines(text).drop_last().push(lines(text).last() + more),
    decreases more.len(),
{
    there_is_a_line(text);
    if more.len() == 0 {
        assert(text + more =~= text);
        assert(lines(text).last() + more =~= lines(text).last());
        assert(lines(text) =~= lines(text).drop_last().push(lines(text).last()));
    } else {
        let front = more.drop_last();
        assert forall|i: int| 0 <= i < front.len() implies #[trigger] front[i] != '\n' by {
            assert(front[i] == more[i]);
        }
        assert(more[more.len() - 1] != '\n');
        last_line_grows(text, front);
        assert((text + more).drop_last() =~= text + front);
        assert((lines(text).last() + front).push(more.last()) =~= lines(text).last() + more);
        assert(lines(text + front).drop_last() =~= lines(text).drop_last());
    }
}

/// Whether the text ends behind a line break, with these lines before it.
spec fn ends_behind(text: Seq<char>, done: Seq<Seq<char>>) -> bool {
    lines(text) == done.push(Seq::empty())
}

proof fn line_is_added(text: Seq<char>, done: Seq<Seq<char>>, line: Seq<char>)
    requires
        ends_behind(text, done),
        is_unbroken(line),
    ensures
        ends_behind(text + line + "\n"@, done.push(line)),
{
    reveal_strlit("\n");
    last_line_grows(text, line);
    assert(lines(text).drop_last() =~= done);
    assert(Seq::empty() + line =~= line);
    assert((text + line + "\n"@).drop_last() =~= text + line);
    assert((text + line + "\n"@).last() == '\n');
}

proof fn field_is_added(
    text: Seq<char>,
    done: Seq<Seq<char>>,
    name: Seq<char>,
    value: Seq<char>,
)
    requires
        ends_behind(text, done),
        is_unbroken(name),
        is_unbroken(value),
    ensures
        ends_behind(with_field(text, name, value), done.push(field(name, value))),
        is_unbroken(field(name, value)),
        is_one_line(name) && is_one_line(value) ==> is_one_line(field(name, value)),
{
    reveal_strlit(": ");
    line_is_added(text, done, field(name, value));
    assert(with_field(text, name, value) =~= text + field(name, value) + "\n"@);
}

proof fn later_text_adds_its_lines(text: Seq<char>, done: Seq<Seq<char>>, more: Seq<char>)
    requires
        ends_behind(text, done),
    ensures
        lines(text + more) == done + lines(more),
    decreases more.len(),
{
    if more.len() == 0 {
        assert(text + more =~= text);
        assert(done.push(Seq::empty()) =~= done + lines(more));
    } else {
        let front = more.drop_last();
        there_is_a_line(front);
        later_text_adds_its_lines(text, done, front);
        assert((text + more).drop_last() =~= text + front);
        assert((text + more).last() == more.last());
        assert((done + lines(front)).drop_last() =~= done + lines(front).drop_last());
        assert((done + lines(front)).last() == lines(front).last());
        assert(lines(text + more) =~= done + lines(more));
    }
}

proof fn digits_are_one_line(number: nat)
    ensures
        is_one_line(digits(number)),
    decreases number,
{
    if number >= 10 {
        digits_are_one_line(number / 10);
    }
}

proof fn names_are_one_line()
    ensures
        is_one_line("---"@),
        is_one_line("title"@),
        is_one_line("source_url"@),
        is_one_line("source"@),
        is_one_line("managed_by"@),
        is_one_line("managed_key"@),
        is_one_line("managed_generation"@),
        is_one_line("crawl_job_id"@),
        is_one_line("url_fingerprint"@),
        is_one_line("content_hash"@),
        is_one_line("nomifun-crawl"@),
{
    reveal_strlit("---");
    reveal_strlit("title");
    reveal_strlit("source_url");
    reveal_strlit("source");
    reveal_strlit("managed_by");
    reveal_strlit("managed_key");
    reveal_strlit("managed_generation");
    reveal_strlit("crawl_job_id");
    reveal_strlit("url_fingerprint");
    reveal_strlit("content_hash");
    reveal_strlit("nomifun-crawl");
}

proof fn fields_are_no_fences(job_id: Seq<char>, page: IngestPage)
    ensures
        forall|i: int| 0 < i < 10 ==> #[trigger] front_lines(job_id, page)[i] != "---"@,
{
    reveal_strlit("---");
    reveal_strlit("title");
    reveal_strlit("source_url");
    reveal_strlit("source");
    reveal_strlit("managed_by");
    reveal_strlit("managed_key");
    reveal_strlit("managed_generation");
    reveal_strlit("crawl_job_id");
    reveal_strlit("url_fingerprint");
    reveal_strlit("content_hash");
    assert forall|i: int| 0 < i < 10 implies #[trigger] front_lines(job_id, page)[i] != "---"@ by {
        assert(front_lines(job_id, page)[i][0] != '-');
    }
}

/// No title and no URL can add a line to the front matter, end it, or change
/// another line of it. Whatever they hold, a document has the same lines: a
/// fence, one line for each field, of which two hold the title and the URL in
/// quotes, a fence, with no fence between the two, an empty line, the lines of
/// the page's text, and nothing behind the last line break. The ids and hashes,
/// which are written as they are, have no line feed; where they have no carriage
/// return either, neither has any line of the front matter.
pub proof fn front_matter_keeps_its_lines(job_id: Seq<char>, page: IngestPage)
    requires
        is_unbroken(job_id),
        is_unbroken(page.url_fingerprint@),
        is_unbroken(page.content_hash@),
    ensures
        lines(document_text(job_id, page)) == front_lines(job_id, page).push(Seq::empty()) + lines(
            trimmed(page.markdown@, Margin::WhiteSpace),
        ).push(Seq::empty()),
        lines(document_text(job_id, page)).len() > 12,
        lines(document_text(job_id, page)).take(11) == front_lines(job_id, page),
        lines(document_text(job_id, page))[11] == Seq::<char>::empty(),
        forall|i: int| 0 <= i < 11 ==> is_unbroken(#[trigger] front_lines(job_id, page)[i]),
        is_one_line(job_id) && is_one_line(page.url_fingerprint@) && is_one_line(
            page.content_hash@,
        ) ==> forall|i: int|
            0 <= i < 11 ==> is_one_line(#[trigger] front_lines(job_id, page)[i]),
        forall|i: int| 0 < i < 10 ==> #[trigger] front_lines(job_id, page)[i] != "---"@,
{
    let all = front_lines(job_id, page);
    let key = document_key(job_id, page.url_fingerprint@);
    let generation = decimal(page.claim_generation as int);
    names_are_one_line();
    fields_are_no_fences(job_id, page);
    quoted_value_stays_on_its_line(page_title(page));
    quoted_value_stays_on_its_line(page.url@);
    reveal_strlit(":");
    assert(is_unbroken(key));
    digits_are_one_line(page.claim_generation as nat);
    digits_are_one_line((-page.claim_generation) as nat);
    assert(is_one_line(generation));

    let nothing = Seq::<Seq<char>>::empty();
    assert(ends_behind(Seq::empty(), nothing)) by {
        assert(nothing.push(Seq::empty()) =~= seq![Seq::empty()]);
    }
    line_is_added(Seq::empty(), nothing, "---"@);
    reveal_strlit("---");
    reveal_strlit("\n");
    reveal_strlit("---\n");
    let top = "---\n"@;
    assert(Seq::empty() + "---"@ + "\n"@ =~= top);
    let d0 = nothing.push("---"@);
    let title = quoted(page_title(page));
    let t1 = with_field(top, "title"@, title);
    let d1 = d0.push(field("title"@, title));
    field_is_added(top, d0, "title"@, title);
    let t2 = with_field(t1, "source_url"@, quoted(page.url@));
    let d2 = d1.push(field("source_url"@, quoted(page.url@)));
    field_is_added(t1, d1, "source_url"@, quoted(page.url@));
    let t3 = with_field(t2, "source"@, "nomifun-crawl"@);
    let d3 = d2.push(field("source"@, "nomifun-crawl"@));
    field_is_added(t2, d2, "source"@, "nomifun-crawl"@);
    let t4 = with_field(t3, "managed_by"@, "nomifun-crawl"@);
    let d4 = d3.push(field("managed_by"@, "nomifun-crawl"@));
    field_is_added(t3, d3, "managed_by"@, "nomifun-crawl"@);
    let t5 = with_field(t4, "managed_key"@, key);
    let d5 = d4.push(field("managed_key"@, key));
    field_is_added(t4, d4, "managed_key"@, key);
    let t6 = with_field(t5, "managed_generation"@, generation);
    let d6 = d5.push(field("managed_generation"@, generation));
    field_is_added(t5, d5, "managed_generation"@, generation);
    let t7 = with_field(t6, "crawl_job_id"@, job_id);
    let d7 = d6.push(field("crawl_job_id"@, job_id));
    field_is_added(t6, d6, "crawl_job_id"@, job_id);
    let t8 = with_field(t7, "url_fingerprint"@, page.url_fingerprint@);
    let d8 = d7.push(field("url_fingerprint"@, page.url_fingerprint@));
    field_is_added(t7, d7, "url_fingerprint"@, page.url_fingerprint@);
    let t9 = with_field(t8, "content_hash"@, page.content_hash@);
    let d9 = d8.push(field("content_hash"@, page.content_hash@));
    field_is_added(t8, d8, "content_hash"@, page.content_hash@);
    assert(t9 == front_matter(job_id, page));
    line_is_added(t9, d9, "---"@);
    let d10 = d9.push("---"@);
    assert(d10 =~= all);

    reveal_strlit("---\n\n");
    let fenced = t9 + "---"@ + "\n"@;
    let body = trimmed(page.markdown@, Margin::WhiteSpace);
    let spaced = fenced + Seq::empty() + "\n"@;
    line_is_added(fenced, d10, Seq::empty());
    assert("---\n\n"@ =~= "---"@ + "\n"@ + "\n"@);
    assert(document_text(job_id, page) =~= spaced + (body + "\n"@));
    later_text_adds_its_lines(spaced, d10.push(Seq::empty()), body + "\n"@);
    assert((body + "\n"@).drop_last() =~= body);
    there_is_a_line(body);
    assert(lines(document_text(job_id, page)).take(11) =~= all);
}

/// A reader of the front matter gets a value back as it was, character for
/// character and at full length, but for line breaks, which it gets as blanks.
pub proof fn scalar_reads_back(value: &str, r: String) -> (line: Seq<char>)
    requires
        call_ensures(yaml_scalar, (value,), r),
    ensures
        r@.len() >= 2,
        r@.first() == '"',
        r@.last() == '"',
        unescaped(r@.subrange(1, r@.len() - 1)) == Some(line),
        line.len() == value@.len(),
        forall|i: int|
            0 <= i < line.len() ==> #[trigger] line[i] == (if value@[i] as u32 == 10
                || value@[i] as u32 == 13 {
                ' '
            } else {
                value@[i]
            }),
{
    quoted_value_reads_back(value@);
    unescaped(r@.subrange(1, r@.len() - 1))->0
}

/// A document so far, up to a line break, with one more field.
proof fn field_goes_on(
    document: Seq<char>,
    sofar: Seq<char>,
    name: Seq<char>,
    joint: Seq<char>,
    value: Seq<char>,
)
    requires
        document == sofar + "\n"@,
        joint == "\n"@ + name + ": "@,
    ensures
        with_field(document, name, value) == sofar + joint + value + "\n"@,
{
    assert(with_field(document, name, value) =~= sofar + joint + value + "\n"@);
}

/// The document of a page, written out: the provenance of the page, field by
/// field, in front matter, and then its text. Title and URL stand there as
/// [`yaml_scalar`] writes them, and the text as [`trim`] leaves it.
pub proof fn document_is_written_out(
    job_id: &CrawlJobId,
    page: &IngestPage,
    r: String,
    shown: &str,
    title: String,
    location: &str,
    source_url: String,
    generation: String,
    markdown: &str,
    body: String,
)
    requires
        call_ensures(render_document, (job_id, page), r),
        shown@ == (match page.title {
            Some(own) => own@,
            None => page.url@,
        }),
        call_ensures(yaml_scalar, (shown,), title),
        location@ == page.url@,
        call_ensures(yaml_scalar, (location,), source_url),
        call_ensures(decimal_text, (page.claim_generation,), generation),
        markdown@ == page.markdown@,
        call_ensures(trim, (markdown, Margin::WhiteSpace), body),
    ensures
        r@ == "---\ntitle: "@ + title@ + "\nsource_url: "@ + source_url@
            + "\nsource: nomifun-crawl\nmanaged_by: nomifun-crawl\nmanaged_key: "@ + job_id.raw@
            + ":"@ + page.url_fingerprint@ + "\nmanaged_generation: "@ + generation@
            + "\ncrawl_job_id: "@ + job_id.raw@ + "\nurl_fingerprint: "@ + page.url_fingerprint@
            + "\ncontent_hash: "@ + page.content_hash@ + "\n---\n\n"@ + body@ + "\n"@,
{
    let id = job_id.raw@;
    let print = page.url_fingerprint@;
    let top = "---\n"@;
    reveal_strlit("---\n");
    reveal_strlit("\n");
    reveal_strlit(": ");
    reveal_strlit("---\ntitle: ");
    reveal_strlit("title");
    let p1 = "---\ntitle: "@ + title@;
    let t1 = with_field(top, "title"@, title@);
    assert(t1 =~= p1 + "\n"@);

    reveal_strlit("\nsource_url: ");
    reveal_strlit("source_url");
    assert("\nsource_url: "@ =~= "\n"@ + "source_url"@ + ": "@);
    let p2 = p1 + "\nsource_url: "@ + source_url@;
    let t2 = with_field(t1, "source_url"@, source_url@);
    field_goes_on(t1, p1, "source_url"@, "\nsource_url: "@, source_url@);

    let joint = "\nsource: nomifun-crawl\nmanaged_by: nomifun-crawl\nmanaged_key: "@;
    reveal_strlit("\nsource: nomifun-crawl\nmanaged_by: nomifun-crawl\nmanaged_key: ");
    reveal_strlit("source");
    reveal_strlit("managed_by");
    reveal_strlit("managed_key");
    reveal_strlit("nomifun-crawl");
    let j3 = "\n"@ + "source"@ + ": "@;
    let j4 = "\n"@ + "managed_by"@ + ": "@;
    let j5 = "\n"@ + "managed_key"@ + ": "@;
    assert(joint =~= j3 + "nomifun-crawl"@ + j4 + "nomifun-crawl"@ + j5);
    let t3 = with_field(t2, "source"@, "nomifun-crawl"@);
    let p3 = p2 + j3 + "nomifun-crawl"@;
    field_goes_on(t2, p2, "source"@, j3, "nomifun-crawl"@);
    let t4 = with_field(t3, "managed_by"@, "nomifun-crawl"@);
    let p4 = p3 + j4 + "nomifun-crawl"@;
    field_goes_on(t3, p3, "managed_by"@, j4, "nomifun-crawl"@);
    let key = id + ":"@ + print;
    let t5 = with_field(t4, "managed_key"@, key);
    field_goes_on(t4, p4, "managed_key"@, j5, key);
    let p5 = p2 + joint + id + ":"@ + print;
    assert(p4 + j5 =~= p2 + joint);
    assert(p4 + j5 + key =~= p5);

    reveal_strlit("\nmanaged_generation: ");
    reveal_strlit("managed_generation");
    assert("\nmanaged_generation: "@ =~= "\n"@ + "managed_generation"@ + ": "@);
    let t6 = with_field(t5, "managed_generation"@, generation@);
    let p6 = p5 + "\nmanaged_generation: "@ + generation@;
    field_goes_on(t5, p5, "managed_generation"@, "\nmanaged_generation: "@, generation@);

    reveal_strlit("\ncrawl_job_id: ");
    reveal_strlit("crawl_job_id");
    assert("\ncrawl_job_id: "@ =~= "\n"@ + "crawl_job_id"@ + ": "@);
    let t7 = with_field(t6, "crawl_job_id"@, id);
    let p7 = p6 + "\ncrawl_job_id: "@ + id;
    field_goes_on(t6, p6, "crawl_job_id"@, "\ncrawl_job_id: "@, id);

    reveal_strlit("\nurl_fingerprint: ");
    reveal_strlit("url_fingerprint");
    assert("\nurl_fingerprint: "@ =~= "\n"@ + "url_fingerprint"@ + ": "@);
    let t8 = with_field(t7, "url_fingerprint"@, print);
    let p8 = p7 + "\nurl_fingerprint: "@ + print;
    field_goes_on(t7, p7, "url_fingerprint"@, "\nurl_fingerprint: "@, print);

    reveal_strlit("\ncontent_hash: ");
    reveal_strlit("content_hash");
    assert("\ncontent_hash: "@ =~= "\n"@ + "content_hash"@ + ": "@);
    let t9 = with_field(t8, "content_hash"@, page.content_hash@);
    let p9 = p8 + "\ncontent_hash: "@ + page.content_hash@;
    field_goes_on(t8, p8, "content_hash"@, "\ncontent_hash: "@, page.content_hash@);
    assert(t9 == front_matter(id, *page));

    reveal_strlit("---\n\n");
    reveal_strlit("\n---\n\n");
    assert("\n---\n\n"@ =~= "\n"@ + "---\n\n"@);
    assert(t9 + "---\n\n"@ =~= p9 + "\n---\n\n"@);
}

/// The text of a page is kept whole: a document ends with all of it, behind the
/// front matter and an empty line and before one line break, where white space
/// neither begins nor ends it.
pub proof fn page_text_is_kept_whole(job_id: &CrawlJobId, page: &IngestPage, r: String)
    requires
        call_ensures(render_document, (job_id, page), r),
        page.markdown@.len() > 0 ==> !Margin::WhiteSpace.covers(page.markdown@[0])
            && !Margin::WhiteSpace.covers(page.markdown@[page.markdown@.len() - 1]),
    ensures
        r@.len() > page.markdown@.len() + 6,
        r@.skip(r@.len() - page.markdown@.len() - 7) == "\n---\n\n"@ + page.markdown@
            + "\n"@,
{
    let body = page.markdown@;
    let front = front_matter(job_id@, *page);
    text_without_margin_is_kept(body, Margin::WhiteSpace);
    reveal_strlit("\n---\n\n");
    reveal_strlit("---\n\n");
    reveal_strlit("\n");
    assert(front.len() > 0 && front.last() == '\n');
    assert(r@ =~= front + "---\n\n"@ + body + "\n"@);
    assert(r@.skip(r@.len() - body.len() - 7) =~= "\n---\n\n"@ + body + "\n"@);
}

/// Whether the request asks to keep the document in the base, as the page of the
/// job under its full fingerprint, in the crawler's own namespace.
pub open spec fn asks_to_keep<S, R, K>(
    request: ManagedDocumentWriteRequest<K>,
    job: CrawlJob<S, R>,
    page: IngestPage,
    kb_id: K,
    document: Seq<char>,
) -> bool {
    &&& request.kb_id == kb_id
    &&& request.namespace@ == "crawl"@
    &&& request.producer@ == "nomifun-crawl"@
    &&& request.document_key@ == job.job_id.raw@ + ":"@ + page.url_fingerprint@
    &&& request.generation == page.claim_generation
    &&& request.content@ == document
}

/// The request for a page carries the document that [`render_document`] makes of
/// it, to the path that [`path_for_slug`] gives it.
pub proof fn request_carries_the_page<S, R, K>(
    job: &CrawlJob<S, R>,
    page: &IngestPage,
    kb_id: K,
    page_slug: &str,
    r: ManagedDocumentWriteRequest<K>,
    name: &str,
    fingerprint: &str,
    path: String,
    document: String,
)
    requires
        call_ensures(request_for_slug::<S, R, K>, (job, page, kb_id, page_slug), r),
        name@ == job.name@,
        fingerprint@ == page.url_fingerprint@,
        call_ensures(path_for_slug, (&job.job_id, name, page_slug, fingerprint), path),
        call_ensures(render_document, (&job.job_id, page), document),
    ensures
        asks_to_keep(r, *job, *page, kb_id, document@),
        r.rel_path@ == path@,
{
}

/// What writing a page asks of the knowledge base. A job without a target asks
/// for nothing, and only such a job. Otherwise its id is read: where it is
/// refused, the answer tells the reason; where it is taken, the request goes to
/// that base, carries the document of the page, and puts it where the job and
/// the page's URL say.
pub proof fn written_page_is_kept<
    S,
    R,
    K,
    P: Fn(&str) -> Result<K, String>,
    F: Fn(&Url) -> String,
>(
    job: &CrawlJob<S, R>,
    page: &IngestPage,
    parse_kb_id: P,
    slug_for_url: F,
    r: Result<Option<ManagedDocumentWriteRequest<K>>, CrawlError>,
    document: String,
    name: &str,
    directory: String,
    tail: &str,
)
    requires
        call_ensures(
            write_request::<S, R, K, P, F>,
            (job, page, parse_kb_id, slug_for_url),
            r,
        ),
        call_ensures(render_document, (&job.job_id, page), document),
        name@ == job.name@,
        call_ensures(slugify, (name,), directory),
        call_ensures(id_suffix, (&job.job_id,), tail),
    ensures
        match job.sink.knowledge_base_id {
            None => r matches Ok(None),
            Some(target) => match r {
                Ok(None) => false,
                Ok(Some(request)) => exists|raw: &str, kb_id: K, page_slug: Seq<char>|
                    #![trigger call_ensures(parse_kb_id, (raw,), Ok(kb_id)), is_slug_of(slug_for_url, page.url@, page_slug)]
                    {
                        &&& raw@ == target@
                        &&& call_ensures(parse_kb_id, (raw,), Ok(kb_id))
                        &&& asks_to_keep(request, *job, *page, kb_id, document@)
                        &&& is_slug_of(slug_for_url, page.url@, page_slug)
                        &&& is_path_of(
                            request.rel_path@,
                            directory@,
                            tail@,
                            page_slug,
                            page.url_fingerprint@,
                        )
                    },
                Err(error) => exists|raw: &str, reason: String|
                    #![trigger call_ensures(parse_kb_id, (raw,), Err(reason))]
                    {
                        &&& raw@ == target@
                        &&& call_ensures(parse_kb_id, (raw,), Err(reason))
                        &&& error matches CrawlError::UrlRejected(text) && text@
                            == "invalid knowledge base id: "@ + reason@
                    },
            },
        },
{
    if let Ok(Some(request)) = r {
        let (raw, kb_id, page_slug) = choose|raw: &str, kb_id: K, page_slug: Seq<char>|
            #![trigger call_ensures(parse_kb_id, (raw,), Ok(kb_id)), names_page(slug_for_url, page.url@, page_slug)]
            {
                &&& raw@ == job.sink.knowledge_base_id->0@
                &&& call_ensures(parse_kb_id, (raw,), Ok(kb_id))
                &&& names_page(slug_for_url, page.url@, page_slug)
                &&& keeps_page(request, *job, *page, kb_id, page_slug)
            };
        page_path_is_put_together(
            job.job_id@,
            job.name@,
            page_slug,
            page.url_fingerprint@,
        );
        assert(call_ensures(parse_kb_id, (raw,), Ok(kb_id)));
        assert(is_slug_of(slug_for_url, page.url@, page_slug));
    }
}

/// The receipt names the path that the knowledge base reported.
pub proof fn receipt_names_the_reported_path(reported: String, r: IngestReceipt)
    requires
        call_ensures(receipt, (reported,), r),
    ensures
        r.rel_path@ == reported@,
{
}

} // verus!
