//! What holds of every path and every document of the crawler.
use vstd::prelude::*;
use vstd::utf8::{encode_utf8, is_ascii_chars, is_char_boundary};

use crate::sink::{
    begins_with, document_key, escaped, escaped_char, file_name, id_tail, job_directory, on_one_line,
    page_path, quoted, readable, shortened, slug, words, CRAWL_REL_DIR, JOB_ID_SUFFIX_LEN,
    READABLE_LEN, SLUG_LEN,
};
use crate::text::{is_alphanumeric, lower, trimmed, trimmed_back, trimmed_front, Margin};

verus! {

/// Whether `back` is where `whole` ends.
pub open spec fn ends_with(whole: Seq<char>, back: Seq<char>) -> bool {
    back.len() <= whole.len() && whole.skip(whole.len() - back.len()) == back
}

proof fn trimmed_front_range(text: Seq<char>, margin: Margin) -> (from: int)
    ensures
        0 <= from <= text.len(),
        trimmed_front(text, margin) == text.skip(from),
        forall|i: int| 0 <= i < from ==> margin.covers(#[trigger] text[i]),
        from < text.len() ==> !margin.covers(text[from]),
    decreases text.len(),
{
    if text.len() > 0 && margin.covers(text.first()) {
        let from = trimmed_front_range(text.drop_first(), margin);
        assert(text.drop_first().skip(from) == text.skip(from + 1));
        assert forall|i: int| 0 <= i < from + 1 implies margin.covers(#[trigger] text[i]) by {
            if i > 0 {
                assert(text.drop_first()[i - 1] == text[i]);
            }
        }
        from + 1
    } else {
        assert(text.skip(0) == text);
        0
    }
}

proof fn trimmed_back_range(text: Seq<char>, margin: Margin) -> (to: int)
    ensures
        0 <= to <= text.len(),
        trimmed_back(text, margin) == text.take(to),
        forall|i: int| to <= i < text.len() ==> margin.covers(#[trigger] text[i]),
        0 < to ==> !margin.covers(text[to - 1]),
    decreases text.len(),
{
    if text.len() > 0 && margin.covers(text.last()) {
        let to = trimmed_back_range(text.drop_last(), margin);
        assert(text.drop_last().take(to) == text.take(to));
        assert forall|i: int| to <= i < text.len() implies margin.covers(#[trigger] text[i]) by {
            if i < text.len() - 1 {
                assert(text.drop_last()[i] == text[i]);
            }
        }
        to
    } else {
        assert(text.take(text.len() as int) == text);
        text.len() as int
    }
}

/// Trimming gives a part of the text that no margin character begins or ends,
/// and loses nothing but margin: every character before the part and behind it
/// belongs to the margin.
pub proof fn trimmed_is_a_part(text: Seq<char>, margin: Margin) -> (range: (int, int))
    ensures
        0 <= range.0 <= range.1 <= text.len(),
        trimmed(text, margin) == text.subrange(range.0, range.1),
        forall|i: int| 0 <= i < range.0 ==> margin.covers(#[trigger] text[i]),
        forall|i: int| range.1 <= i < text.len() ==> margin.covers(#[trigger] text[i]),
        range.0 < range.1 ==> !margin.covers(text[range.0]) && !margin.covers(text[range.1 - 1]),
        trimmed(text, margin).len() > 0 ==> {
            &&& !margin.covers(trimmed(text, margin).first())
            &&& !margin.covers(trimmed(text, margin).last())
        },
{
    let from = trimmed_front_range(text, margin);
    let rest = text.skip(from);
    let len = trimmed_back_range(rest, margin);
    assert(rest.take(len) == text.subrange(from, from + len));
    assert forall|i: int| from + len <= i < text.len() implies margin.covers(#[trigger] text[i]) by {
        assert(rest[i - from] == text[i]);
    }
    (from, from + len)
}

/// A character of a slug.
pub open spec fn is_slug_char(ch: char) -> bool {
    'a' <= ch <= 'z' || '0' <= ch <= '9' || ch == '-'
}

/// No two dashes stand side by side.
pub open spec fn dashes_apart(text: Seq<char>) -> bool {
    forall|i: int, j: int|
        0 <= i && j == i + 1 && j < text.len() ==> !(#[trigger] text[i] == '-' && #[trigger] text[j]
            == '-')
}

proof fn words_are_clean(name: Seq<char>)
    ensures
        forall|i: int| 0 <= i < words(name).len() ==> is_slug_char(#[trigger] words(name)[i]),
        dashes_apart(words(name)),
    decreases name.len(),
{
    if name.len() > 0 {
        words_are_clean(name.drop_last());
        assert(is_alphanumeric(name.last()) ==> is_slug_char(lower(name.last())) && lower(
            name.last(),
        ) != '-');
    }
}

/// The directory part that stands for a job's name is never empty, is at most
/// sixty characters long, and is made of lower-case letters and digits with
/// single dashes between them.
pub proof fn slug_is_clean(name: Seq<char>)
    ensures
        0 < slug(name).len() <= SLUG_LEN,
        forall|i: int| 0 <= i < slug(name).len() ==> is_slug_char(#[trigger] slug(name)[i]),
        slug(name).first() != '-',
        slug(name).last() != '-',
        dashes_apart(slug(name)),
{
    reveal_strlit("job");
    words_are_clean(name);
    let short = shortened(words(name), SLUG_LEN as nat);
    let range = trimmed_is_a_part(short, Margin::Dashes);
    let cut = trimmed(short, Margin::Dashes);
    assert forall|i: int| 0 <= i < cut.len() implies is_slug_char(#[trigger] cut[i]) by {
        assert(cut[i] == words(name)[range.0 + i]);
    }
    assert forall|i: int, j: int| 0 <= i && j == i + 1 && j < cut.len() implies !(#[trigger] cut[i]
        == '-' && #[trigger] cut[j] == '-') by {
        assert(cut[i] == words(name)[range.0 + i]);
        assert(cut[j] == words(name)[range.0 + j]);
    }
}

proof fn words_of_clean_text(text: Seq<char>)
    requires
        forall|i: int| 0 <= i < text.len() ==> is_slug_char(#[trigger] text[i]),
        dashes_apart(text),
        text.len() > 0 ==> text.first() != '-',
    ensures
        words(text) == text,
    decreases text.len(),
{
    if text.len() > 0 {
        let front = text.drop_last();
        assert forall|i: int| 0 <= i < front.len() implies is_slug_char(#[trigger] front[i]) by {
            assert(front[i] == text[i]);
        }
        assert(is_slug_char(text[text.len() - 1]));
        if front.len() > 0 {
            assert(front.first() == text.first());
            assert(!(text[text.len() - 2] == '-' && text[text.len() - 1] == '-'));
        }
        words_of_clean_text(front);
        assert(words(text) =~= text);
    } else {
        assert(text =~= Seq::empty());
    }
}

/// A name that is a slug already is kept as it is.
pub proof fn slug_of_a_slug_is_itself(name: Seq<char>)
    ensures
        slug(slug(name)) == slug(name),
{
    slug_is_clean(name);
    let text = slug(name);
    words_of_clean_text(text);
    assert(shortened(text, SLUG_LEN as nat) =~= text);
}

/// The readable part of a file name is never empty, is at most forty-eight
/// characters long, and no dash begins or ends it.
pub proof fn readable_part_is_tidy(page_slug: Seq<char>)
    ensures
        0 < readable(page_slug).len() <= READABLE_LEN,
        readable(page_slug).first() != '-',
        readable(page_slug).last() != '-',
{
    reveal_strlit("page");
    let range = trimmed_is_a_part(shortened(page_slug, READABLE_LEN as nat), Margin::Dashes);
}

/// Of an id in ASCII, the directory name holds the last eight characters, or
/// the whole id where it is shorter.
pub proof fn id_tail_is_the_end(id: Seq<char>)
    requires
        is_ascii_chars(id),
    ensures
        id_tail(id) == id.skip(
            if id.len() < JOB_ID_SUFFIX_LEN {
                0
            } else {
                id.len() - JOB_ID_SUFFIX_LEN
            },
        ),
{
    let cut = if id.len() < JOB_ID_SUFFIX_LEN {
        0
    } else {
        id.len() - JOB_ID_SUFFIX_LEN
    };
    let tail = id.skip(cut);
    vstd::utf8::is_ascii_chars_encode_utf8(id);
    vstd::utf8::is_ascii_chars_encode_utf8(tail);
    assert(encode_utf8(id).skip(cut) =~= encode_utf8(tail));
    vstd::utf8::encode_utf8_decode_utf8(tail);
    vstd::utf8::encode_utf8_valid_utf8(id);
    assert(is_char_boundary(encode_utf8(id), cut)) by {
        if cut < id.len() {
            vstd::utf8::is_char_boundary_iff_is_leading_byte(encode_utf8(id), cut);
            assert(encode_utf8(id)[cut] == id[cut] as u8);
        } else {
            vstd::utf8::is_char_boundary_start_end_of_seq(encode_utf8(id));
        }
    }
}

/// Every document lies below the crawler's root, never among the snapshots of
/// URL sources, and is a Markdown file.
pub proof fn path_is_below_the_root(
    job_id: Seq<char>,
    job_name: Seq<char>,
    page_slug: Seq<char>,
    fingerprint: Seq<char>,
)
    ensures
        begins_with(page_path(job_id, job_name, page_slug, fingerprint), CRAWL_REL_DIR@ + "/"@),
        !begins_with(page_path(job_id, job_name, page_slug, fingerprint), "snapshots/"@),
        ends_with(page_path(job_id, job_name, page_slug, fingerprint), ".md"@),
{
    let path = page_path(job_id, job_name, page_slug, fingerprint);
    reveal_strlit("crawl");
    reveal_strlit("snapshots/");
    assert(path.take((CRAWL_REL_DIR@ + "/"@).len() as int) =~= CRAWL_REL_DIR@ + "/"@);
    assert(path[0] == 'c');
    if begins_with(path, "snapshots/"@) {
        assert(path.take("snapshots/"@.len() as int)[0] == path[0]);
    }
    assert(path.skip(path.len() - ".md"@.len()) =~= ".md"@);
}

proof fn later_part_decides(front: Seq<char>, a: Seq<char>, b: Seq<char>)
    requires
        front + a == front + b,
    ensures
        a == b,
{
    assert((front + a).skip(front.len() as int) =~= a);
    assert((front + b).skip(front.len() as int) =~= b);
}

proof fn longer_end_holds_the_shorter(
    front_a: Seq<char>,
    end_a: Seq<char>,
    front_b: Seq<char>,
    end_b: Seq<char>,
)
    requires
        front_a + "-"@ + end_a == front_b + "-"@ + end_b,
        end_a.len() <= end_b.len(),
        end_a != end_b,
    ensures
        ends_with(end_b, "-"@ + end_a),
{
    reveal_strlit("-");
    let whole = front_a + "-"@ + end_a;
    let n = whole.len();
    let more = end_b.len() - end_a.len();
    assert forall|i: int| more <= i < end_b.len() implies #[trigger] end_b[i] == end_a[i - more] by {
        assert(whole[n - end_a.len() + (i - more)] == end_a[i - more]);
        assert(whole[n - end_b.len() + i] == end_b[i]);
    }
    if more == 0 {
        assert(end_a =~= end_b);
    } else {
        assert(whole[n - end_a.len() - 1] == '-');
        assert(whole[n - end_b.len() + (more - 1)] == end_b[more - 1]);
        assert(end_b.skip(more - 1) =~= "-"@ + end_a);
    }
}

/// Two texts that end behind a dash meet only if one of the ends holds the
/// other.
proof fn end_decides(front_a: Seq<char>, end_a: Seq<char>, front_b: Seq<char>, end_b: Seq<char>)
    requires
        end_a != end_b,
        !ends_with(end_a, "-"@ + end_b),
        !ends_with(end_b, "-"@ + end_a),
    ensures
        front_a + "-"@ + end_a != front_b + "-"@ + end_b,
{
    if front_a + "-"@ + end_a == front_b + "-"@ + end_b {
        if end_a.len() <= end_b.len() {
            longer_end_holds_the_shorter(front_a, end_a, front_b, end_b);
        } else {
            longer_end_holds_the_shorter(front_b, end_b, front_a, end_a);
        }
    }
}

/// Pages with different fingerprints never share a file, whatever their URLs
/// read like, and whatever jobs they belong to. The one way in which two
/// fingerprints could meet is that one of them ends with a dash and the other;
/// fingerprints of one length, or without dashes, never do.
pub proof fn fingerprint_decides_the_file(
    id_a: Seq<char>,
    name_a: Seq<char>,
    slug_a: Seq<char>,
    fingerprint_a: Seq<char>,
    id_b: Seq<char>,
    name_b: Seq<char>,
    slug_b: Seq<char>,
    fingerprint_b: Seq<char>,
)
    requires
        fingerprint_a != fingerprint_b,
        !ends_with(fingerprint_a, "-"@ + fingerprint_b),
        !ends_with(fingerprint_b, "-"@ + fingerprint_a),
    ensures
        page_path(id_a, name_a, slug_a, fingerprint_a) != page_path(
            id_b,
            name_b,
            slug_b,
            fingerprint_b,
        ),
{
    let path_a = page_path(id_a, name_a, slug_a, fingerprint_a);
    let path_b = page_path(id_b, name_b, slug_b, fingerprint_b);
    let root = CRAWL_REL_DIR@ + "/"@;
    let front_a = root + job_directory(id_a, name_a) + "/"@ + readable(slug_a);
    let front_b = root + job_directory(id_b, name_b) + "/"@ + readable(slug_b);
    let whole_a = front_a + "-"@ + fingerprint_a;
    let whole_b = front_b + "-"@ + fingerprint_b;
    assert(path_a =~= whole_a + ".md"@);
    assert(path_b =~= whole_b + ".md"@);
    assert(path_a.take(path_a.len() - ".md"@.len()) =~= whole_a);
    assert(path_b.take(path_b.len() - ".md"@.len()) =~= whole_b);
    end_decides(front_a, fingerprint_a, front_b, fingerprint_b);
}

/// Fingerprints of one length decide the file by themselves.
pub proof fn fingerprints_of_one_length_never_meet(
    id_a: Seq<char>,
    name_a: Seq<char>,
    slug_a: Seq<char>,
    fingerprint_a: Seq<char>,
    id_b: Seq<char>,
    name_b: Seq<char>,
    slug_b: Seq<char>,
    fingerprint_b: Seq<char>,
)
    requires
        fingerprint_a != fingerprint_b,
        fingerprint_a.len() == fingerprint_b.len(),
    ensures
        page_path(id_a, name_a, slug_a, fingerprint_a) != page_path(
            id_b,
            name_b,
            slug_b,
            fingerprint_b,
        ),
{
    reveal_strlit("-");
    fingerprint_decides_the_file(
        id_a,
        name_a,
        slug_a,
        fingerprint_a,
        id_b,
        name_b,
        slug_b,
        fingerprint_b,
    );
}

/// Jobs whose ids end differently never share a directory, even under one name.
/// The one way in which two directories could meet is that one end itself ends
/// with a dash and the other; ends of one length never do.
pub proof fn id_tail_decides_the_directory(
    id_a: Seq<char>,
    name_a: Seq<char>,
    id_b: Seq<char>,
    name_b: Seq<char>,
)
    requires
        id_tail(id_a) != id_tail(id_b),
        !ends_with(id_tail(id_a), "-"@ + id_tail(id_b)),
        !ends_with(id_tail(id_b), "-"@ + id_tail(id_a)),
    ensures
        job_directory(id_a, name_a) != job_directory(id_b, name_b),
{
    end_decides(slug(name_a), id_tail(id_a), slug(name_b), id_tail(id_b));
}

/// A text without a slash.
pub open spec fn is_one_component(text: Seq<char>) -> bool {
    forall|i: int| 0 <= i < text.len() ==> #[trigger] text[i] != '/'
}

proof fn first_component_decides(
    dir_a: Seq<char>,
    rest_a: Seq<char>,
    dir_b: Seq<char>,
    rest_b: Seq<char>,
)
    requires
        is_one_component(dir_a),
        is_one_component(dir_b),
        dir_a + "/"@ + rest_a == dir_b + "/"@ + rest_b,
    ensures
        dir_a == dir_b,
{
    reveal_strlit("/");
    let whole_a = dir_a + "/"@ + rest_a;
    let whole_b = dir_b + "/"@ + rest_b;
    if dir_a.len() < dir_b.len() {
        assert(whole_a[dir_a.len() as int] == '/');
        assert(whole_b[dir_a.len() as int] == dir_b[dir_a.len() as int]);
    } else if dir_b.len() < dir_a.len() {
        assert(whole_b[dir_b.len() as int] == '/');
        assert(whole_a[dir_b.len() as int] == dir_a[dir_b.len() as int]);
    } else {
        assert(whole_a.take(dir_a.len() as int) =~= dir_a);
        assert(whole_b.take(dir_b.len() as int) =~= dir_b);
    }
}

/// Jobs whose ids end differently never write the same file: no page of the one
/// can overwrite a page of the other.
pub proof fn jobs_do_not_share_files(
    id_a: Seq<char>,
    name_a: Seq<char>,
    slug_a: Seq<char>,
    fingerprint_a: Seq<char>,
    id_b: Seq<char>,
    name_b: Seq<char>,
    slug_b: Seq<char>,
    fingerprint_b: Seq<char>,
)
    requires
        id_tail(id_a) != id_tail(id_b),
        !ends_with(id_tail(id_a), "-"@ + id_tail(id_b)),
        !ends_with(id_tail(id_b), "-"@ + id_tail(id_a)),
        is_one_component(id_tail(id_a)),
        is_one_component(id_tail(id_b)),
    ensures
        page_path(id_a, name_a, slug_a, fingerprint_a) != page_path(
            id_b,
            name_b,
            slug_b,
            fingerprint_b,
        ),
{
    reveal_strlit("-");
    id_tail_decides_the_directory(id_a, name_a, id_b, name_b);
    slug_is_clean(name_a);
    slug_is_clean(name_b);
    let dir_a = job_directory(id_a, name_a);
    let dir_b = job_directory(id_b, name_b);
    let file_a = file_name(slug_a, fingerprint_a);
    let file_b = file_name(slug_b, fingerprint_b);
    if page_path(id_a, name_a, slug_a, fingerprint_a) == page_path(
        id_b,
        name_b,
        slug_b,
        fingerprint_b,
    ) {
        let root = CRAWL_REL_DIR@ + "/"@;
        assert(root + dir_a + "/"@ + file_a =~= root + (dir_a + "/"@ + file_a));
        assert(root + dir_b + "/"@ + file_b =~= root + (dir_b + "/"@ + file_b));
        later_part_decides(root, dir_a + "/"@ + file_a, dir_b + "/"@ + file_b);
        first_component_decides(dir_a, file_a, dir_b, file_b);
    }
}

/// The knowledge base tells two documents apart by their keys: the keys of two
/// pages differ unless job and fingerprint are the same. The one way in which
/// the keys of two jobs could meet is that one id begins with the other and a
/// colon.
pub proof fn document_keys_differ(
    id_a: Seq<char>,
    fingerprint_a: Seq<char>,
    id_b: Seq<char>,
    fingerprint_b: Seq<char>,
)
    requires
        id_a != id_b || fingerprint_a != fingerprint_b,
        !begins_with(id_a, id_b + ":"@),
        !begins_with(id_b, id_a + ":"@),
    ensures
        document_key(id_a, fingerprint_a) != document_key(id_b, fingerprint_b),
{
    reveal_strlit(":");
    let key_a = document_key(id_a, fingerprint_a);
    let key_b = document_key(id_b, fingerprint_b);
    if key_a == key_b {
        if id_a.len() < id_b.len() {
            let front = id_a + ":"@;
            assert(key_a.take(front.len() as int) =~= front);
            assert(key_b.take(front.len() as int) =~= id_b.take(front.len() as int));
        } else if id_b.len() < id_a.len() {
            let front = id_b + ":"@;
            assert(key_b.take(front.len() as int) =~= front);
            assert(key_a.take(front.len() as int) =~= id_a.take(front.len() as int));
        } else {
            assert(key_a.take(id_a.len() as int) =~= id_a);
            assert(key_b.take(id_b.len() as int) =~= id_b);
            later_part_decides(id_a + ":"@, fingerprint_a, fingerprint_b);
        }
    }
}

/// What a reader of YAML makes of the inside of a double-quoted scalar, as far
/// as backslashes stand before backslashes and quotes only; nothing for any
/// other text.
pub open spec fn unescaped(text: Seq<char>) -> Option<Seq<char>>
    decreases text.len(),
{
    if text.len() == 0 {
        Some(Seq::empty())
    } else if text[0] == '\\' {
        if text.len() > 1 && (text[1] == '\\' || text[1] == '"') {
            match unescaped(text.skip(2)) {
                Some(rest) => Some(seq![text[1]] + rest),
                None => None,
            }
        } else {
            None
        }
    } else if text[0] == '"' {
        None
    } else {
        match unescaped(text.skip(1)) {
            Some(rest) => Some(seq![text[0]] + rest),
            None => None,
        }
    }
}

proof fn escaped_from_front(text: Seq<char>)
    requires
        text.len() > 0,
    ensures
        escaped(text) == escaped_char(text[0]) + escaped(text.skip(1)),
    decreases text.len(),
{
    if text.len() == 1 {
        assert(text.drop_last() =~= Seq::empty());
        assert(text.skip(1) =~= Seq::empty());
        assert(escaped(text.drop_last()) =~= Seq::empty());
        assert(text.last() == text[0]);
        assert(escaped(text) =~= escaped_char(text[0]));
        assert(escaped_char(text[0]) + escaped(text.skip(1)) =~= escaped_char(text[0]));
    } else {
        let front = text.drop_last();
        escaped_from_front(front);
        assert(front.skip(1) =~= text.skip(1).drop_last());
        assert(text.skip(1).last() == text.last());
        assert(escaped(text) =~= escaped_char(text[0]) + (escaped(front.skip(1)) + escaped_char(
            text.last(),
        )));
    }
}

proof fn unescaped_undoes_escaped(text: Seq<char>)
    ensures
        unescaped(escaped(text)) == Some(text),
    decreases text.len(),
{
    if text.len() == 0 {
        assert(text =~= Seq::empty());
    } else {
        let rest = text.skip(1);
        let head = escaped_char(text[0]);
        escaped_from_front(text);
        unescaped_undoes_escaped(rest);
        assert(escaped(text).skip(head.len() as int) =~= escaped(rest));
        assert(text =~= seq![text[0]] + rest);
    }
}

proof fn escaped_adds_no_breaks(text: Seq<char>)
    requires
        forall|i: int| 0 <= i < text.len() ==> #[trigger] text[i] != '\n' && text[i] != '\r',
    ensures
        forall|i: int|
            0 <= i < escaped(text).len() ==> #[trigger] escaped(text)[i] != '\n' && escaped(text)[i]
                != '\r',
    decreases text.len(),
{
    if text.len() > 0 {
        let front = escaped(text.drop_last());
        let back = escaped_char(text[text.len() - 1]);
        escaped_adds_no_breaks(text.drop_last());
        assert forall|i: int| 0 <= i < escaped(text).len() implies #[trigger] escaped(text)[i]
            != '\n' && escaped(text)[i] != '\r' by {
            assert(escaped(text) == front + back);
            if i < front.len() {
                assert(escaped(text)[i] == front[i]);
            } else {
                assert(escaped(text)[i] == back[i - front.len()]);
            }
        }
    }
}

/// A reader gets back what was quoted, with line breaks as blanks.
pub proof fn quoted_value_reads_back(value: Seq<char>)
    ensures
        quoted(value).len() >= 2,
        quoted(value).first() == '"',
        quoted(value).last() == '"',
        unescaped(quoted(value).subrange(1, quoted(value).len() - 1)) == Some(on_one_line(value)),
{
    let inside = escaped(on_one_line(value));
    unescaped_undoes_escaped(on_one_line(value));
    assert(quoted(value).subrange(1, quoted(value).len() - 1) =~= inside);
}

/// A quoted value stays on its line of the front matter.
pub proof fn quoted_value_stays_on_its_line(value: Seq<char>)
    ensures
        forall|i: int|
            0 <= i < quoted(value).len() ==> #[trigger] quoted(value)[i] != '\n' && quoted(value)[i]
                != '\r',
{
    escaped_adds_no_breaks(on_one_line(value));
}

} // verus!
