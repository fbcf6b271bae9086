//! What the names of directories and files are made of.
use url::Url;
use vstd::prelude::*;
use vstd::utf8::{decode_utf8, encode_scalar, encode_utf8, is_char_boundary, pop_first_scalar};

use crate::model::CrawlJobId;
use crate::sink::{
    document_path, id_suffix, id_tail, names_page, page_path, page_slug, parsed_url, path_for_slug,
    readable, shortened, slug, slugify, words, CRAWL_REL_DIR, READABLE_LEN, SLUG_LEN,
};
use crate::sink_laws::trimmed_is_a_part;
use crate::text::{is_alphanumeric, lower, trimmed, Margin};

verus! {

/// An ASCII letter or digit.
pub open spec fn is_letter(ch: char) -> bool {
    48 <= ch as u32 <= 57 || 65 <= ch as u32 <= 90 || 97 <= ch as u32 <= 122
}

/// The small letter of a capital; any other character as it is.
pub open spec fn small(ch: char) -> char {
    if 65 <= ch as u32 <= 90 {
        (ch as u32 + 32) as char
    } else {
        ch
    }
}

/// The ASCII letters and digits of a text, in order, in lower case.
pub open spec fn letters(text: Seq<char>) -> Seq<char> {
    text.filter(|ch: char| is_letter(ch)).map_values(|ch: char| small(ch))
}

/// A text without its dashes.
pub open spec fn undashed(text: Seq<char>) -> Seq<char> {
    text.filter(|ch: char| ch != '-')
}

/// Where the characters of `words(name)` come from.
spec fn places(name: Seq<char>) -> Seq<int>
    decreases name.len(),
{
    if name.len() == 0 {
        Seq::empty()
    } else {
        let front = places(name.drop_last());
        if words(name).len() > words(name.drop_last()).len() {
            front.push(name.len() - 1)
        } else {
            front
        }
    }
}

/// Whether `out` is what the places `at` of the name make: every letter up to
/// the last place, in lower case, and one dash for each gap between them.
pub open spec fn spells(name: Seq<char>, at: Seq<int>, out: Seq<char>) -> bool {
    &&& at.len() == out.len()
    &&& forall|i: int| 0 <= i < at.len() ==> 0 <= #[trigger] at[i] < name.len()
    &&& forall|i: int|
        0 <= i < at.len() ==> if is_letter(name[#[trigger] at[i]]) {
            out[i] == small(name[at[i]])
        } else {
            out[i] == '-'
        }
    &&& at.len() > 0 ==> is_letter(name[at[0]])
    &&& at.len() > 0 ==> forall|p: int|
        0 <= p < at[0] ==> !is_letter(#[trigger] name[p])
    &&& forall|i: int, j: int|
        #![trigger at[i], at[j]]
        0 <= i && j == i + 1 && j < at.len() && is_letter(name[at[i]]) ==> at[j] == at[i] + 1
    &&& forall|i: int, j: int|
        #![trigger at[i], at[j]]
        0 <= i && j == i + 1 && j < at.len() && !is_letter(name[at[i]]) ==> at[i] < at[j]
            && is_letter(name[at[j]]) && forall|p: int|
            at[i] < p < at[j] ==> !is_letter(#[trigger] name[p])
}

proof fn small_is_no_dash(ch: char)
    ensures
        is_letter(ch) <==> is_alphanumeric(ch),
        small(ch) == lower(ch),
        is_letter(ch) ==> small(ch) != '-',
{
}

proof fn places_spell_the_words(name: Seq<char>)
    ensures
        spells(name, places(name), words(name)),
        words(name).len() == 0 ==> forall|p: int|
            0 <= p < name.len() ==> !is_letter(#[trigger] name[p]),
        words(name).len() > 0 ==> forall|p: int|
            places(name).last() < p < name.len() ==> !is_letter(#[trigger] name[p]),
        words(name).len() > 0 && words(name).last() != '-' ==> places(name).last() == name.len() - 1,
    decreases name.len(),
{
    if name.len() > 0 {
        let short = name.drop_last();
        let at = places(short);
        let out = words(short);
        let n = name.len() - 1;
        places_spell_the_words(short);
        small_is_no_dash(name.last());
        assert forall|p: int| 0 <= p < n implies short[p] == name[p] by {}
        if at.len() > 0 {
            small_is_no_dash(name[at.last()]);
            assert(at.last() == at[at.len() - 1]);
        }
        let next = places(name);
        let done = words(name);
        if done.len() > out.len() {
            assert(next == at.push(n));
            assert forall|i: int| 0 <= i < at.len() implies next[i] == at[i] by {}
        } else {
            assert(next == at);
            assert(done == out);
        }
        assert forall|i: int| 0 <= i < next.len() implies 0 <= #[trigger] next[i] < name.len() by {
            if i < at.len() {
                assert(0 <= at[i] < short.len());
            }
        }
        assert forall|i: int| 0 <= i < next.len() implies if is_letter(name[#[trigger] next[i]]) {
            done[i] == small(name[next[i]])
        } else {
            done[i] == '-'
        } by {
            if i < at.len() {
                assert(0 <= at[i] < short.len());
                assert(short[at[i]] == name[at[i]]);
            }
        }
        assert forall|i: int, j: int|
            #![trigger next[i], next[j]]
            0 <= i && j == i + 1 && j < next.len() && is_letter(name[next[i]]) implies next[j]
            == next[i] + 1 by {
            assert(0 <= at[i] < short.len());
            if j < at.len() {
                assert(at[j] == at[i] + 1);
            }
        }
        assert forall|i: int, j: int|
            #![trigger next[i], next[j]]
            0 <= i && j == i + 1 && j < next.len() && !is_letter(name[next[i]]) implies next[i]
            < next[j] && is_letter(name[next[j]]) && forall|p: int|
            next[i] < p < next[j] ==> !is_letter(#[trigger] name[p]) by {
            assert(0 <= at[i] < short.len());
            if j < at.len() {
                assert(at[i] < at[j]);
                assert forall|p: int| next[i] < p < next[j] implies !is_letter(
                    #[trigger] name[p],
                ) by {
                    assert(short[p] == name[p]);
                }
            } else {
                assert(i == at.len() - 1);
                assert forall|p: int| next[i] < p < next[j] implies !is_letter(
                    #[trigger] name[p],
                ) by {
                    assert(short[p] == name[p]);
                }
            }
        }
        assert forall|p: int| next.len() > 0 && 0 <= p < next[0] implies !is_letter(
            #[trigger] name[p],
        ) by {
            assert(short[p] == name[p]);
        }
        if next.len() > 0 {
            if at.len() > 0 {
                assert(next[0] == at[0]);
                assert(0 <= at[0] < short.len());
                assert(short[at[0]] == name[at[0]]);
            }
            assert forall|p: int| next.last() < p < name.len() implies !is_letter(
                #[trigger] name[p],
            ) by {
                if p < n {
                    assert(short[p] == name[p]);
                }
            }
        } else {
            assert forall|p: int| 0 <= p < name.len() implies !is_letter(#[trigger] name[p]) by {
                if p < n {
                    assert(short[p] == name[p]);
                }
            }
        }
    }
}

proof fn front_is_spelled(name: Seq<char>, at: Seq<int>, out: Seq<char>, len: int)
    requires
        spells(name, at, out),
        0 <= len <= out.len(),
    ensures
        spells(name, at.take(len), out.take(len)),
{
    let some = at.take(len);
    assert forall|i: int| 0 <= i < some.len() implies some[i] == at[i] by {}
    assert forall|i: int| 0 <= i < some.len() implies 0 <= #[trigger] some[i] < name.len() by {
        assert(0 <= at[i] < name.len());
    }
    assert forall|i: int| 0 <= i < some.len() implies if is_letter(name[#[trigger] some[i]]) {
        out.take(len)[i] == small(name[some[i]])
    } else {
        out.take(len)[i] == '-'
    } by {
        assert(0 <= at[i] < name.len());
    }
    assert forall|i: int, j: int|
        #![trigger some[i], some[j]]
        0 <= i && j == i + 1 && j < some.len() && is_letter(name[some[i]]) implies some[j]
        == some[i] + 1 by {
        assert(at[j] == at[i] + 1);
    }
    assert forall|i: int, j: int|
        #![trigger some[i], some[j]]
        0 <= i && j == i + 1 && j < some.len() && !is_letter(name[some[i]]) implies some[i]
        < some[j] && is_letter(name[some[j]]) && forall|p: int|
        some[i] < p < some[j] ==> !is_letter(#[trigger] name[p]) by {
        assert(at[i] < at[j]);
    }
}

proof fn words_without_dashes_are_the_letters(name: Seq<char>)
    ensures
        undashed(words(name)) == letters(name),
    decreases name.len(),
{
    reveal(Seq::filter);
    if name.len() == 0 {
        assert(undashed(words(name)) =~= letters(name));
    } else {
        words_without_dashes_are_the_letters(name.drop_last());
        small_is_no_dash(name.last());
        let front = words(name.drop_last());
        if words(name).len() > front.len() {
            assert(words(name).drop_last() =~= front);
        }
        assert(undashed(words(name)) =~= letters(name));
    }
}

proof fn front_has_the_first_letters(text: Seq<char>, len: int)
    requires
        0 <= len <= text.len(),
    ensures
        undashed(text.take(len)).is_prefix_of(undashed(text)),
    decreases text.len() - len,
{
    reveal(Seq::filter);
    if len == text.len() {
        assert(text.take(len) =~= text);
    } else {
        front_has_the_first_letters(text, len + 1);
        assert(text.take(len + 1).drop_last() =~= text.take(len));
    }
}

proof fn no_letters_in(name: Seq<char>)
    ensures
        letters(name).len() == 0 <==> forall|p: int|
            0 <= p < name.len() ==> !is_letter(#[trigger] name[p]),
    decreases name.len(),
{
    reveal(Seq::filter);
    if name.len() > 0 {
        let front = name.drop_last();
        no_letters_in(front);
        if letters(name).len() == 0 {
            assert forall|p: int| 0 <= p < name.len() implies !is_letter(#[trigger] name[p]) by {
                if p < front.len() {
                    assert(front[p] == name[p]);
                }
            }
        }
        if forall|p: int| 0 <= p < name.len() ==> !is_letter(#[trigger] name[p]) {
            assert forall|p: int| 0 <= p < front.len() implies !is_letter(#[trigger] front[p]) by {
                assert(front[p] == name[p]);
            }
            assert(!is_letter(name[name.len() - 1]));
        }
    }
}

/// Whether the places take as much of the name as sixty characters hold: no
/// letter is left behind the last place, or sixty characters are used up, or
/// fifty-nine are and the next letter lies behind a gap, whose dash would be the
/// sixtieth and end the text.
pub open spec fn fills_sixty(name: Seq<char>, at: Seq<int>) -> bool {
    ||| forall|p: int| at.last() < p < name.len() ==> !is_letter(#[trigger] name[p])
    ||| at.len() == 60
    ||| at.len() == 59 && !is_letter(name[at.last() + 1])
}

proof fn slug_spells(name: Seq<char>) -> (at: Seq<int>)
    ensures
        letters(name).len() == 0 ==> slug(name) == "job"@,
        letters(name).len() > 0 ==> {
            &&& 0 < slug(name).len() <= 60
            &&& slug(name).last() != '-'
            &&& spells(name, at, slug(name))
            &&& fills_sixty(name, at)
            &&& undashed(slug(name)).len() > 0
            &&& undashed(slug(name)).is_prefix_of(letters(name))
            &&& words(name).len() <= 60 ==> undashed(slug(name)) == letters(name)
        },
{
    let all = words(name);
    let short = shortened(all, SLUG_LEN as nat);
    let cut = trimmed(short, Margin::Dashes);
    let range = trimmed_is_a_part(short, Margin::Dashes);
    places_spell_the_words(name);
    no_letters_in(name);
    words_without_dashes_are_the_letters(name);
    if all.len() == 0 {
        assert(letters(name).len() == 0) by {
            reveal(Seq::filter);
        }
        assert(cut.len() == 0);
        Seq::empty()
    } else {
        let places = places(name);
        small_is_no_dash(name[places[0]]);
        assert(all[0] == small(name[places[0]]));
        assert(short[0] == all[0]);
        assert(range.0 == 0);
        let len = range.1;
        assert(len > 0);
        assert(short.len() - 1 <= len) by {
            if len < short.len() - 1 {
                assert(Margin::Dashes.covers(short[len]));
                assert(Margin::Dashes.covers(short[len + 1]));
                assert(0 <= places[len] < name.len());
                small_is_no_dash(name[places[len]]);
                assert(!is_letter(name[places[len]]));
                assert(is_letter(name[places[len + 1]]));
                small_is_no_dash(name[places[len + 1]]);
                assert(all[len + 1] == small(name[places[len + 1]]));
            }
        }
        assert(cut =~= all.take(len));
        front_is_spelled(name, places, all, len);
        let at = places.take(len);
        assert(at.last() == places[len - 1]);
        if len < places.len() {
            assert(!Margin::Dashes.covers(short[len - 1]));
            assert(0 <= places[len - 1] < name.len());
            assert(is_letter(name[places[len - 1]]));
            assert(places[len] == places[len - 1] + 1);
            if len < short.len() {
                assert(Margin::Dashes.covers(short[len]));
                small_is_no_dash(name[places[len]]);
                assert(!is_letter(name[places[len]]));
                if short.len() == places.len() {
                    assert(places.last() == places[len]);
                    assert forall|p: int| at.last() < p < name.len() implies !is_letter(
                        #[trigger] name[p],
                    ) by {
                        assert(p == places[len] || places.last() < p);
                    }
                }
            }
        }
        front_has_the_first_letters(all, len);
        reveal(Seq::filter);
        assert(undashed(all.take(len)).len() > 0) by {
            front_has_the_first_letters(all.take(len), 1);
            let one = all.take(len).take(1);
            assert(one =~= seq![all[0]]);
            assert(one.drop_last() =~= Seq::empty());
            assert(undashed(one) =~= seq![all[0]]);
        }
        if all.len() <= 60 {
            assert(short =~= all);
            if len < all.len() {
                assert(all.drop_last() =~= all.take(len));
                assert(all.last() == '-');
            } else {
                assert(all.take(len) =~= all);
            }
        }
        at
    }
}

/// The directory name spells the job's name: its ASCII letters and digits, in
/// order and in lower case, none left out before the last one taken, with one
/// dash for each gap between them and none elsewhere, as many of them as sixty
/// characters take. The stand-in `job` is for names without a letter or digit
/// only.
pub proof fn slug_spells_the_name(name: &str, r: String) -> (at: Seq<int>)
    requires
        call_ensures(slugify, (name,), r),
    ensures
        (forall|p: int| 0 <= p < name@.len() ==> !is_letter(#[trigger] name@[p])) ==> r@ == "job"@,
        (exists|p: int| 0 <= p < name@.len() && is_letter(#[trigger] name@[p])) ==> {
            &&& 0 < r@.len() <= 60
            &&& r@.last() != '-'
            &&& spells(name@, at, r@)
            &&& fills_sixty(name@, at)
        },
{
    no_letters_in(name@);
    slug_spells(name@)
}

/// Without its dashes, the directory name is a front of the letters and digits
/// of the job's name, and never an empty one where there are any; it is all of
/// them where it has fewer than fifty-nine characters.
pub proof fn slug_keeps_the_letters(name: &str, r: String)
    requires
        call_ensures(slugify, (name,), r),
        letters(name@).len() > 0,
    ensures
        undashed(r@).len() > 0,
        undashed(r@).is_prefix_of(letters(name@)),
        r@.len() < 59 ==> undashed(r@) == letters(name@),
{
    let at = slug_spells(name@);
    let all = words(name@);
    if r@.len() < 59 && all.len() > 60 {
        let short = shortened(all, SLUG_LEN as nat);
        let range = trimmed_is_a_part(short, Margin::Dashes);
        places_spell_the_words(name@);
        assert(short[57] == all[57] && short[58] == all[58] && short[59] == all[59]);
        let places = places(name@);
        assert(0 <= places[58] < name@.len() && 0 <= places[59] < name@.len());
        small_is_no_dash(name@[places[58]]);
        small_is_no_dash(name@[places[59]]);
        assert(places[0] >= 0);
        small_is_no_dash(name@[places[0]]);
        assert(short[0] == all[0] && all[0] != '-');
        assert(range.0 == 0);
        assert(Margin::Dashes.covers(short[58]) && Margin::Dashes.covers(short[59]));
        assert(!is_letter(name@[places[58]]));
        assert(is_letter(name@[places[59]]));
    }
}

proof fn encoding_splits(front: Seq<char>, back: Seq<char>)
    ensures
        encode_utf8(front + back) == encode_utf8(front) + encode_utf8(back),
        is_char_boundary(encode_utf8(front + back), encode_utf8(front).len() as int),
    decreases front.len(),
{
    vstd::utf8::encode_utf8_valid_utf8(front + back);
    if front.len() == 0 {
        assert(front + back =~= back);
        assert(encode_utf8(front) + encode_utf8(back) =~= encode_utf8(back));
    } else {
        let whole = front + back;
        let rest = front.drop_first();
        encoding_splits(rest, back);
        assert(whole.drop_first() =~= rest + back);
        vstd::utf8::encode_utf8_first_scalar(whole);
        let bytes = encode_utf8(whole);
        let head = encode_scalar(whole[0] as u32);
        assert(pop_first_scalar(bytes) =~= encode_utf8(rest + back));
        assert(bytes =~= encode_utf8(front) + encode_utf8(back));
        assert(encode_utf8(front).len() == head.len() + encode_utf8(rest).len());
    }
}

/// The end of a job id is its last eight bytes, where these are whole
/// characters; it is the whole id where the id is shorter, or where a character
/// reaches across.
pub proof fn id_suffix_is_the_last_eight_bytes(id: &CrawlJobId, r: &str) -> (from: int)
    requires
        call_ensures(id_suffix, (id,), r),
    ensures
        0 <= from <= id.raw@.len(),
        r@ == id.raw@.skip(from),
        r@ == id.raw@ || encode_utf8(r@).len() == 8,
        encode_utf8(id.raw@).len() <= 8 ==> r@ == id.raw@,
        forall|k: int|
            0 <= k <= id.raw@.len() && encode_utf8(#[trigger] id.raw@.skip(k)).len() == 8 ==> r@
                == id.raw@.skip(k),
{
    let text = id.raw@;
    let bytes = encode_utf8(text);
    let cut = if bytes.len() < 8 {
        0
    } else {
        bytes.len() - 8
    };
    vstd::utf8::encode_utf8_valid_utf8(text);
    vstd::utf8::encode_utf8_decode_utf8(text);
    assert forall|k: int|
        0 <= k <= text.len() && encode_utf8(#[trigger] text.skip(k)).len() == 8 implies r@
        == text.skip(k) by {
        assert(text =~= text.take(k) + text.skip(k));
        encoding_splits(text.take(k), text.skip(k));
        assert(bytes.skip(cut) =~= encode_utf8(text.skip(k)));
        vstd::utf8::encode_utf8_decode_utf8(text.skip(k));
    }
    if is_char_boundary(bytes, cut) {
        vstd::utf8::valid_utf8_split(bytes, cut);
        vstd::utf8::decode_utf8_split(bytes, cut);
        assert(bytes.skip(cut) =~= bytes.subrange(cut, bytes.len() as int));
        vstd::utf8::decode_utf8_encode_utf8(bytes.skip(cut));
        let front = decode_utf8(bytes.subrange(0, cut));
        assert(text =~= front + r@);
        assert(text.skip(front.len() as int) =~= r@);
        if bytes.len() <= 8 {
            assert(bytes.skip(0) =~= bytes);
        }
        front.len() as int
    } else {
        assert(bytes.len() > 8) by {
            if bytes.len() <= 8 {
                assert(cut == 0);
            }
        }
        assert(text.skip(0) =~= text);
        0
    }
}

/// How much of the slug the readable part is cut from: forty-eight characters,
/// or all of it.
pub open spec fn cut_at(page_slug: Seq<char>) -> int {
    if page_slug.len() < 48 {
        page_slug.len() as int
    } else {
        48
    }
}

/// Whether `part` is what the first forty-eight characters of the slug leave
/// between their outer dashes, or `page` where they are nothing but dashes.
pub open spec fn is_cut_from(part: Seq<char>, page_slug: Seq<char>) -> bool {
    ||| part == "page"@ && forall|i: int| 0 <= i < cut_at(page_slug) ==> #[trigger] page_slug[i] == '-'
    ||| exists|from: int, to: int|
        #![trigger page_slug.subrange(from, to)]
        {
            &&& 0 <= from < to <= cut_at(page_slug)
            &&& part == page_slug.subrange(from, to)
            &&& page_slug[from] != '-'
            &&& page_slug[to - 1] != '-'
            &&& forall|i: int| 0 <= i < from ==> #[trigger] page_slug[i] == '-'
            &&& forall|i: int| to <= i < cut_at(page_slug) ==> #[trigger] page_slug[i] == '-'
        }
}

proof fn readable_is_cut_from_the_slug(page_slug: Seq<char>)
    ensures
        is_cut_from(readable(page_slug), page_slug),
{
    let short = shortened(page_slug, READABLE_LEN as nat);
    let range = trimmed_is_a_part(short, Margin::Dashes);
    let cut = trimmed(short, Margin::Dashes);
    assert forall|i: int| 0 <= i < short.len() implies short[i] == page_slug[i] by {}
    if cut.len() == 0 {
        assert forall|i: int| 0 <= i < cut_at(page_slug) implies #[trigger] page_slug[i] == '-' by {
            assert(Margin::Dashes.covers(short[i]));
        }
    } else {
        assert(cut =~= page_slug.subrange(range.0, range.1));
        assert forall|i: int| 0 <= i < range.0 implies #[trigger] page_slug[i] == '-' by {
            assert(Margin::Dashes.covers(short[i]));
        }
        assert forall|i: int| range.1 <= i < cut_at(page_slug) implies #[trigger] page_slug[i]
            == '-' by {
            assert(Margin::Dashes.covers(short[i]));
        }
    }
}

/// Whether the path is put together from the directory's two parts, a part that
/// is cut from the slug of the page, and the fingerprint.
pub open spec fn is_path_of(
    path: Seq<char>,
    directory: Seq<char>,
    tail: Seq<char>,
    page_slug: Seq<char>,
    fingerprint: Seq<char>,
) -> bool {
    exists|part: Seq<char>|
        #![trigger is_cut_from(part, page_slug)]
        is_cut_from(part, page_slug) && path == "crawl/"@ + directory + "-"@ + tail + "/"@ + part
            + "-"@ + fingerprint + ".md"@
}

pub(crate) proof fn page_path_is_put_together(
    job_id: Seq<char>,
    job_name: Seq<char>,
    page_slug: Seq<char>,
    fingerprint: Seq<char>,
)
    ensures
        is_path_of(
            page_path(job_id, job_name, page_slug, fingerprint),
            slug(job_name),
            id_tail(job_id),
            page_slug,
            fingerprint,
        ),
{
    reveal_strlit("crawl/");
    reveal_strlit("crawl");
    reveal_strlit("/");
    readable_is_cut_from_the_slug(page_slug);
    let part = readable(page_slug);
    assert("crawl/"@ =~= CRAWL_REL_DIR@ + "/"@);
    assert(page_path(job_id, job_name, page_slug, fingerprint) =~= "crawl/"@ + slug(job_name)
        + "-"@ + id_tail(job_id) + "/"@ + part + "-"@ + fingerprint + ".md"@);
}

/// A page lies at `crawl/{job}-{id8}/{readable}-{fingerprint}.md`: the job's part
/// is what [`slugify`] makes of its name, the next what [`id_suffix`] makes of
/// its id, the readable part is cut from the slug of the page, and the
/// fingerprint is written in full.
pub proof fn path_is_put_together(
    job_id: &CrawlJobId,
    job_name: &str,
    page_slug: &str,
    url_fingerprint: &str,
    r: String,
    directory: String,
    tail: &str,
)
    requires
        call_ensures(path_for_slug, (job_id, job_name, page_slug, url_fingerprint), r),
        call_ensures(slugify, (job_name,), directory),
        call_ensures(id_suffix, (job_id,), tail),
    ensures
        is_path_of(r@, directory@, tail@, page_slug@, url_fingerprint@),
{
    page_path_is_put_together(job_id@, job_name@, page_slug@, url_fingerprint@);
}

/// Whether the slug of the page is what `slug_for_url` makes of its URL; of a
/// text that is no URL it is `page`.
pub open spec fn is_slug_of<F: Fn(&Url) -> String>(
    slug_for_url: F,
    url: Seq<char>,
    page_slug: Seq<char>,
) -> bool {
    match parsed_url(url) {
        Some(parsed) => exists|made: String|
            #![trigger call_ensures(slug_for_url, (&parsed,), made)]
            call_ensures(slug_for_url, (&parsed,), made) && made@ == page_slug,
        None => page_slug == "page"@,
    }
}

/// The document of a page lies where its job and its URL say: as
/// [`path_is_put_together`] states it, with the slug of the page's URL.
pub proof fn document_lies_where_its_url_says<F: Fn(&Url) -> String>(
    job_id: &CrawlJobId,
    job_name: &str,
    url: &str,
    url_fingerprint: &str,
    slug_for_url: F,
    r: String,
    directory: String,
    tail: &str,
)
    requires
        call_ensures(
            document_path::<F>,
            (job_id, job_name, url, url_fingerprint, slug_for_url),
            r,
        ),
        call_ensures(slugify, (job_name,), directory),
        call_ensures(id_suffix, (job_id,), tail),
    ensures
        exists|page_slug: Seq<char>|
            #![trigger is_slug_of(slug_for_url, url@, page_slug)]
            is_slug_of(slug_for_url, url@, page_slug) && is_path_of(
                r@,
                directory@,
                tail@,
                page_slug,
                url_fingerprint@,
            ),
{
    let page_slug = choose|page_slug: Seq<char>|
        #![trigger names_page(slug_for_url, url@, page_slug)]
        names_page(slug_for_url, url@, page_slug) && r@ == page_path(
            job_id@,
            job_name@,
            page_slug,
            url_fingerprint@,
        );
    assert(is_slug_of(slug_for_url, url@, page_slug));
    page_path_is_put_together(job_id@, job_name@, page_slug, url_fingerprint@);
}

/// What the file name of a page starts from is what `slug_for_url` makes of its
/// URL, and `page` where the text is none.
pub proof fn page_is_named_by_its_url<F: Fn(&Url) -> String>(url: &str, slug_for_url: F, r: String)
    requires
        call_ensures(page_slug::<F>, (url, slug_for_url), r),
    ensures
        is_slug_of(slug_for_url, url@, r@),
{
}

} // verus!
